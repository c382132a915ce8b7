//! One frame of the pixel camera: all passes in their fixed order.
use crate::pixel_camera_snapping::{snapped_cameras, update_pixel_camera_pos_snapped};
use crate::pixel_canvas::{
    projected_cameras, rect_reset, resized, resized_targets, sprite_synced, update_pixel_camera,
    update_pixel_canvas, update_pixel_canvas_rect, update_pixel_canvas_sprite,
};
use crate::pixel_canvas_smoothing::{rect_smoothed, update_pixel_canvas_rect_smoothed};
use crate::pixel_scene::PixelScene;
use vstd::prelude::*;

verus! {

/// Runs the passes of one frame in order: sprite size, target resize,
/// camera projection, crop-rect reset, smoothing, snapping.
pub fn update_pixel_camera_schedule(scene: &mut PixelScene)
    requires
        old(scene).wf(),
    ensures
        final(scene).wf(),
        ({
            let synced = old(scene).canvases@.map_values(|c| sprite_synced(c));
            let sized = synced.map_values(|c| resized(c, old(scene).images@.len()));
            let reset = sized.map_values(|c| rect_reset(c));
            let smoothed = reset.map_values(|c| rect_smoothed(c));
            &&& final(scene).canvases@ == smoothed
            &&& final(scene).images@ == resized_targets(old(scene).images@, synced)
            &&& final(scene).cameras@ == snapped_cameras(projected_cameras(old(scene).cameras@, sized), smoothed)
        }),
{
    update_pixel_canvas_sprite(scene);
    update_pixel_canvas(scene);
    update_pixel_camera(scene);
    update_pixel_canvas_rect(scene);
    update_pixel_canvas_rect_smoothed(scene);
    update_pixel_camera_pos_snapped(scene);
}

} // verus!
