use basic_bevy_pixel_camera::fixed_point::{PixelRect, PixelVec2, TargetExtent, WorldSize, WorldVec2, PIXEL, UNIT};
use basic_bevy_pixel_camera::pixel_camera::{create_pixel_camera, PIXEL_CAMERA_ORDER};
use basic_bevy_pixel_camera::pixel_camera_schedule::update_pixel_camera_schedule;
use basic_bevy_pixel_camera::pixel_camera_snapping::{update_pixel_camera_pos_snapped, PixelCameraSnapping};
use basic_bevy_pixel_camera::pixel_canvas::{
    create_pixel_canvas, update_pixel_camera, update_pixel_canvas, update_pixel_canvas_rect,
    update_pixel_canvas_sprite, PixelCanvasConfig,
};
use basic_bevy_pixel_camera::pixel_canvas_smoothing::{update_pixel_canvas_rect_smoothed, PixelCanvasSmoothing};
use basic_bevy_pixel_camera::pixel_image::create_pixel_image;
use basic_bevy_pixel_camera::pixel_scene::PixelScene;

fn unshifted() -> PixelRect {
    PixelRect { min: PixelVec2 { x: PIXEL, y: PIXEL }, max: PixelVec2 { x: 65 * PIXEL, y: 33 * PIXEL } }
}

/// A scene with one target, one camera and one canvas of 8 by 4 units at 8 pixels per unit.
fn setup() -> PixelScene {
    let mut scene = PixelScene::new();
    let image = create_pixel_image(&mut scene);
    let camera = create_pixel_camera(&mut scene, image, 1);
    create_pixel_canvas(&PixelCanvasConfig::new(8000, 8000, 4000), &mut scene, image, camera, 0);
    scene
}

#[test]
fn created_entities_start_as_described() {
    let scene = setup();
    assert_eq!(scene.images, vec![TargetExtent { width: 0, height: 0 }]);
    let cam = scene.cameras[0];
    assert_eq!(cam.target, 0);
    assert_eq!(cam.render_layer, 1);
    assert_eq!(cam.order, PIXEL_CAMERA_ORDER);
    assert!(cam.order < 0);
    assert_eq!(cam.projection, Some(UNIT as u32));
    let c = scene.canvases[0];
    assert!(c.canvas.update_image);
    assert_eq!(c.canvas.camera_id, 0);
    assert_eq!(c.target, 0);
    assert_eq!(c.render_layer, 0);
    assert_eq!(c.custom_size, Some(WorldSize { width: 8000, height: 4000 }));
    assert_eq!(c.rect, Some(unshifted()));
}

#[test]
fn resize_happens_once() {
    let mut scene = setup();
    update_pixel_canvas(&mut scene);
    assert_eq!(scene.images[0], TargetExtent { width: 66, height: 34 });
    assert!(!scene.canvases[0].canvas.update_image);
    // A second pass leaves the target alone, whatever it holds.
    scene.images[0] = TargetExtent { width: 3, height: 3 };
    update_pixel_canvas(&mut scene);
    assert_eq!(scene.images[0], TargetExtent { width: 3, height: 3 });
    assert!(!scene.canvases[0].canvas.update_image);
}

#[test]
fn sprite_size_follows_config() {
    let mut scene = setup();
    scene.canvases[0].custom_size = None;
    update_pixel_canvas_sprite(&mut scene);
    assert_eq!(scene.canvases[0].custom_size, Some(WorldSize { width: 8000, height: 4000 }));
}

#[test]
fn projection_takes_canvas_ppu() {
    let mut scene = setup();
    update_pixel_camera(&mut scene);
    assert_eq!(scene.cameras[0].projection, Some(8000));
}

#[test]
fn projection_skips_camera_without_projection() {
    let mut scene = setup();
    scene.cameras[0].projection = None;
    update_pixel_camera(&mut scene);
    assert_eq!(scene.cameras[0].projection, None);
}

#[test]
fn missing_camera_is_skipped() {
    let mut scene = setup();
    scene.canvases[0].canvas.camera_id = 7;
    let cameras = scene.cameras.clone();
    update_pixel_camera(&mut scene);
    update_pixel_camera_pos_snapped(&mut scene);
    assert_eq!(scene.cameras, cameras);
}

#[test]
fn rect_reset_twice_gives_same_rect() {
    let mut scene = setup();
    scene.canvases[0].rect = None;
    update_pixel_canvas_rect(&mut scene);
    let first = scene.canvases[0].rect;
    update_pixel_canvas_rect(&mut scene);
    assert_eq!(scene.canvases[0].rect, first);
    assert_eq!(first, Some(unshifted()));
}

#[test]
fn rect_reset_leaves_smoothed_canvas() {
    let mut scene = setup();
    scene.canvases[0].smoothing = Some(PixelCanvasSmoothing);
    scene.canvases[0].rect = None;
    update_pixel_canvas_rect(&mut scene);
    assert_eq!(scene.canvases[0].rect, None);
}

#[test]
fn smoothing_shifts_rect_by_parent_fraction() {
    let mut scene = setup();
    scene.canvases[0].smoothing = Some(PixelCanvasSmoothing);
    scene.canvases[0].parent_translation = Some(WorldVec2 { x: 300, y: -200 });
    update_pixel_canvas_rect_smoothed(&mut scene);
    let r = scene.canvases[0].rect.unwrap();
    assert_eq!(r.min, PixelVec2 { x: 1_400_000, y: 600_000 });
    assert_eq!(r.max, PixelVec2 { x: 65_400_000, y: 32_600_000 });
}

#[test]
fn smoothing_skips_canvas_without_parent() {
    let mut scene = setup();
    scene.canvases[0].smoothing = Some(PixelCanvasSmoothing);
    scene.canvases[0].rect = None;
    update_pixel_canvas_rect_smoothed(&mut scene);
    assert_eq!(scene.canvases[0].rect, None);
}

#[test]
fn snapping_moves_snapping_camera_only() {
    let mut scene = setup();
    scene.cameras[0].parent_translation = Some(WorldVec2 { x: 300, y: -200 });
    update_pixel_camera_pos_snapped(&mut scene);
    assert_eq!(scene.cameras[0].translation, WorldVec2 { x: 0, y: 0 });
    scene.cameras[0].snapping = Some(PixelCameraSnapping);
    update_pixel_camera_pos_snapped(&mut scene);
    assert_eq!(scene.cameras[0].translation, WorldVec2 { x: -50, y: -50 });
}

#[test]
fn full_frame_with_snapping_and_smoothing() {
    let mut scene = setup();
    let parent = Some(WorldVec2 { x: 300, y: -200 });
    scene.cameras[0].snapping = Some(PixelCameraSnapping);
    scene.cameras[0].parent_translation = parent;
    scene.canvases[0].smoothing = Some(PixelCanvasSmoothing);
    scene.canvases[0].parent_translation = parent;
    update_pixel_camera_schedule(&mut scene);
    assert_eq!(scene.images[0], TargetExtent { width: 66, height: 34 });
    assert!(!scene.canvases[0].canvas.update_image);
    assert_eq!(scene.cameras[0].projection, Some(8000));
    assert_eq!(scene.cameras[0].translation, WorldVec2 { x: -50, y: -50 });
    assert_eq!(scene.canvases[0].rect.unwrap().min, PixelVec2 { x: 1_400_000, y: 600_000 });
}

#[test]
fn full_frame_without_passes() {
    let mut scene = setup();
    update_pixel_camera_schedule(&mut scene);
    assert_eq!(scene.images[0], TargetExtent { width: 66, height: 34 });
    assert_eq!(scene.canvases[0].rect, Some(unshifted()));
    assert_eq!(scene.cameras[0].translation, WorldVec2 { x: 0, y: 0 });
}

#[test]
fn resize_skips_canvas_with_missing_target() {
    let mut scene = setup();
    create_pixel_canvas(&PixelCanvasConfig::new(2000, 1000, 1000), &mut scene, 5, 0, 0);
    update_pixel_canvas(&mut scene);
    assert_eq!(scene.images, vec![TargetExtent { width: 66, height: 34 }]);
    assert!(!scene.canvases[0].canvas.update_image);
    assert!(scene.canvases[1].canvas.update_image);
}
