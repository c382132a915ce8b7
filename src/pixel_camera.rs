//! The pixel camera, which renders the scene into an offscreen target.
use crate::fixed_point::{WorldVec2, UNIT};
use crate::pixel_camera_snapping::PixelCameraSnapping;
use crate::pixel_scene::PixelScene;
use vstd::prelude::*;

verus! {

/// Render order of pixel cameras: below the main camera's default of zero,
/// so the offscreen target is drawn before the main pass shows it.
pub const PIXEL_CAMERA_ORDER: i32 = -1;

/// A camera that renders into an offscreen target.
#[derive(Clone, Copy, Debug, PartialEq, Eq, Structural)]
pub struct PixelCamera {
    /// Index of the target in the scene's images.
    pub target: usize,
    pub render_layer: u32,
    pub order: i32,
    /// Pixels per world unit (in thousandths) of the camera's orthographic
    /// projection in window-size scaling; `None` without such a projection.
    pub projection: Option<u32>,
    /// Local translation relative to the parent.
    pub translation: WorldVec2,
    /// The parent's translation, where the camera has a parent.
    pub parent_translation: Option<WorldVec2>,
    pub snapping: Option<PixelCameraSnapping>,
}

/// A new pixel camera as `create_pixel_camera` adds it.
pub open spec fn new_pixel_camera(image: usize, render_layer: u32) -> PixelCamera {
    PixelCamera {
        target: image,
        render_layer,
        order: PIXEL_CAMERA_ORDER,
        projection: Some(UNIT as u32),
        translation: WorldVec2 { x: 0, y: 0 },
        parent_translation: None,
        snapping: None,
    }
}

/// Adds a camera that renders into `image` and returns its index.
pub fn create_pixel_camera(scene: &mut PixelScene, image: usize, render_layer: u32) -> (r: usize)
    requires
        old(scene).wf(),
    ensures
        final(scene).wf(),
        r == old(scene).cameras@.len(),
        final(scene).cameras@ == old(scene).cameras@.push(new_pixel_camera(image, render_layer)),
        final(scene).images@ == old(scene).images@,
        final(scene).canvases@ == old(scene).canvases@,
{
    let id = scene.cameras.len();
    scene.cameras.push(
        PixelCamera {
            target: image,
            render_layer,
            order: PIXEL_CAMERA_ORDER,
            projection: Some(UNIT as u32),
            translation: WorldVec2 { x: 0, y: 0 },
            parent_translation: None,
            snapping: None,
        },
    );
    proof {
        assert forall|i: int| 0 <= i < scene.canvases@.len() implies #[trigger] scene.canvases@[i].wf() by {
            assert(scene.canvases@[i] == old(scene).canvases@[i]);
        }
    }
    id
}

} // verus!
