//! Offscreen targets.
use crate::fixed_point::TargetExtent;
use crate::pixel_scene::PixelScene;
use vstd::prelude::*;

verus! {

/// Adds an empty offscreen target and returns its index; a canvas sizes it
/// on the next frame.
pub fn create_pixel_image(scene: &mut PixelScene) -> (r: usize)
    requires
        old(scene).wf(),
    ensures
        final(scene).wf(),
        r == old(scene).images@.len(),
        final(scene).images@ == old(scene).images@.push(TargetExtent { width: 0, height: 0 }),
        final(scene).cameras@ == old(scene).cameras@,
        final(scene).canvases@ == old(scene).canvases@,
{
    let id = scene.images.len();
    scene.images.push(TargetExtent { width: 0, height: 0 });
    proof {
        assert forall|i: int| 0 <= i < scene.canvases@.len() implies #[trigger] scene.canvases@[i].wf() by {
            assert(scene.canvases@[i] == old(scene).canvases@[i]);
            assert(old(scene).canvases@[i].wf());
        }
    }
    id
}

} // verus!
