//! The arena that holds offscreen targets, pixel cameras and canvases.
//! Entities refer to each other by index; a reference that does not resolve
//! makes a pass skip that entity.
use crate::fixed_point::TargetExtent;
use crate::pixel_camera::PixelCamera;
use crate::pixel_canvas::PixelCanvasEntity;
use vstd::prelude::*;

verus! {

pub struct PixelScene {
    pub images: Vec<TargetExtent>,
    pub cameras: Vec<PixelCamera>,
    pub canvases: Vec<PixelCanvasEntity>,
}

impl PixelScene {
    /// Every canvas has a valid configuration.
    pub open spec fn wf(&self) -> bool {
        forall|i: int| 0 <= i < self.canvases@.len() ==> #[trigger] self.canvases@[i].wf()
    }

    /// An empty scene.
    pub fn new() -> (r: Self)
        ensures
            r.wf(),
            r.images@.len() == 0,
            r.cameras@.len() == 0,
            r.canvases@.len() == 0,
    {
        PixelScene { images: Vec::new(), cameras: Vec::new(), canvases: Vec::new() }
    }
}

} // verus!
