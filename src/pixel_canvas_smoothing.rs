//! Smoothing: the canvas crop rectangle absorbs the fraction of a pixel
//! that snapping takes off the camera.
use crate::fixed_point::{abs, lemma_round_div_close, lemma_trunc_div, pixel_fraction, pixel_fraction_exec, round_div, PixelRect, WorldVec2, PIXEL};
use crate::pixel_camera_snapping::{snap_offset, snapped_translation};
use crate::pixel_canvas::{canvas_rect, generate_pixel_canvas_rect, PixelCanvas, PixelCanvasEntity};
use crate::pixel_scene::PixelScene;
use vstd::prelude::*;

verus! {

/// Marks a canvas whose crop rectangle follows its parent's sub-pixel position.
#[derive(Clone, Copy, Debug, Default, PartialEq, Eq, Structural)]
pub struct PixelCanvasSmoothing;

/// The crop rectangle of a smoothed canvas under a parent at `parent`: the
/// rectangle is shifted by the parent's distance from the nearest whole
/// pixel, with the vertical axis flipped since image rows grow downwards.
pub open spec fn smoothed_rect(canvas: PixelCanvas, parent: WorldVec2) -> PixelRect {
    canvas_rect(
        canvas.pixels_per_unit,
        canvas.unit_width,
        canvas.unit_height,
        pixel_fraction(parent.x as int, canvas.pixels_per_unit as int),
        -pixel_fraction(parent.y as int, canvas.pixels_per_unit as int),
    )
}

/// Computes the crop rectangle of a smoothed canvas under a parent at `parent`.
pub fn smoothed_canvas_rect(canvas: &PixelCanvas, parent: WorldVec2) -> (r: PixelRect)
    requires
        canvas.wf(),
    ensures
        r == smoothed_rect(*canvas, parent),
{
    let ox = pixel_fraction_exec(parent.x, canvas.pixels_per_unit);
    let oy = pixel_fraction_exec(parent.y, canvas.pixels_per_unit);
    generate_pixel_canvas_rect(canvas.pixels_per_unit, canvas.unit_width, canvas.unit_height, ox, -oy)
}

/// Smoothing and snapping cancel: the crop offset of a smoothed canvas is the
/// parent's distance from the nearest whole pixel (flipped vertically), and
/// the snapped camera's local translation, scaled to pixels, takes that
/// distance back, short of it by less than one thousandth of a world unit
/// and never past it.
pub proof fn lemma_smoothing_undoes_snapping(canvas: PixelCanvas, parent: WorldVec2)
    requires
        canvas.wf(),
    ensures
        ({
            let p = canvas.pixels_per_unit as int;
            let rect = smoothed_rect(canvas, parent);
            let off_x = rect.min.x - PIXEL;
            let off_y = rect.min.y - PIXEL;
            let l = snapped_translation(canvas.pixels_per_unit, parent);
            &&& off_x == parent.x * p - round_div(parent.x * p, PIXEL as int) * PIXEL
            &&& -off_y == parent.y * p - round_div(parent.y * p, PIXEL as int) * PIXEL
            &&& abs(off_x + l.x * p) < p
            &&& abs(-off_y + l.y * p) < p
            &&& abs(l.x * p) <= abs(off_x)
            &&& abs(l.y * p) <= abs(off_y)
        }),
{
    let p = canvas.pixels_per_unit as int;
    lemma_fraction_and_snap(parent.x as int, p);
    lemma_fraction_and_snap(parent.y as int, p);
}

proof fn lemma_fraction_and_snap(t: int, p: int)
    requires
        p > 0,
    ensures
        abs(pixel_fraction(t, p) + (-snap_offset(t, p)) * p) < p,
        abs((-snap_offset(t, p)) * p) <= abs(pixel_fraction(t, p)),
        abs(snap_offset(t, p)) <= PIXEL,
        2 * abs(pixel_fraction(t, p)) <= PIXEL,
{
    lemma_round_div_close(t * p, PIXEL as int);
    lemma_trunc_div(pixel_fraction(t, p), p);
    let k = snap_offset(t, p);
    assert((-k) * p == -(k * p)) by (nonlinear_arith);
    crate::pixel_camera_snapping::lemma_bounded_snap(t, p);
}

/// A canvas after the smoothing pass: a smoothed canvas with a parent gets
/// the shifted crop rectangle; any other canvas is left as it is.
pub open spec fn rect_smoothed(c: PixelCanvasEntity) -> PixelCanvasEntity {
    if c.smoothing is Some && c.parent_translation is Some {
        PixelCanvasEntity { rect: Some(smoothed_rect(c.canvas, c.parent_translation->0)), ..c }
    } else {
        c
    }
}

/// Shifts the crop rectangle of each smoothed canvas by its parent's
/// distance from the nearest whole pixel.
pub fn update_pixel_canvas_rect_smoothed(scene: &mut PixelScene)
    requires
        old(scene).wf(),
    ensures
        final(scene).wf(),
        final(scene).canvases@ == old(scene).canvases@.map_values(|c| rect_smoothed(c)),
        final(scene).images@ == old(scene).images@,
        final(scene).cameras@ == old(scene).cameras@,
{
    let n = scene.canvases.len();
    let mut i: usize = 0;
    while i < n
        invariant
            0 <= i <= n,
            n == scene.canvases@.len(),
            n == old(scene).canvases@.len(),
            scene.wf(),
            scene.images@ == old(scene).images@,
            scene.cameras@ == old(scene).cameras@,
            forall|j: int| 0 <= j < i ==> scene.canvases@[j] == rect_smoothed(old(scene).canvases@[j]),
            forall|j: int| i <= j < n ==> scene.canvases@[j] == old(scene).canvases@[j],
        decreases n - i,
    {
        let c = scene.canvases[i];
        let ghost prev = scene.canvases@;
        proof {
            assert(scene.canvases@[i as int].wf());
        }
        if c.smoothing.is_some() {
            if let Some(parent) = c.parent_translation {
                let rect = smoothed_canvas_rect(&c.canvas, parent);
                scene.canvases.set(i, PixelCanvasEntity { rect: Some(rect), ..c });
            }
        }
        proof {
            assert forall|j: int| 0 <= j < n implies #[trigger] scene.canvases@[j].wf() by {
                assert(prev[j].wf());
            }
        }
        i += 1;
    }
    assert(scene.canvases@ =~= old(scene).canvases@.map_values(|c| rect_smoothed(c)));
}

} // verus!
