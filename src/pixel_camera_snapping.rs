//! Snapping: the pixel camera moves in whole target pixels.
use crate::fixed_point::{
    abs, lemma_round_div_close, lemma_round_div_near, lemma_trunc_div, pixel_fraction,
    pixel_fraction_exec, round_div, trunc_div, trunc_div_exec, WorldVec2, PIXEL,
};
use crate::pixel_camera::PixelCamera;
use crate::pixel_canvas::PixelCanvasEntity;
use crate::pixel_scene::PixelScene;
use vstd::prelude::*;

verus! {

/// Marks a pixel camera whose position is snapped to whole target pixels.
#[derive(Clone, Copy, Debug, Default, PartialEq, Eq, Structural)]
pub struct PixelCameraSnapping;

/// The fraction of a pixel that a parent coordinate is off a whole pixel,
/// turned back into world thousandths, dropping what is left towards zero
/// so that the offset never exceeds that fraction.
pub open spec fn snap_offset(t: int, pixels_per_unit: int) -> int {
    trunc_div(pixel_fraction(t, pixels_per_unit), pixels_per_unit)
}

/// The local translation that puts a camera under a parent at `parent` on
/// the nearest whole pixel.
pub open spec fn snapped_translation(pixels_per_unit: u32, parent: WorldVec2) -> WorldVec2 {
    WorldVec2 {
        x: (-snap_offset(parent.x as int, pixels_per_unit as int)) as i32,
        y: (-snap_offset(parent.y as int, pixels_per_unit as int)) as i32,
    }
}

fn snap_axis(t: i32, pixels_per_unit: u32) -> (r: i32)
    requires
        pixels_per_unit > 0,
    ensures
        r == -snap_offset(t as int, pixels_per_unit as int),
{
    let f = pixel_fraction_exec(t, pixels_per_unit);
    proof {
        lemma_trunc_div(f as int, pixels_per_unit as int);
    }
    let s = trunc_div_exec(f, pixels_per_unit as i64);
    -(s as i32)
}

/// The camera's local translation under a parent at `parent`, so that the
/// camera's world position falls on a whole target pixel.
pub fn snapped_camera_translation(pixels_per_unit: u32, parent: WorldVec2) -> (r: WorldVec2)
    requires
        pixels_per_unit > 0,
    ensures
        r == snapped_translation(pixels_per_unit, parent),
        r.x == -snap_offset(parent.x as int, pixels_per_unit as int),
        r.y == -snap_offset(parent.y as int, pixels_per_unit as int),
        2 * abs(r.x * pixels_per_unit) <= PIXEL,
        2 * abs(r.y * pixels_per_unit) <= PIXEL,
{
    proof {
        lemma_bounded_snap(parent.x as int, pixels_per_unit as int);
        lemma_bounded_snap(parent.y as int, pixels_per_unit as int);
    }
    WorldVec2 { x: snap_axis(parent.x, pixels_per_unit), y: snap_axis(parent.y, pixels_per_unit) }
}

proof fn lemma_snap_axis_keeps_pixel(t: int, p: int)
    requires
        p > 0,
    ensures
        round_div(t * p + (-snap_offset(t, p)) * p, PIXEL as int) == round_div(t * p, PIXEL as int),
{
    let v = t * p;
    let whole = round_div(v, PIXEL as int);
    let f = pixel_fraction(t, p);
    let k = snap_offset(t, p);
    assert((-k) * p == -(k * p)) by (nonlinear_arith);
    lemma_round_div_close(v, PIXEL as int);
    lemma_trunc_div(f, p);
    if k != 0 {
        // What is left is smaller than the whole fraction and on its side.
        lemma_round_div_near(v + (-k) * p, PIXEL as int, whole);
    }
}

/// After snapping, the parent's position plus the camera's local
/// translation, scaled to pixels, rounds to the same whole pixel as the
/// parent's position alone, on each axis.
pub proof fn lemma_snapping_keeps_pixel(pixels_per_unit: u32, parent: WorldVec2)
    requires
        pixels_per_unit > 0,
    ensures
        ({
            let p = pixels_per_unit as int;
            let l = snapped_translation(pixels_per_unit, parent);
            &&& round_div(parent.x * p + l.x * p, PIXEL as int) == round_div(parent.x * p, PIXEL as int)
            &&& round_div(parent.y * p + l.y * p, PIXEL as int) == round_div(parent.y * p, PIXEL as int)
        }),
{
    let p = pixels_per_unit as int;
    lemma_bounded_snap(parent.x as int, p);
    lemma_bounded_snap(parent.y as int, p);
    lemma_snap_axis_keeps_pixel(parent.x as int, p);
    lemma_snap_axis_keeps_pixel(parent.y as int, p);
}

/// A snap offset, scaled to pixels, is at most half a pixel, and small
/// enough for a world coordinate.
pub proof fn lemma_bounded_snap(t: int, p: int)
    requires
        p > 0,
    ensures
        2 * abs(snap_offset(t, p) * p) <= PIXEL,
        2 * abs((-snap_offset(t, p)) * p) <= PIXEL,
        abs(snap_offset(t, p)) <= PIXEL,
{
    let k = snap_offset(t, p);
    assert((-k) * p == -(k * p)) by (nonlinear_arith);
    lemma_round_div_close(t * p, PIXEL as int);
    lemma_trunc_div(pixel_fraction(t, p), p);
}

/// The cameras after one canvas's turn in the snapping pass: its camera,
/// where it exists, snaps and has a parent, gets the snapped translation.
pub open spec fn snap_camera(cameras: Seq<PixelCamera>, c: PixelCanvasEntity) -> Seq<PixelCamera> {
    let id = c.canvas.camera_id as int;
    if id < cameras.len() && cameras[id].snapping is Some && cameras[id].parent_translation is Some {
        cameras.update(
            id,
            PixelCamera {
                translation: snapped_translation(c.canvas.pixels_per_unit, cameras[id].parent_translation->0),
                ..cameras[id]
            },
        )
    } else {
        cameras
    }
}

/// The cameras after the snapping pass has taken each canvas in turn.
pub open spec fn snapped_cameras(cameras: Seq<PixelCamera>, canvases: Seq<PixelCanvasEntity>) -> Seq<PixelCamera>
    decreases canvases.len(),
{
    if canvases.len() == 0 {
        cameras
    } else {
        snap_camera(snapped_cameras(cameras, canvases.drop_last()), canvases.last())
    }
}

proof fn lemma_snapped_cameras_keep(cameras: Seq<PixelCamera>, canvases: Seq<PixelCanvasEntity>)
    ensures
        snapped_cameras(cameras, canvases).len() == cameras.len(),
        forall|j: int|
            0 <= j < cameras.len() ==> (#[trigger] snapped_cameras(cameras, canvases)[j]).snapping
                == cameras[j].snapping && snapped_cameras(cameras, canvases)[j].parent_translation
                == cameras[j].parent_translation,
    decreases canvases.len(),
{
    if canvases.len() > 0 {
        lemma_snapped_cameras_keep(cameras, canvases.drop_last());
    }
}

/// After the snapping pass, a snapping camera with a parent that exactly one
/// canvas refers to has the translation snapped for that canvas's pixels
/// per unit; with `lemma_snapping_keeps_pixel` its position then rounds to
/// its parent's pixel.
pub proof fn lemma_snap_pass_moves_camera(cameras: Seq<PixelCamera>, canvases: Seq<PixelCanvasEntity>, i: int)
    requires
        0 <= i < canvases.len(),
        canvases[i].canvas.camera_id < cameras.len(),
        cameras[canvases[i].canvas.camera_id as int].snapping is Some,
        cameras[canvases[i].canvas.camera_id as int].parent_translation is Some,
        forall|j: int|
            0 <= j < canvases.len() && j != i ==> (#[trigger] canvases[j]).canvas.camera_id
                != canvases[i].canvas.camera_id,
    ensures
        snapped_cameras(cameras, canvases)[canvases[i].canvas.camera_id as int].translation == snapped_translation(
            canvases[i].canvas.pixels_per_unit,
            cameras[canvases[i].canvas.camera_id as int].parent_translation->0,
        ),
    decreases canvases.len(),
{
    let rest = canvases.drop_last();
    lemma_snapped_cameras_keep(cameras, rest);
    assert(canvases.last() == canvases[canvases.len() - 1]);
    if i < canvases.len() - 1 {
        assert forall|j: int|
            0 <= j < rest.len() && j != i implies (#[trigger] rest[j]).canvas.camera_id
                != rest[i].canvas.camera_id by {
            assert(rest[j] == canvases[j]);
        }
        lemma_snap_pass_moves_camera(cameras, rest, i);
    }
}

/// Moves the camera of each canvas, where it snaps and has a parent, so that
/// its world position falls on a whole pixel of the canvas's target.
pub fn update_pixel_camera_pos_snapped(scene: &mut PixelScene)
    requires
        old(scene).wf(),
    ensures
        final(scene).wf(),
        final(scene).cameras@ == snapped_cameras(old(scene).cameras@, old(scene).canvases@),
        final(scene).images@ == old(scene).images@,
        final(scene).canvases@ == old(scene).canvases@,
{
    let n = scene.canvases.len();
    let mut i: usize = 0;
    while i < n
        invariant
            0 <= i <= n,
            n == scene.canvases@.len(),
            scene.wf(),
            scene.images@ == old(scene).images@,
            scene.canvases@ == old(scene).canvases@,
            scene.cameras@.len() == old(scene).cameras@.len(),
            scene.cameras@ == snapped_cameras(old(scene).cameras@, old(scene).canvases@.subrange(0, i as int)),
        decreases n - i,
    {
        let c = scene.canvases[i];
        let ghost before = scene.cameras@;
        proof {
            assert(old(scene).canvases@.subrange(0, i + 1).drop_last() =~= old(scene).canvases@.subrange(0, i as int));
            assert(scene.canvases@[i as int].wf());
        }
        let id = c.canvas.camera_id;
        if id < scene.cameras.len() {
            let cam = scene.cameras[id];
            if cam.snapping.is_some() {
                if let Some(parent) = cam.parent_translation {
                    let translation = snapped_camera_translation(c.canvas.pixels_per_unit, parent);
                    scene.cameras.set(id, PixelCamera { translation, ..cam });
                }
            }
        }
        proof {
            assert(scene.cameras@ =~= snap_camera(before, c));
        }
        i += 1;
    }
    assert(old(scene).canvases@.subrange(0, n as int) =~= old(scene).canvases@);
}

} // verus!
