//! The canvas: configuration, target extent and crop rectangle.
use crate::fixed_point::{PixelRect, PixelVec2, TargetExtent, WorldSize, WorldVec2, PIXEL};
use crate::pixel_camera::PixelCamera;
use crate::pixel_canvas_smoothing::PixelCanvasSmoothing;
use crate::pixel_scene::PixelScene;
use vstd::prelude::*;

verus! {

/// Whole pixels of the offscreen target along one axis: the scaled length
/// rounded down, plus a margin of one pixel on each side.
pub open spec fn target_len(pixels_per_unit: int, len: int) -> int {
    pixels_per_unit * len / PIXEL as int + 2
}

/// A target of this length along one axis fits its pixel count in a `u32`.
pub open spec fn target_len_fits(pixels_per_unit: int, len: int) -> bool {
    target_len(pixels_per_unit, len) <= u32::MAX
}

/// The crop rectangle for a canvas: the scaled display area, inset by one
/// pixel and shifted by the given offset (in millionths of a pixel).
pub open spec fn canvas_rect(pixels_per_unit: u32, w: u32, h: u32, offset_x: int, offset_y: int) -> PixelRect {
    PixelRect {
        min: PixelVec2 { x: (PIXEL + offset_x) as i64, y: (PIXEL + offset_y) as i64 },
        max: PixelVec2 {
            x: (PIXEL + offset_x + pixels_per_unit * w) as i64,
            y: (PIXEL + offset_y + pixels_per_unit * h) as i64,
        },
    }
}

/// How a canvas is set up: pixels per world unit and the displayed size in
/// world units, all three in thousandths.
#[derive(Clone, Copy, Debug, PartialEq, Eq, Structural)]
pub struct PixelCanvasConfig {
    pub pixels_per_unit: u32,
    pub unit_width: u32,
    pub unit_height: u32,
}

impl PixelCanvasConfig {
    /// All three values are positive and the target they call for has a
    /// pixel count that fits a `u32` on each axis.
    pub open spec fn wf(self) -> bool {
        &&& self.pixels_per_unit > 0
        &&& self.unit_width > 0
        &&& self.unit_height > 0
        &&& target_len_fits(self.pixels_per_unit as int, self.unit_width as int)
        &&& target_len_fits(self.pixels_per_unit as int, self.unit_height as int)
    }

    pub fn new(pixels_per_unit: u32, unit_width: u32, unit_height: u32) -> (r: Self)
        requires
            (PixelCanvasConfig { pixels_per_unit, unit_width, unit_height }).wf(),
        ensures
            r.wf(),
            r.pixels_per_unit == pixels_per_unit,
            r.unit_width == unit_width,
            r.unit_height == unit_height,
    {
        PixelCanvasConfig { pixels_per_unit, unit_width, unit_height }
    }
}

impl PixelCanvasConfig {
    /// Whether the configuration is valid.
    pub fn is_valid(&self) -> (r: bool)
        ensures
            r == self.wf(),
    {
        if self.pixels_per_unit == 0 || self.unit_width == 0 || self.unit_height == 0 {
            return false;
        }
        let limit: u64 = 4_294_967_293_999_999;
        assert(limit == (u32::MAX - 2) * PIXEL + (PIXEL - 1));
        let sw = scaled_len(self.pixels_per_unit, self.unit_width);
        let sh = scaled_len(self.pixels_per_unit, self.unit_height);
        proof {
            lemma_fits_iff(self.pixels_per_unit as int, self.unit_width as int);
            lemma_fits_iff(self.pixels_per_unit as int, self.unit_height as int);
        }
        sw <= limit && sh <= limit
    }
}

/// A target fits a `u32` exactly when the scaled length stays below the
/// first length that would not.
proof fn lemma_fits_iff(pixels_per_unit: int, len: int)
    requires
        pixels_per_unit >= 0,
        len >= 0,
    ensures
        target_len_fits(pixels_per_unit, len) <==> pixels_per_unit * len <= (u32::MAX - 2) * PIXEL + (PIXEL - 1),
{
    let s = pixels_per_unit * len;
    assert(s >= 0) by (nonlinear_arith)
        requires
            s == pixels_per_unit * len,
            pixels_per_unit >= 0,
            len >= 0,
    ;
    vstd::arithmetic::div_mod::lemma_fundamental_div_mod(s, PIXEL as int);
    let q = s / PIXEL as int;
    if q <= u32::MAX - 2 {
        assert(q * PIXEL <= (u32::MAX - 2) * PIXEL) by (nonlinear_arith)
            requires
                q <= u32::MAX - 2,
        ;
    } else {
        assert(q * PIXEL >= (u32::MAX - 1) * PIXEL) by (nonlinear_arith)
            requires
                q >= u32::MAX - 1,
        ;
    }
}

/// The per-canvas data: its configuration, the index of the camera that
/// renders its target, and whether the target still has to be resized.
#[derive(Clone, Copy, Debug, PartialEq, Eq, Structural)]
pub struct PixelCanvas {
    pub pixels_per_unit: u32,
    pub unit_width: u32,
    pub unit_height: u32,
    pub camera_id: usize,
    pub update_image: bool,
}

impl PixelCanvas {
    pub open spec fn config(self) -> PixelCanvasConfig {
        PixelCanvasConfig {
            pixels_per_unit: self.pixels_per_unit,
            unit_width: self.unit_width,
            unit_height: self.unit_height,
        }
    }

    pub open spec fn wf(self) -> bool {
        self.config().wf()
    }
}

/// Scaled length of one axis in millionths of a pixel; it always fits.
fn scaled_len(pixels_per_unit: u32, len: u32) -> (r: u64)
    ensures
        r == pixels_per_unit * len,
{
    proof {
        assert(pixels_per_unit * len <= u32::MAX * u32::MAX) by (nonlinear_arith)
            requires
                pixels_per_unit <= u32::MAX,
                len <= u32::MAX,
        ;
    }
    (pixels_per_unit as u64) * (len as u64)
}

/// Size in pixels of the target that a canvas with these values renders.
pub fn generate_pixel_camera_target_extent(pixels_per_unit: u32, unit_width: u32, unit_height: u32) -> (r: TargetExtent)
    requires
        target_len_fits(pixels_per_unit as int, unit_width as int),
        target_len_fits(pixels_per_unit as int, unit_height as int),
    ensures
        r.width == target_len(pixels_per_unit as int, unit_width as int),
        r.height == target_len(pixels_per_unit as int, unit_height as int),
{
    let width = scaled_len(pixels_per_unit, unit_width) / (PIXEL as u64) + 2;
    let height = scaled_len(pixels_per_unit, unit_height) / (PIXEL as u64) + 2;
    TargetExtent { width: width as u32, height: height as u32 }
}

/// The crop rectangle of a canvas, shifted by an offset of at most one pixel
/// on each axis.
pub fn generate_pixel_canvas_rect(
    pixels_per_unit: u32,
    unit_width: u32,
    unit_height: u32,
    offset_x: i64,
    offset_y: i64,
) -> (r: PixelRect)
    requires
        target_len_fits(pixels_per_unit as int, unit_width as int),
        target_len_fits(pixels_per_unit as int, unit_height as int),
        -PIXEL <= offset_x <= PIXEL,
        -PIXEL <= offset_y <= PIXEL,
    ensures
        r == canvas_rect(pixels_per_unit, unit_width, unit_height, offset_x as int, offset_y as int),
        r.min.x == PIXEL + offset_x,
        r.min.y == PIXEL + offset_y,
        r.max.x == PIXEL + offset_x + pixels_per_unit * unit_width,
        r.max.y == PIXEL + offset_y + pixels_per_unit * unit_height,
{
    let sw = scaled_len(pixels_per_unit, unit_width);
    let sh = scaled_len(pixels_per_unit, unit_height);
    proof {
        lemma_scaled_len_bound(pixels_per_unit as int, unit_width as int);
        lemma_scaled_len_bound(pixels_per_unit as int, unit_height as int);
    }
    let min_x = PIXEL + offset_x;
    let min_y = PIXEL + offset_y;
    PixelRect {
        min: PixelVec2 { x: min_x, y: min_y },
        max: PixelVec2 { x: min_x + sw as i64, y: min_y + sh as i64 },
    }
}

/// A scaled length whose target fits a `u32` is far below `i64::MAX`.
proof fn lemma_scaled_len_bound(pixels_per_unit: int, len: int)
    requires
        pixels_per_unit >= 0,
        len >= 0,
        target_len_fits(pixels_per_unit, len),
    ensures
        pixels_per_unit * len < (u32::MAX + 1) * PIXEL,
{
    let s = pixels_per_unit * len;
    assert(pixels_per_unit * len >= 0) by (nonlinear_arith)
        requires
            pixels_per_unit >= 0,
            len >= 0,
    ;
    vstd::arithmetic::div_mod::lemma_fundamental_div_mod(s, PIXEL as int);
}

/// With no offset the crop rectangle starts one pixel in from the target's
/// corner, spans exactly the scaled display size, and ends within the last
/// pixel of the target (at that pixel's start when the scaled size is whole).
pub proof fn lemma_unshifted_rect_inset(config: PixelCanvasConfig)
    requires
        config.wf(),
    ensures
        ({
            let r = canvas_rect(config.pixels_per_unit, config.unit_width, config.unit_height, 0, 0);
            let t = (target_len(config.pixels_per_unit as int, config.unit_width as int),
                target_len(config.pixels_per_unit as int, config.unit_height as int));
            &&& r.min.x == PIXEL && r.min.y == PIXEL
            &&& r.max.x - r.min.x == config.pixels_per_unit * config.unit_width
            &&& r.max.y - r.min.y == config.pixels_per_unit * config.unit_height
            &&& (t.0 - 1) * PIXEL <= r.max.x < t.0 * PIXEL
            &&& (t.1 - 1) * PIXEL <= r.max.y < t.1 * PIXEL
        }),
{
    let p = config.pixels_per_unit as int;
    let w = config.unit_width as int;
    let h = config.unit_height as int;
    lemma_scaled_len_bound(p, w);
    lemma_scaled_len_bound(p, h);
    lemma_floor_window(p * w);
    lemma_floor_window(p * h);
}

proof fn lemma_floor_window(s: int)
    requires
        s >= 0,
    ensures
        (s / PIXEL as int) * PIXEL <= s < (s / PIXEL as int) * PIXEL + PIXEL,
{
    vstd::arithmetic::div_mod::lemma_fundamental_div_mod(s, PIXEL as int);
}

/// A canvas in the scene: the quad that shows an offscreen target.
#[derive(Clone, Copy, Debug, PartialEq, Eq, Structural)]
pub struct PixelCanvasEntity {
    pub canvas: PixelCanvas,
    /// Index of the shown target in the scene's images.
    pub target: usize,
    pub render_layer: u32,
    /// Displayed size.
    pub custom_size: Option<WorldSize>,
    /// The part of the target that is shown.
    pub rect: Option<PixelRect>,
    /// The parent's translation, where the canvas has a parent.
    pub parent_translation: Option<WorldVec2>,
    pub smoothing: Option<PixelCanvasSmoothing>,
}

impl PixelCanvasEntity {
    pub open spec fn wf(self) -> bool {
        self.canvas.wf()
    }
}

/// The unshifted crop rectangle of a canvas.
pub open spec fn unshifted_rect(c: PixelCanvas) -> PixelRect {
    canvas_rect(c.pixels_per_unit, c.unit_width, c.unit_height, 0, 0)
}

/// The target extent that a canvas calls for.
pub open spec fn canvas_extent(c: PixelCanvas) -> TargetExtent {
    TargetExtent {
        width: target_len(c.pixels_per_unit as int, c.unit_width as int) as u32,
        height: target_len(c.pixels_per_unit as int, c.unit_height as int) as u32,
    }
}

/// A new canvas as `create_pixel_canvas` adds it.
pub open spec fn new_pixel_canvas(
    config: PixelCanvasConfig,
    image: usize,
    camera: usize,
    render_layer: u32,
) -> PixelCanvasEntity {
    let canvas = PixelCanvas {
        pixels_per_unit: config.pixels_per_unit,
        unit_width: config.unit_width,
        unit_height: config.unit_height,
        camera_id: camera,
        update_image: true,
    };
    PixelCanvasEntity {
        canvas,
        target: image,
        render_layer,
        custom_size: Some(WorldSize { width: config.unit_width, height: config.unit_height }),
        rect: Some(unshifted_rect(canvas)),
        parent_translation: None,
        smoothing: None,
    }
}

/// A canvas after the sprite-size pass.
pub open spec fn sprite_synced(c: PixelCanvasEntity) -> PixelCanvasEntity {
    PixelCanvasEntity { custom_size: Some(WorldSize { width: c.canvas.unit_width, height: c.canvas.unit_height }), ..c }
}

/// A canvas after the resize pass: its target no longer needs resizing,
/// unless that target is missing, which leaves the canvas as it is.
pub open spec fn resized(c: PixelCanvasEntity, n_images: nat) -> PixelCanvasEntity {
    if c.canvas.update_image && c.target < n_images {
        PixelCanvasEntity { canvas: PixelCanvas { update_image: false, ..c.canvas }, ..c }
    } else {
        c
    }
}

/// The targets after one canvas's turn in the resize pass; a canvas whose
/// target is missing changes none.
pub open spec fn resize_target(images: Seq<TargetExtent>, c: PixelCanvasEntity) -> Seq<TargetExtent> {
    if c.canvas.update_image && c.target < images.len() {
        images.update(c.target as int, canvas_extent(c.canvas))
    } else {
        images
    }
}

/// The targets after the resize pass has taken each canvas in turn.
pub open spec fn resized_targets(images: Seq<TargetExtent>, canvases: Seq<PixelCanvasEntity>) -> Seq<TargetExtent>
    decreases canvases.len(),
{
    if canvases.len() == 0 {
        images
    } else {
        resize_target(resized_targets(images, canvases.drop_last()), canvases.last())
    }
}

/// The cameras after one canvas's turn in the projection pass: its camera,
/// where it exists and has a projection, gets the canvas's pixels per unit.
pub open spec fn project_camera(cameras: Seq<PixelCamera>, c: PixelCanvasEntity) -> Seq<PixelCamera> {
    let id = c.canvas.camera_id as int;
    if id < cameras.len() && cameras[id].projection is Some {
        cameras.update(id, PixelCamera { projection: Some(c.canvas.pixels_per_unit), ..cameras[id] })
    } else {
        cameras
    }
}

/// The cameras after the projection pass has taken each canvas in turn.
pub open spec fn projected_cameras(cameras: Seq<PixelCamera>, canvases: Seq<PixelCanvasEntity>) -> Seq<PixelCamera>
    decreases canvases.len(),
{
    if canvases.len() == 0 {
        cameras
    } else {
        project_camera(projected_cameras(cameras, canvases.drop_last()), canvases.last())
    }
}

/// A canvas after the crop-rect reset: unshifted unless it is smoothed.
pub open spec fn rect_reset(c: PixelCanvasEntity) -> PixelCanvasEntity {
    if c.smoothing is None {
        PixelCanvasEntity { rect: Some(unshifted_rect(c.canvas)), ..c }
    } else {
        c
    }
}

/// Adds a canvas that shows `image`, as rendered by `camera`, and returns
/// its index. The target is resized on the next frame; passes skip a canvas
/// whose target or camera is missing.
pub fn create_pixel_canvas(
    config: &PixelCanvasConfig,
    scene: &mut PixelScene,
    image: usize,
    camera: usize,
    render_layer: u32,
) -> (r: usize)
    requires
        config.wf(),
        old(scene).wf(),
    ensures
        final(scene).wf(),
        r == old(scene).canvases@.len(),
        final(scene).canvases@ == old(scene).canvases@.push(
            new_pixel_canvas(*config, image, camera, render_layer),
        ),
        final(scene).images@ == old(scene).images@,
        final(scene).cameras@ == old(scene).cameras@,
{
    let rect = generate_pixel_canvas_rect(config.pixels_per_unit, config.unit_width, config.unit_height, 0, 0);
    let id = scene.canvases.len();
    scene.canvases.push(
        PixelCanvasEntity {
            canvas: PixelCanvas {
                pixels_per_unit: config.pixels_per_unit,
                unit_width: config.unit_width,
                unit_height: config.unit_height,
                camera_id: camera,
                update_image: true,
            },
            target: image,
            render_layer,
            custom_size: Some(WorldSize { width: config.unit_width, height: config.unit_height }),
            rect: Some(rect),
            parent_translation: None,
            smoothing: None,
        },
    );
    proof {
        assert forall|i: int| 0 <= i < scene.canvases@.len() implies #[trigger] scene.canvases@[i].wf() by {
            if i < old(scene).canvases@.len() {
                assert(scene.canvases@[i] == old(scene).canvases@[i]);
            }
        }
    }
    id
}

/// Sets each canvas's displayed size to its configured size.
pub fn update_pixel_canvas_sprite(scene: &mut PixelScene)
    requires
        old(scene).wf(),
    ensures
        final(scene).wf(),
        final(scene).canvases@ == old(scene).canvases@.map_values(|c| sprite_synced(c)),
        final(scene).images@ == old(scene).images@,
        final(scene).cameras@ == old(scene).cameras@,
{
    let n = scene.canvases.len();
    let mut i: usize = 0;
    while i < n
        invariant
            0 <= i <= n,
            n == scene.canvases@.len(),
            n == old(scene).canvases@.len(),
            scene.wf(),
            scene.images@ == old(scene).images@,
            scene.cameras@ == old(scene).cameras@,
            forall|j: int| 0 <= j < i ==> scene.canvases@[j] == sprite_synced(old(scene).canvases@[j]),
            forall|j: int| i <= j < n ==> scene.canvases@[j] == old(scene).canvases@[j],
        decreases n - i,
    {
        let c = scene.canvases[i];
        let ghost prev = scene.canvases@;
        scene.canvases.set(
            i,
            PixelCanvasEntity { custom_size: Some(WorldSize { width: c.canvas.unit_width, height: c.canvas.unit_height }), ..c },
        );
        proof {
            assert forall|j: int| 0 <= j < n implies #[trigger] scene.canvases@[j].wf() by {
                assert(prev[j].wf());
            }
        }
        i += 1;
    }
    assert(scene.canvases@ =~= old(scene).canvases@.map_values(|c| sprite_synced(c)));
}

/// Resizes the target of each canvas that still needs it and clears the
/// canvas's flag; a canvas whose target is missing is skipped, and other
/// canvases and targets are left as they are.
pub fn update_pixel_canvas(scene: &mut PixelScene)
    requires
        old(scene).wf(),
    ensures
        final(scene).wf(),
        final(scene).canvases@ == old(scene).canvases@.map_values(|c| resized(c, old(scene).images@.len())),
        final(scene).images@ == resized_targets(old(scene).images@, old(scene).canvases@),
        final(scene).cameras@ == old(scene).cameras@,
{
    let n = scene.canvases.len();
    let mut i: usize = 0;
    while i < n
        invariant
            0 <= i <= n,
            n == scene.canvases@.len(),
            n == old(scene).canvases@.len(),
            scene.wf(),
            scene.images@.len() == old(scene).images@.len(),
            scene.images@ == resized_targets(old(scene).images@, old(scene).canvases@.subrange(0, i as int)),
            scene.cameras@ == old(scene).cameras@,
            forall|j: int| 0 <= j < i ==> scene.canvases@[j] == resized(old(scene).canvases@[j], old(scene).images@.len()),
            forall|j: int| i <= j < n ==> scene.canvases@[j] == old(scene).canvases@[j],
        decreases n - i,
    {
        let c = scene.canvases[i];
        let ghost prev = scene.canvases@;
        let ghost before = scene.images@;
        proof {
            assert(old(scene).canvases@.subrange(0, i + 1).drop_last() =~= old(scene).canvases@.subrange(0, i as int));
            assert(scene.canvases@[i as int].wf());
        }
        if c.canvas.update_image && c.target < scene.images.len() {
            let extent = generate_pixel_camera_target_extent(
                c.canvas.pixels_per_unit,
                c.canvas.unit_width,
                c.canvas.unit_height,
            );
            assert(extent == canvas_extent(c.canvas));
            scene.images.set(c.target, extent);
            scene.canvases.set(i, PixelCanvasEntity { canvas: PixelCanvas { update_image: false, ..c.canvas }, ..c });
        }
        proof {
            assert(scene.images@ =~= resize_target(before, c));
            assert forall|j: int| 0 <= j < n implies #[trigger] scene.canvases@[j].wf() by {
                assert(prev[j].wf());
            }
        }
        i += 1;
    }
    assert(old(scene).canvases@.subrange(0, n as int) =~= old(scene).canvases@);
    assert(scene.canvases@ =~= old(scene).canvases@.map_values(|c| resized(c, old(scene).images@.len())));
}

/// Gives the camera of each canvas, where it exists and has an orthographic
/// projection, a window-size scaling of the canvas's pixels per unit.
pub fn update_pixel_camera(scene: &mut PixelScene)
    requires
        old(scene).wf(),
    ensures
        final(scene).wf(),
        final(scene).cameras@ == projected_cameras(old(scene).cameras@, old(scene).canvases@),
        final(scene).images@ == old(scene).images@,
        final(scene).canvases@ == old(scene).canvases@,
{
    let n = scene.canvases.len();
    let mut i: usize = 0;
    while i < n
        invariant
            0 <= i <= n,
            n == scene.canvases@.len(),
            scene.wf(),
            scene.images@ == old(scene).images@,
            scene.canvases@ == old(scene).canvases@,
            scene.cameras@.len() == old(scene).cameras@.len(),
            scene.cameras@ == projected_cameras(old(scene).cameras@, old(scene).canvases@.subrange(0, i as int)),
        decreases n - i,
    {
        let c = scene.canvases[i];
        let ghost before = scene.cameras@;
        proof {
            assert(old(scene).canvases@.subrange(0, i + 1).drop_last() =~= old(scene).canvases@.subrange(0, i as int));
        }
        let id = c.canvas.camera_id;
        if id < scene.cameras.len() {
            let cam = scene.cameras[id];
            if cam.projection.is_some() {
                scene.cameras.set(id, PixelCamera { projection: Some(c.canvas.pixels_per_unit), ..cam });
            }
        }
        proof {
            assert(scene.cameras@ =~= project_camera(before, c));
        }
        i += 1;
    }
    assert(old(scene).canvases@.subrange(0, n as int) =~= old(scene).canvases@);
}

/// Sets the crop rectangle of each canvas without smoothing to the unshifted
/// rectangle.
pub fn update_pixel_canvas_rect(scene: &mut PixelScene)
    requires
        old(scene).wf(),
    ensures
        final(scene).wf(),
        final(scene).canvases@ == old(scene).canvases@.map_values(|c| rect_reset(c)),
        final(scene).images@ == old(scene).images@,
        final(scene).cameras@ == old(scene).cameras@,
{
    let n = scene.canvases.len();
    let mut i: usize = 0;
    while i < n
        invariant
            0 <= i <= n,
            n == scene.canvases@.len(),
            n == old(scene).canvases@.len(),
            scene.wf(),
            scene.images@ == old(scene).images@,
            scene.cameras@ == old(scene).cameras@,
            forall|j: int| 0 <= j < i ==> scene.canvases@[j] == rect_reset(old(scene).canvases@[j]),
            forall|j: int| i <= j < n ==> scene.canvases@[j] == old(scene).canvases@[j],
        decreases n - i,
    {
        let c = scene.canvases[i];
        let ghost prev = scene.canvases@;
        proof {
            assert(scene.canvases@[i as int].wf());
        }
        if c.smoothing.is_none() {
            let rect = generate_pixel_canvas_rect(
                c.canvas.pixels_per_unit,
                c.canvas.unit_width,
                c.canvas.unit_height,
                0,
                0,
            );
            scene.canvases.set(i, PixelCanvasEntity { rect: Some(rect), ..c });
        }
        proof {
            assert forall|j: int| 0 <= j < n implies #[trigger] scene.canvases@[j].wf() by {
                assert(prev[j].wf());
            }
        }
        i += 1;
    }
    assert(scene.canvases@ =~= old(scene).canvases@.map_values(|c| rect_reset(c)));
}

/// Resetting the crop rectangles a second time, with the configuration
/// unchanged, gives the rectangles of the first time.
pub proof fn lemma_rect_reset_idempotent(canvases: Seq<PixelCanvasEntity>)
    ensures
        canvases.map_values(|c| rect_reset(c)).map_values(|c| rect_reset(c)) == canvases.map_values(
            |c| rect_reset(c),
        ),
        forall|i: int|
            0 <= i < canvases.len() ==> (#[trigger] rect_reset(canvases[i])).rect == if canvases[i].smoothing is None {
                Some(unshifted_rect(canvases[i].canvas))
            } else {
                canvases[i].rect
            },
{
    assert(canvases.map_values(|c| rect_reset(c)).map_values(|c| rect_reset(c)) =~= canvases.map_values(
        |c| rect_reset(c),
    ));
}

/// The resize pass clears the flag of every canvas whose target exists, and a
/// second pass right after it resizes nothing: the flag goes from set to
/// clear in exactly one pass, and no pass sets it again.
pub proof fn lemma_resize_once(images: Seq<TargetExtent>, canvases: Seq<PixelCanvasEntity>)
    ensures
        forall|i: int|
            0 <= i < canvases.len() && canvases[i].target < images.len() ==> !(#[trigger] resized(
                canvases[i],
                images.len(),
            )).canvas.update_image,
        resized_targets(images, canvases).len() == images.len(),
        resized_targets(
            resized_targets(images, canvases),
            canvases.map_values(|c| resized(c, images.len())),
        ) == resized_targets(images, canvases),
{
    lemma_resized_targets_len(images, canvases);
    lemma_resize_nothing(resized_targets(images, canvases), canvases.map_values(|c| resized(c, images.len())));
}

proof fn lemma_resized_targets_len(images: Seq<TargetExtent>, canvases: Seq<PixelCanvasEntity>)
    ensures
        resized_targets(images, canvases).len() == images.len(),
    decreases canvases.len(),
{
    if canvases.len() > 0 {
        lemma_resized_targets_len(images, canvases.drop_last());
    }
}

proof fn lemma_resize_nothing(images: Seq<TargetExtent>, canvases: Seq<PixelCanvasEntity>)
    requires
        forall|i: int|
            0 <= i < canvases.len() ==> !((#[trigger] canvases[i]).canvas.update_image && canvases[i].target
                < images.len()),
    ensures
        resized_targets(images, canvases) == images,
    decreases canvases.len(),
{
    if canvases.len() > 0 {
        lemma_resize_nothing(images, canvases.drop_last());
    }
}

/// A canvas that still needs its target resized, and is the only such canvas
/// showing that target, finds the target sized to its configuration after
/// the resize pass.
pub proof fn lemma_resize_sets_extent(images: Seq<TargetExtent>, canvases: Seq<PixelCanvasEntity>, i: int)
    requires
        0 <= i < canvases.len(),
        canvases[i].canvas.update_image,
        canvases[i].target < images.len(),
        forall|j: int|
            0 <= j < canvases.len() && j != i && (#[trigger] canvases[j]).target == canvases[i].target
                ==> !canvases[j].canvas.update_image,
    ensures
        resized_targets(images, canvases)[canvases[i].target as int] == canvas_extent(canvases[i].canvas),
    decreases canvases.len(),
{
    let t = canvases[i].target as int;
    let rest = canvases.drop_last();
    lemma_resized_targets_len(images, rest);
    if i == canvases.len() - 1 {
    } else {
        assert forall|j: int|
            0 <= j < rest.len() && j != i && (#[trigger] rest[j]).target == rest[i].target
                implies !rest[j].canvas.update_image by {
            assert(rest[j] == canvases[j]);
        }
        lemma_resize_sets_extent(images, rest, i);
        assert(canvases.last() == canvases[canvases.len() - 1]);
    }
}

} // verus!
