use basic_bevy_pixel_camera::fixed_point::{
    pixel_fraction_exec, round_div_exec, PixelRect, PixelVec2, TargetExtent, WorldVec2, PIXEL,
};
use basic_bevy_pixel_camera::pixel_camera_snapping::snapped_camera_translation;
use basic_bevy_pixel_camera::pixel_canvas::{
    generate_pixel_camera_target_extent, generate_pixel_canvas_rect, PixelCanvas, PixelCanvasConfig,
};
use basic_bevy_pixel_camera::pixel_canvas_smoothing::smoothed_canvas_rect;

fn px(v: i64) -> i64 {
    v * PIXEL
}

fn canvas(ppu: u32, w: u32, h: u32) -> PixelCanvas {
    PixelCanvas { pixels_per_unit: ppu, unit_width: w, unit_height: h, camera_id: 0, update_image: true }
}

#[test]
fn target_extent_of_eight_by_four_at_eight_ppu() {
    let e = generate_pixel_camera_target_extent(8000, 8000, 4000);
    assert_eq!(e, TargetExtent { width: 66, height: 34 });
}

#[test]
fn unshifted_rect_of_eight_by_four_at_eight_ppu() {
    let r = generate_pixel_canvas_rect(8000, 8000, 4000, 0, 0);
    assert_eq!(
        r,
        PixelRect { min: PixelVec2 { x: px(1), y: px(1) }, max: PixelVec2 { x: px(65), y: px(33) } }
    );
}

#[test]
fn target_extent_rounds_scaled_size_down() {
    // 2.5 pixels per unit over 3.3 by 0.9 units: 8.25 by 2.25 pixels.
    let e = generate_pixel_camera_target_extent(2500, 3300, 900);
    assert_eq!(e, TargetExtent { width: 10, height: 4 });
}

#[test]
fn target_extent_of_whole_pixel_sizes() {
    let e = generate_pixel_camera_target_extent(16000, 1000, 2000);
    assert_eq!(e, TargetExtent { width: 18, height: 34 });
}

#[test]
fn unshifted_rect_spans_scaled_size_inset_by_one_pixel() {
    let r = generate_pixel_canvas_rect(2500, 3300, 900, 0, 0);
    assert_eq!(r.min, PixelVec2 { x: px(1), y: px(1) });
    assert_eq!(r.max.x - r.min.x, 8_250_000);
    assert_eq!(r.max.y - r.min.y, 2_250_000);
    let e = generate_pixel_camera_target_extent(2500, 3300, 900);
    assert!(r.max.x < px(e.width as i64) && r.max.x >= px(e.width as i64 - 1));
    assert!(r.max.y < px(e.height as i64) && r.max.y >= px(e.height as i64 - 1));
}

#[test]
fn shifted_rect_moves_both_corners() {
    let r = generate_pixel_canvas_rect(8000, 8000, 4000, 400_000, -400_000);
    assert_eq!(
        r,
        PixelRect {
            min: PixelVec2 { x: 1_400_000, y: 600_000 },
            max: PixelVec2 { x: 65_400_000, y: 32_600_000 },
        }
    );
}

#[test]
fn rounding_goes_half_away_from_zero() {
    assert_eq!(round_div_exec(1_500_000, PIXEL), 2);
    assert_eq!(round_div_exec(-1_500_000, PIXEL), -2);
    assert_eq!(round_div_exec(1_499_999, PIXEL), 1);
    assert_eq!(round_div_exec(-1_499_999, PIXEL), -1);
    assert_eq!(round_div_exec(2_400_000, PIXEL), 2);
    assert_eq!(round_div_exec(-1_600_000, PIXEL), -2);
    assert_eq!(round_div_exec(0, PIXEL), 0);
}

#[test]
fn parent_offsets_at_eight_ppu() {
    // Parent at (0.3, -0.2): pixel translation (2.4, -1.6), offset (0.4, 0.4).
    assert_eq!(pixel_fraction_exec(300, 8000), 400_000);
    assert_eq!(pixel_fraction_exec(-200, 8000), 400_000);
    let local = snapped_camera_translation(8000, WorldVec2 { x: 300, y: -200 });
    assert_eq!(local, WorldVec2 { x: -50, y: -50 });
    let rect = smoothed_canvas_rect(&canvas(8000, 8000, 4000), WorldVec2 { x: 300, y: -200 });
    assert_eq!(rect.min.x - px(1), 400_000);
    assert_eq!(rect.min.y - px(1), -400_000);
}

#[test]
fn snapped_camera_lands_on_the_parents_pixel() {
    let parent = WorldVec2 { x: 1234, y: -5678 };
    let ppu: u32 = 12_500;
    let local = snapped_camera_translation(ppu, parent);
    let p = ppu as i64;
    for (t, l) in [(parent.x, local.x), (parent.y, local.y)] {
        let t = t as i64;
        let l = l as i64;
        assert_eq!(round_div_exec(t * p + l * p, PIXEL), round_div_exec(t * p, PIXEL));
        // The camera's offset stays within the parent's fraction of a pixel.
        let frac = t * p - round_div_exec(t * p, PIXEL) * PIXEL;
        assert!((l * p).abs() <= frac.abs());
        assert!((l * p).abs() * 2 <= PIXEL);
    }
}

#[test]
fn smoothing_offset_matches_snapping_offset() {
    let parent = WorldVec2 { x: -777, y: 4321 };
    let c = canvas(6000, 10_000, 5000);
    let p = c.pixels_per_unit as i64;
    let local = snapped_camera_translation(c.pixels_per_unit, parent);
    let rect = smoothed_canvas_rect(&c, parent);
    let off_x = rect.min.x - PIXEL;
    let off_y = rect.min.y - PIXEL;
    assert_eq!(off_x, pixel_fraction_exec(parent.x, c.pixels_per_unit));
    assert_eq!(-off_y, pixel_fraction_exec(parent.y, c.pixels_per_unit));
    assert!((off_x + local.x as i64 * p).abs() < p);
    assert!((-off_y + local.y as i64 * p).abs() < p);
}

#[test]
fn config_keeps_its_values() {
    let c = PixelCanvasConfig::new(8000, 8000, 4000);
    assert_eq!(c.pixels_per_unit, 8000);
    assert_eq!(c.unit_width, 8000);
    assert_eq!(c.unit_height, 4000);
}

#[test]
fn config_validity() {
    assert!(PixelCanvasConfig { pixels_per_unit: 8000, unit_width: 8000, unit_height: 4000 }.is_valid());
    assert!(!PixelCanvasConfig { pixels_per_unit: 0, unit_width: 8000, unit_height: 4000 }.is_valid());
    assert!(!PixelCanvasConfig { pixels_per_unit: 8000, unit_width: 0, unit_height: 4000 }.is_valid());
    assert!(!PixelCanvasConfig { pixels_per_unit: 8000, unit_width: 8000, unit_height: 0 }.is_valid());
    assert!(PixelCanvasConfig { pixels_per_unit: 1, unit_width: u32::MAX, unit_height: 1 }.is_valid());
    // 4294967.295 pixels per unit over 4294967.295 units: far too wide a target.
    assert!(!PixelCanvasConfig { pixels_per_unit: u32::MAX, unit_width: u32::MAX, unit_height: 1 }.is_valid());
    // 1000 pixels per unit over 4294967.293 units: the widest target that fits.
    assert!(PixelCanvasConfig { pixels_per_unit: 1_000_000, unit_width: 4_294_967_293, unit_height: 1 }.is_valid());
    assert!(!PixelCanvasConfig { pixels_per_unit: 1_000_000, unit_width: 4_294_967_294, unit_height: 1 }.is_valid());
    let e = generate_pixel_camera_target_extent(1_000_000, 4_294_967_293, 1);
    assert_eq!(e, TargetExtent { width: u32::MAX, height: 3 });
}

#[test]
fn snap_offset_never_exceeds_half_a_pixel() {
    // 3 pixels per unit, parent at 0.5 units: 1.5 pixels, half a pixel off.
    assert_eq!(pixel_fraction_exec(500, 3000), -500_000);
    let local = snapped_camera_translation(3000, WorldVec2 { x: 500, y: 500 });
    assert_eq!(local, WorldVec2 { x: 166, y: 166 });
    assert!((local.x as i64 * 3000).abs() * 2 <= PIXEL);
}

#[test]
fn snap_offset_at_a_pixel_coarser_than_a_thousandth() {
    // 900 pixels per unit, parent at 0.005 units: 4.5 pixels, half a pixel
    // off, less than one thousandth of a unit: the camera stays.
    assert_eq!(pixel_fraction_exec(5, 900_000), -500_000);
    let local = snapped_camera_translation(900_000, WorldVec2 { x: 5, y: -5 });
    assert_eq!(local, WorldVec2 { x: 0, y: 0 });
}
