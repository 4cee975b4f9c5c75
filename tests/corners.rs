use photo_frame::corners::{apply_inverse_corner_mask, apply_rounded_corners, corner_coverage, isqrt, Rect};
use photo_frame::pixel::{PixelBuffer, Rgba8};

#[test]
fn integer_square_root_rounds_down() {
    assert_eq!(isqrt(0), 0);
    assert_eq!(isqrt(1), 1);
    assert_eq!(isqrt(15), 3);
    assert_eq!(isqrt(16), 4);
    assert_eq!(isqrt(130050), 360);
    assert_eq!(isqrt(u128::MAX), u64::MAX as u128);
}

#[test]
fn coverage_in_band_and_outside() {
    assert_eq!(corner_coverage(1, 0, 0, true, true), 75);
    assert_eq!(corner_coverage(3, 0, 0, true, true), 0);
    assert_eq!(corner_coverage(3, 1, 0, true, true), 22);
    assert_eq!(corner_coverage(3, 2, 2, true, true), 255);
    assert_eq!(corner_coverage(3, 0, 0, false, false), 255);
    assert_eq!(corner_coverage(3, 2, 2, false, false), 0);
}

#[test]
fn rounded_corners_leave_the_cross_untouched() {
    let mut b = PixelBuffer::filled(10, 10, Rgba8::new(200, 100, 50, 255)).unwrap();
    let before = b.clone();
    apply_rounded_corners(&mut b, Rect { x: 0, y: 0, width: 10, height: 10 }, 3);
    for y in 0..10u32 {
        for x in 0..10u32 {
            let in_corner = (x < 3 || x >= 7) && (y < 3 || y >= 7);
            if !in_corner {
                assert_eq!(b.get_pixel(x, y), before.get_pixel(x, y));
            }
        }
    }
    assert_eq!(b.get_pixel(0, 0), Rgba8::new(200, 100, 50, 0));
    assert_eq!(b.get_pixel(1, 0), Rgba8::new(200, 100, 50, 22));
    assert_eq!(b.get_pixel(2, 2), Rgba8::new(200, 100, 50, 255));
    assert_eq!(b.get_pixel(9, 9), Rgba8::new(200, 100, 50, 0));
    assert_eq!(b.get_pixel(9, 0), Rgba8::new(200, 100, 50, 0));
    assert_eq!(b.get_pixel(0, 9), Rgba8::new(200, 100, 50, 0));
}

#[test]
fn radius_is_clamped_to_half_the_short_side() {
    let mut b = PixelBuffer::filled(4, 8, Rgba8::new(0, 0, 0, 255)).unwrap();
    apply_rounded_corners(&mut b, Rect { x: 0, y: 0, width: 4, height: 8 }, 100);
    // radius 2: the middle rows are outside every corner square
    for y in 2..6u32 {
        for x in 0..4u32 {
            assert_eq!(b.get_pixel(x, y).a, 255);
        }
    }
    assert_eq!(b.get_pixel(0, 0).a, 0);
}

#[test]
fn zero_radius_changes_nothing() {
    let mut b = PixelBuffer::filled(5, 5, Rgba8::new(1, 2, 3, 4)).unwrap();
    let before = b.clone();
    apply_rounded_corners(&mut b, Rect { x: 0, y: 0, width: 5, height: 5 }, 0);
    assert_eq!(b.data, before.data);
}

#[test]
fn inverse_mask_paints_background_in_corners_only() {
    let mut canvas = PixelBuffer::filled(12, 12, Rgba8::new(10, 20, 30, 255)).unwrap();
    let bg = Rgba8::new(255, 255, 255, 255);
    apply_inverse_corner_mask(&mut canvas, 1, 1, 10, 10, 3, bg);
    assert_eq!(canvas.get_pixel(1, 1), bg);
    assert_eq!(canvas.get_pixel(10, 10), bg);
    assert_eq!(canvas.get_pixel(3, 3), Rgba8::new(10, 20, 30, 255));
    assert_eq!(canvas.get_pixel(6, 1), Rgba8::new(10, 20, 30, 255));
    assert_eq!(canvas.get_pixel(0, 0), Rgba8::new(10, 20, 30, 255));
    // band pixel: coverage 22 of the photo, the rest background
    let p = canvas.get_pixel(2, 1);
    assert_eq!(p.r, ((255 * (255 - 22) + 10 * 22 + 127) / 255) as u8);
}

#[test]
fn mask_is_clipped_to_the_canvas() {
    let mut canvas = PixelBuffer::filled(4, 4, Rgba8::new(0, 0, 0, 255)).unwrap();
    apply_inverse_corner_mask(&mut canvas, 2, 2, 10, 10, 3, Rgba8::new(255, 0, 0, 255));
    assert_eq!(canvas.get_pixel(2, 2), Rgba8::new(255, 0, 0, 255));
    assert_eq!(canvas.get_pixel(0, 0), Rgba8::new(0, 0, 0, 255));
}
