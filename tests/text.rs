use photo_frame::pixel::{PixelBuffer, Rgba8};
use photo_frame::text::{aligned_x, centered_left, finish_text_layer, plan_text_layer, shear_rows, TextAlign, WeightMode, SKEW_DEN, SKEW_NUM};

#[test]
fn stamp_ring_grows_with_weight() {
    assert_eq!(WeightMode::Normal.stamp_offsets(), vec![(0, 0)]);
    let bold = WeightMode::Bold.stamp_offsets();
    assert_eq!(bold.len(), 9);
    assert_eq!(bold[0], (0, 0));
    assert!(bold.contains(&(2, -2)));
    assert!(bold.contains(&(-2, 0)));
    assert_eq!(WeightMode::ExtraBold.offset_intensity(), 3);
    assert!(!WeightMode::Normal.needs_layer());
    assert!(WeightMode::Medium.needs_layer());
}

#[test]
fn text_layer_geometry() {
    let p = plan_text_layer(100, 40, WeightMode::Bold, 50, 60).unwrap();
    assert_eq!((p.temp_w, p.temp_h), (228, 108));
    assert_eq!((p.final_w, p.final_h), (114, 54));
    assert_eq!((p.paste_x, p.paste_y), (45, 55));
}

#[test]
fn text_layer_is_reduced_and_pasted() {
    let p = plan_text_layer(10, 5, WeightMode::Medium, 20, 20).unwrap();
    let temp = PixelBuffer::filled(p.temp_w, p.temp_h, Rgba8::new(0, 0, 0, 255)).unwrap();
    let mut canvas = PixelBuffer::filled(60, 60, Rgba8::new(255, 255, 255, 255)).unwrap();
    finish_text_layer(&p, &temp, &mut canvas).unwrap();
    let inside = canvas.get_pixel(20, 20);
    assert!(inside.r < 10 && inside.g < 10 && inside.b < 10);
    assert_eq!(canvas.get_pixel(14, 14), Rgba8::new(255, 255, 255, 255));
    assert_eq!(canvas.get_pixel(37, 20), Rgba8::new(255, 255, 255, 255));
}

#[test]
fn shear_moves_top_rows_right() {
    let mut data = Vec::new();
    for y in 0..10u8 {
        data.extend_from_slice(&[y, 0, 0, 255]);
    }
    let img = PixelBuffer::from_raw(1, 10, data).unwrap();
    let out = shear_rows(&img, SKEW_NUM, SKEW_DEN).unwrap();
    assert_eq!((out.width, out.height), (3, 10));
    assert_eq!(out.get_pixel(2, 0), Rgba8::new(0, 0, 0, 255));
    assert_eq!(out.get_pixel(0, 0), Rgba8::new(0, 0, 0, 0));
    assert_eq!(out.get_pixel(1, 5), Rgba8::new(5, 0, 0, 255));
    assert_eq!(out.get_pixel(0, 9), Rgba8::new(9, 0, 0, 255));
}

#[test]
fn centred_text_stays_within_one_pixel() {
    let left = centered_left(100, 31);
    assert_eq!(left, 85);
    let right = left + 31;
    assert!(((right - 100) - (100 - left)).abs() <= 1);
    assert_eq!(aligned_x(100, 31, TextAlign::Right), 69);
    assert_eq!(aligned_x(100, 31, TextAlign::Left), 100);
}

#[test]
fn skew_above_one_is_accepted() {
    let img = PixelBuffer::filled(1, 4, Rgba8::new(1, 1, 1, 255)).unwrap();
    let out = shear_rows(&img, 3, 2).unwrap();
    // top row moves by round(4 * 1.5) = 6
    assert_eq!((out.width, out.height), (7, 4));
    assert_eq!(out.get_pixel(6, 0), Rgba8::new(1, 1, 1, 255));
}
