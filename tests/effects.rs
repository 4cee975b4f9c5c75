use photo_frame::backdrop::{brighten, crop, finish_backdrop, prepare_backdrop};
use photo_frame::blur::{blur_at_scale, scale_divisor, scale_divisor_for};
use photo_frame::effects::{apply_rounded_glass_effect, make_image_white, rounded_plate};
use photo_frame::imaging::paste_layer;
use photo_frame::pixel::{EngineError, PixelBuffer, Rgba8};
use photo_frame::shadow::{plan_shadow, ShadowProfile};

fn gradient(w: u32, h: u32) -> PixelBuffer {
    let mut data = Vec::new();
    for y in 0..h {
        for x in 0..w {
            data.extend_from_slice(&[(x % 256) as u8, (y % 256) as u8, ((x + y) % 256) as u8, 255]);
        }
    }
    PixelBuffer::from_raw(w, h, data).unwrap()
}

#[test]
fn scale_divisor_steps_down_with_radius() {
    assert_eq!(scale_divisor(0), 1);
    assert_eq!(scale_divisor(1), 1);
    assert_eq!(scale_divisor(2), 2);
    assert_eq!(scale_divisor(9), 2);
    assert_eq!(scale_divisor(10), 4);
    assert_eq!(scale_divisor(29), 4);
    assert_eq!(scale_divisor(30), 8);
    assert_eq!(scale_divisor(1000), 8);
    assert_eq!(scale_divisor_for(1000, 1200), 8);
    assert_eq!(scale_divisor_for(1000, 1199), 4);
    assert_eq!(scale_divisor_for(1000, 299), 1);
}

#[test]
fn backdrop_and_glass_sizes() {
    let src = PixelBuffer::filled(4000, 3000, Rgba8::new(1, 2, 3, 255)).unwrap();
    let work = prepare_backdrop(&src, 4240, 4410, 150).unwrap();
    let out = finish_backdrop(&work.image, 4240, 4410, 0).unwrap();
    assert_eq!((out.width, out.height), (4240, 4410));
    let g = apply_rounded_glass_effect(&PixelBuffer::filled(1000, 800, Rgba8::new(0, 0, 0, 255)).unwrap()).unwrap();
    assert_eq!((g.width, g.height), (1006, 806));
    let g = apply_rounded_glass_effect(&PixelBuffer::filled(6000, 4000, Rgba8::new(0, 0, 0, 255)).unwrap()).unwrap();
    assert_eq!((g.width, g.height), (6016, 4016));
}

#[test]
fn blend_follows_source_over() {
    let mut canvas = PixelBuffer::filled(1, 1, Rgba8::new(200, 100, 0, 255)).unwrap();
    let layer = PixelBuffer::filled(1, 1, Rgba8::new(0, 0, 255, 51)).unwrap();
    paste_layer(&mut canvas, &layer, 0, 0).unwrap();
    // colour: fg * 51/255 + bg * 204/255, rounded; alpha stays opaque
    assert_eq!(canvas.get_pixel(0, 0), Rgba8::new(160, 80, 51, 255));
}

#[test]
fn blur_at_scale_reduces_the_copy() {
    let img = gradient(700, 641);
    let s = blur_at_scale(&img, 12).unwrap();
    assert_eq!(s.divisor, 4);
    assert_eq!((s.image.width, s.image.height), (175, 161));
    assert_eq!(s.image.data.len(), 175 * 161 * 4);
    // the floor: a short side of 300 allows at most a halving
    let s = blur_at_scale(&gradient(400, 300), 40).unwrap();
    assert_eq!(s.divisor, 2);
    assert_eq!((s.image.width, s.image.height), (200, 150));
    // too small to reduce at all
    let s = blur_at_scale(&gradient(17, 9), 12).unwrap();
    assert_eq!((s.divisor, s.image.width, s.image.height), (1, 17, 9));
    let bad = PixelBuffer { width: 2, height: 2, data: vec![0; 3] };
    assert_eq!(blur_at_scale(&bad, 12).unwrap_err(), EngineError::BufferMismatch);
}

#[test]
fn presets_are_fixed_values() {
    let s = ShadowProfile::preset_standard();
    assert_eq!((s.sigma, s.offset_x, s.offset_y, s.spread, s.color), (15, 0, 15, -5, Rgba8::new(0, 0, 0, 190)));
    let s = ShadowProfile::preset_subtle();
    assert_eq!((s.sigma, s.offset_y, s.spread, s.color.a), (10, 10, -2, 160));
    let s = ShadowProfile::preset_floating();
    assert_eq!((s.sigma, s.offset_y, s.spread, s.color.a), (25, 30, -8, 210));
}

#[test]
fn builders_return_new_profiles() {
    let base = ShadowProfile::preset_standard();
    let p = base.with_offset(3, -4).with_sigma(40).with_color(Rgba8::new(1, 2, 3, 4));
    assert_eq!((p.offset_x, p.offset_y, p.sigma, p.spread), (3, -4, 40, -5));
    assert_eq!(p.color, Rgba8::new(1, 2, 3, 4));
    assert_eq!(base, ShadowProfile::preset_standard());
    let q = ShadowProfile::new(7, (1, 2), -3, Rgba8::new(0, 0, 0, 9));
    assert_eq!((q.sigma, q.offset_x, q.offset_y, q.spread), (7, 1, 2, -3));
}

#[test]
fn scaling_is_proportional_to_the_longer_side() {
    let p = ShadowProfile::preset_standard();
    let a = p.scaled(1000, 750);
    let b = p.scaled(2000, 1500);
    assert_eq!((a.sigma, a.offset_y, a.spread), (15, 15, -5));
    assert_eq!((b.sigma, b.offset_y, b.spread), (30, 30, -10));
    // relative offset is the same on both canvases
    assert_eq!(a.offset_y * 2000, b.offset_y * 1000);
    let c = p.scaled(4200, 3200);
    assert_eq!((c.sigma, c.offset_y, c.spread), (63, 63, -21));
    let d = p.scaled(300, 600);
    assert_eq!((d.sigma, d.offset_y, d.spread), (9, 9, -3));
}

#[test]
fn shadow_plan_geometry() {
    let p = ShadowProfile::preset_standard();
    let plan = plan_shadow(&p, 4200, 3200, 4000, 3000, 2100, 1600).unwrap();
    assert_eq!(plan.divisor, 8);
    assert_eq!(plan.sigma, 63);
    assert_eq!((plan.shadow_w, plan.shadow_h, plan.padding), (495, 370, 24));
    assert_eq!((plan.left, plan.top), (-72, -9));
    let s = plan.silhouette().unwrap();
    assert_eq!((s.width, s.height), (543, 418));
    assert_eq!(s.get_pixel(0, 0), Rgba8::new(0, 0, 0, 0));
    assert_eq!(s.get_pixel(24, 24), Rgba8::new(0, 0, 0, 190));
    assert_eq!(s.get_pixel(24 + 494, 24 + 369), Rgba8::new(0, 0, 0, 190));
    assert_eq!(s.get_pixel(24 + 495, 24), Rgba8::new(0, 0, 0, 0));
}

#[test]
fn negative_spread_never_empties_the_silhouette() {
    let p = ShadowProfile::new(0, (0, 0), -500, Rgba8::new(0, 0, 0, 255));
    let plan = plan_shadow(&p, 100, 100, 10, 10, 50, 50).unwrap();
    assert_eq!((plan.shadow_w, plan.shadow_h), (1, 1));
    assert_eq!(plan.divisor, 1);
}

#[test]
fn composite_rejects_a_blur_of_the_wrong_size() {
    let p = ShadowProfile::preset_subtle();
    let plan = plan_shadow(&p, 200, 100, 100, 50, 100, 50).unwrap();
    let mut canvas = PixelBuffer::filled(200, 100, Rgba8::new(255, 255, 255, 255)).unwrap();
    let before = canvas.clone();
    let wrong = PixelBuffer::filled(3, 3, Rgba8::new(0, 0, 0, 0)).unwrap();
    assert_eq!(plan.composite(&wrong, &mut canvas).unwrap_err(), EngineError::BufferMismatch);
    assert_eq!(canvas.data, before.data);
}

#[test]
fn composite_darkens_under_the_shadow_only() {
    let p = ShadowProfile::preset_standard();
    let plan = plan_shadow(&p, 400, 300, 200, 150, 200, 150).unwrap();
    let sil = plan.silhouette().unwrap();
    let mut canvas = PixelBuffer::filled(400, 300, Rgba8::new(255, 255, 255, 255)).unwrap();
    plan.composite(&sil, &mut canvas).unwrap();
    let centre = canvas.get_pixel(200, 150);
    assert!(centre.r < 255);
    assert_eq!(centre.a, 255);
    assert_eq!(canvas.get_pixel(0, 0), Rgba8::new(255, 255, 255, 255));
    assert_eq!(canvas.get_pixel(399, 0), Rgba8::new(255, 255, 255, 255));
}

#[test]
fn backdrop_crop_matches_target_aspect() {
    let src = gradient(100, 50);
    let work = prepare_backdrop(&src, 30, 30, 150).unwrap();
    assert_eq!((work.image.width, work.image.height), (10, 10));
    assert_eq!((work.radius_num, work.radius_den), (150, 5));
    let wide = prepare_backdrop(&src, 300, 60, 150).unwrap();
    assert_eq!((wide.image.width, wide.image.height), (20, 4));
}

#[test]
fn backdrop_of_a_large_photo_keeps_300_pixels() {
    let src = gradient(4000, 3000);
    let work = prepare_backdrop(&src, 4200, 3200, 150).unwrap();
    assert_eq!((work.image.width, work.image.height), (393, 300));
    assert_eq!((work.radius_num, work.radius_den), (150 * 300, 3000));
}

#[test]
fn backdrop_output_has_the_exact_target_size() {
    let blurred = gradient(10, 10);
    let out = finish_backdrop(&blurred, 37, 23, -150).unwrap();
    assert_eq!((out.width, out.height), (37, 23));
    assert_eq!(out.data.len(), 37 * 23 * 4);
    let same = finish_backdrop(&blurred, 10, 10, 0).unwrap();
    assert_eq!(same.data, blurred.data);
    let empty = finish_backdrop(&blurred, 0, 5, 0).unwrap();
    assert_eq!((empty.width, empty.height), (0, 5));
}

#[test]
fn brighten_clamps_colour_and_keeps_alpha() {
    let img = PixelBuffer::from_raw(2, 1, vec![10, 100, 250, 7, 0, 5, 200, 255]).unwrap();
    let up = brighten(&img, 20);
    assert_eq!(up.data, vec![30, 120, 255, 7, 20, 25, 220, 255]);
    let down = brighten(&img, -150);
    assert_eq!(down.data, vec![0, 0, 100, 7, 0, 0, 50, 255]);
}

#[test]
fn crop_copies_the_block() {
    let img = gradient(6, 5);
    let c = crop(&img, 2, 1, 3, 2);
    assert_eq!((c.width, c.height), (3, 2));
    assert_eq!(c.get_pixel(0, 0), img.get_pixel(2, 1));
    assert_eq!(c.get_pixel(2, 1), img.get_pixel(4, 2));
}

#[test]
fn glass_panel_adds_a_rim() {
    let img = PixelBuffer::filled(100, 50, Rgba8::new(10, 10, 10, 255)).unwrap();
    let out = apply_rounded_glass_effect(&img).unwrap();
    assert_eq!((out.width, out.height), (106, 56));
    assert_eq!(out.get_pixel(50, 1), Rgba8::new(255, 255, 255, 130));
    assert_eq!(out.get_pixel(50, 25), Rgba8::new(10, 10, 10, 255));
    assert_eq!(out.get_pixel(0, 0).a, 0);
}

#[test]
fn rounded_plate_is_solid_inside() {
    let p = rounded_plate(20, 10, 4, Rgba8::new(1, 2, 3, 200)).unwrap();
    assert_eq!(p.get_pixel(10, 5), Rgba8::new(1, 2, 3, 200));
    assert_eq!(p.get_pixel(0, 0).a, 0);
}

#[test]
fn white_out_keeps_alpha() {
    let img = PixelBuffer::from_raw(2, 1, vec![10, 20, 30, 0, 10, 20, 30, 40]).unwrap();
    let w = make_image_white(&img);
    assert_eq!(w.data, vec![10, 20, 30, 0, 255, 255, 255, 40]);
}

#[test]
fn paste_copies_opaque_layers() {
    let mut canvas = PixelBuffer::filled(5, 5, Rgba8::new(0, 0, 0, 255)).unwrap();
    let layer = PixelBuffer::filled(2, 2, Rgba8::new(9, 8, 7, 255)).unwrap();
    paste_layer(&mut canvas, &layer, 4, -1).unwrap();
    assert_eq!(canvas.get_pixel(4, 0), Rgba8::new(9, 8, 7, 255));
    assert_eq!(canvas.get_pixel(3, 0), Rgba8::new(0, 0, 0, 255));
    assert_eq!(canvas.get_pixel(4, 1), Rgba8::new(0, 0, 0, 255));
}
