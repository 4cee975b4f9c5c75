use photo_frame::compositor::CompositingFrame;
use photo_frame::imaging::paste_layer;
use photo_frame::pixel::{PixelBuffer, Rgba8};
use photo_frame::shadow::{plan_shadow, ShadowProfile};

/// The silhouette blurred by the `image` crate, with the radius reduced as
/// the plan says.
fn blur(img: &PixelBuffer, sigma: i64, divisor: u32) -> PixelBuffer {
    let buf = image::RgbaImage::from_raw(img.width, img.height, img.data.clone()).unwrap();
    let out = image::imageops::blur(&buf, sigma as f32 / divisor as f32);
    PixelBuffer::from_raw(img.width, img.height, out.into_raw()).unwrap()
}

#[test]
fn framed_photo_with_standard_shadow() {
    let mut data = Vec::with_capacity(4000 * 3000 * 4);
    for y in 0..3000u32 {
        for x in 0..4000u32 {
            data.extend_from_slice(&[(x % 251) as u8, (y % 241) as u8, ((x ^ y) % 256) as u8, 255]);
        }
    }
    let photo = PixelBuffer::from_raw(4000, 3000, data).unwrap();
    let white = Rgba8::new(255, 255, 255, 255);
    let mut frame = CompositingFrame::compose(&photo, 100, 100, 100, 100, white).unwrap();
    assert_eq!((frame.canvas.width, frame.canvas.height), (4200, 3200));

    let (cx, cy) = frame.content_center();
    let profile = ShadowProfile::preset_standard();
    let plan = plan_shadow(&profile, 4200, 3200, frame.content_w, frame.content_h, cx, cy).unwrap();
    let sil = plan.silhouette().unwrap();
    let blurred = blur(&sil, plan.sigma, plan.divisor);
    plan.composite(&blurred, &mut frame.canvas).unwrap();
    paste_layer(&mut frame.canvas, &photo, frame.content_left as i64, frame.content_top as i64).unwrap();

    let c = &frame.canvas;
    assert_eq!((c.width, c.height), (4200, 3200));
    assert!(c.data.chunks(4).all(|p| p[3] == 255));
    let stride = 4200 * 4;
    for y in 0..3000usize {
        let row = &c.data[(y + 100) * stride + 400..(y + 100) * stride + 400 + 16000];
        assert_eq!(row, &photo.data[y * 16000..(y + 1) * 16000]);
    }
    // the band under the photo's lower edge, shifted down by the offset, is darker than paper
    assert!(c.get_pixel(2100, 3100 + 20).r < 255);
    // far corners stay paper white
    assert_eq!(c.get_pixel(0, 0), white);
    assert_eq!(c.get_pixel(4199, 0), white);
}
