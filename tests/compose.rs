use photo_frame::compositor::{compose_row, compose_white_canvas, create_expanded_canvas, CompositingFrame};
use photo_frame::pixel::{EngineError, PixelBuffer, Rgba8};

fn px(r: u8, g: u8, b: u8, a: u8) -> Rgba8 {
    Rgba8::new(r, g, b, a)
}

/// A w by h raster whose pixel (x, y) is (x, y, x + y, 255).
fn gradient(w: u32, h: u32) -> PixelBuffer {
    let mut data = Vec::new();
    for y in 0..h {
        for x in 0..w {
            data.extend_from_slice(&[x as u8, y as u8, (x + y) as u8, 255]);
        }
    }
    PixelBuffer::from_raw(w, h, data).unwrap()
}

#[test]
fn expanded_canvas_places_source_inside_margins() {
    let src = gradient(3, 2);
    let bg = px(9, 8, 7, 6);
    let out = create_expanded_canvas(&src, 1, 2, 3, 4, bg).unwrap();
    assert_eq!(out.width(), 10);
    assert_eq!(out.height(), 5);
    assert_eq!(out.data.len(), 10 * 5 * 4);
    for y in 0..5u32 {
        for x in 0..10u32 {
            let p = out.get_pixel(x, y);
            if (1..3).contains(&y) && (3..6).contains(&x) {
                assert_eq!(p, src.get_pixel(x - 3, y - 1));
            } else {
                assert_eq!(p, bg);
            }
        }
    }
}

#[test]
fn zero_padding_is_byte_identical() {
    let src = gradient(7, 5);
    let out = create_expanded_canvas(&src, 0, 0, 0, 0, px(1, 2, 3, 4)).unwrap();
    assert_eq!(out.width, 7);
    assert_eq!(out.height, 5);
    assert_eq!(out.data, src.data);
}

#[test]
fn short_source_buffer_is_an_error() {
    let src = PixelBuffer { width: 4, height: 4, data: vec![0u8; 4 * 4 * 4 - 1] };
    assert_eq!(create_expanded_canvas(&src, 1, 1, 1, 1, px(0, 0, 0, 255)).unwrap_err(), EngineError::SourceTooShort);
}

#[test]
fn overflowing_canvas_is_an_error() {
    let src = gradient(2, 2);
    assert_eq!(create_expanded_canvas(&src, 0, 0, u32::MAX, 0, px(0, 0, 0, 255)).unwrap_err(), EngineError::TooLarge);
}

#[test]
fn empty_source_gives_background() {
    let src = PixelBuffer { width: 0, height: 0, data: vec![] };
    let bg = px(5, 6, 7, 8);
    let out = create_expanded_canvas(&src, 1, 1, 2, 0, bg).unwrap();
    assert_eq!((out.width, out.height), (2, 2));
    assert_eq!(out.data, [5, 6, 7, 8].repeat(4));
}

#[test]
fn row_builder_copies_one_source_row() {
    let src = gradient(2, 2);
    let row = compose_row(&src, 2, 1, 1, 1, px(0, 0, 0, 0));
    assert_eq!(row, vec![0, 0, 0, 0, 0, 1, 1, 255, 1, 1, 2, 255, 0, 0, 0, 0]);
}

#[test]
fn white_canvas_has_border_and_bottom_band() {
    let src = gradient(2, 2);
    let out = compose_white_canvas(&src, 1, 3).unwrap();
    assert_eq!((out.width, out.height), (4, 6));
    assert_eq!(out.get_pixel(0, 0), px(255, 255, 255, 255));
    assert_eq!(out.get_pixel(1, 1), src.get_pixel(0, 0));
    assert_eq!(out.get_pixel(2, 2), src.get_pixel(1, 1));
    assert_eq!(out.get_pixel(2, 5), px(255, 255, 255, 255));
}

#[test]
fn frame_remembers_content_area() {
    let src = gradient(4, 2);
    let f = CompositingFrame::compose(&src, 3, 1, 5, 2, px(255, 255, 255, 255)).unwrap();
    assert_eq!((f.content_left, f.content_top, f.content_w, f.content_h), (5, 3, 4, 2));
    assert_eq!(f.content_center(), (7, 4));
    assert_eq!(f.canvas.get_pixel(5, 3), src.get_pixel(0, 0));
}

#[test]
fn from_raw_rejects_wrong_length() {
    assert_eq!(PixelBuffer::from_raw(2, 2, vec![0; 15]).unwrap_err(), EngineError::BufferMismatch);
    assert!(PixelBuffer::from_raw(2, 2, vec![0; 16]).is_ok());
}

#[test]
fn filled_buffer_repeats_color() {
    let b = PixelBuffer::filled(3, 1, px(1, 2, 3, 4)).unwrap();
    assert_eq!(b.data, vec![1, 2, 3, 4, 1, 2, 3, 4, 1, 2, 3, 4]);
    let mut b = b;
    b.put_pixel(1, 0, px(9, 9, 9, 9));
    assert_eq!(b.data, vec![1, 2, 3, 4, 9, 9, 9, 9, 1, 2, 3, 4]);
}
