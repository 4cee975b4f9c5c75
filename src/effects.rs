//! Frosted-glass panels and silhouettes built from the primitives: rounded
//! corners by alpha, a translucent rim, and a white-out of a logo.

use vstd::prelude::*;
use crate::pixel::{EngineError, PixelBuffer, Rgba8, lemma_filled_at};
use crate::corners::{Rect, CornerPaint, after_corners, effective_radius, apply_rounded_corners};
use crate::imaging::{overlay, is_overlaid};

verus! {

/// The rim colour of a glass panel: white at about half opacity.
pub open spec fn glass_rim() -> Rgba8 {
    Rgba8 { r: 255, g: 255, b: 255, a: 130 }
}

/// Corner radius of a glass panel: 3% of the shorter side, rounded down.
pub open spec fn glass_radius(w: int, h: int) -> int {
    (if w <= h { w } else { h }) * 3 / 100
}

/// Rim thickness: 0.2% of the longer side, kept between 3 and 8 pixels.
pub open spec fn glass_rim_width(w: int, h: int) -> int {
    let t = (if w >= h { w } else { h }) * 2 / 1000;
    if t < 3 { 3 } else if t > 8 { 8 } else { t }
}

/// `out` is `src` with its own corners rounded at radius `r`.
pub open spec fn is_rounded_copy(out: PixelBuffer, src: PixelBuffer, r: int) -> bool {
    let rect = Rect { x: 0, y: 0, width: src.width, height: src.height };
    &&& out.width == src.width
    &&& out.height == src.height
    &&& out.wf()
    &&& forall|px: int, py: int, c: int|
        0 <= px < src.width && 0 <= py < src.height && 0 <= c < 4 ==> #[trigger] out.at(px, py, c) == after_corners(
            rect,
            effective_radius(rect, r as u32),
            CornerPaint::Fade,
            px,
            py,
            c,
            src.at(px, py, c),
        )
}

/// `out` is a `w` by `h` plate of `color` with corners rounded at radius `r`.
pub open spec fn is_rounded_plate(out: PixelBuffer, w: int, h: int, r: int, color: Rgba8) -> bool {
    let rect = Rect { x: 0, y: 0, width: w as u32, height: h as u32 };
    &&& out.width == w
    &&& out.height == h
    &&& out.wf()
    &&& forall|px: int, py: int, c: int|
        0 <= px < w && 0 <= py < h && 0 <= c < 4 ==> #[trigger] out.at(px, py, c) == after_corners(
            rect,
            effective_radius(rect, r as u32),
            CornerPaint::Fade,
            px,
            py,
            c,
            color.channel(c),
        )
}

/// A plate of `color`, `w` by `h`, with corners rounded at radius `r`.
pub fn rounded_plate(w: u32, h: u32, r: u32, color: Rgba8) -> (res: Result<PixelBuffer, EngineError>)
    ensures
        res is Err <==> w * h * 4 > usize::MAX,
        res matches Err(e) ==> e == EngineError::TooLarge,
        res matches Ok(b) ==> is_rounded_plate(b, w as int, h as int, r as int, color),
{
    let mut b = match PixelBuffer::filled(w, h, color) {
        Ok(b) => b,
        Err(e) => return Err(e),
    };
    let ghost solid = b;
    apply_rounded_corners(&mut b, Rect { x: 0, y: 0, width: w, height: h }, r);
    proof {
        assert forall|px: int, py: int, c: int| 0 <= px < w && 0 <= py < h && 0 <= c < 4 implies solid.at(px, py, c)
            == color.channel(c) by {
            lemma_filled_at(solid, color, px, py, c);
        }
    }
    Ok(b)
}

/// Frames `img` as a frosted-glass panel: the photo's corners rounded by
/// alpha, laid centred on a slightly larger translucent white plate whose
/// corners follow the photo's, so a thin glassy rim shows around it.
///
/// Fails with `BufferMismatch` when `img` is not well formed and with
/// `TooLarge` when the panel's dimensions overflow or cannot be addressed.
pub fn apply_rounded_glass_effect(img: &PixelBuffer) -> (res: Result<PixelBuffer, EngineError>)
    ensures
        res matches Err(EngineError::BufferMismatch) <==> !img.wf(),
        res matches Err(EngineError::TooLarge) <==> img.wf() && ({
            let t = glass_rim_width(img.width as int, img.height as int);
            img.width + 2 * t > u32::MAX || img.height + 2 * t > u32::MAX || (img.width + 2 * t) * (img.height + 2
                * t) * 4 > usize::MAX
        }),
        res is Err ==> (res matches Err(EngineError::BufferMismatch)) || (res matches Err(EngineError::TooLarge)),
        res matches Ok(out) ==> {
            let t = glass_rim_width(img.width as int, img.height as int);
            let r = glass_radius(img.width as int, img.height as int);
            exists|plate: PixelBuffer, photo: PixelBuffer|
                #![trigger is_rounded_plate(plate, img.width + 2 * t, img.height + 2 * t, r + t, glass_rim()), is_rounded_copy(photo, *img, r)]
                {
                    &&& is_rounded_plate(plate, img.width + 2 * t, img.height + 2 * t, r + t, glass_rim())
                    &&& is_rounded_copy(photo, *img, r)
                    &&& is_overlaid(out, plate, img.width as int, img.height as int, photo.data@, t, t)
                }
        },
{
    if !img.is_well_formed() {
        return Err(EngineError::BufferMismatch);
    }
    let w = img.width;
    let h = img.height;
    let short = if w <= h { w } else { h };
    let long = if w >= h { w } else { h };
    let radius = ((short as u64) * 3 / 100) as u32;
    let t0 = (long as u64) * 2 / 1000;
    let t: u32 = if t0 < 3 { 3 } else if t0 > 8 { 8 } else { t0 as u32 };
    if w as u64 + 2 * t as u64 > u32::MAX as u64 || h as u64 + 2 * t as u64 > u32::MAX as u64 {
        return Err(EngineError::TooLarge);
    }
    let fw = w + 2 * t;
    let fh = h + 2 * t;
    let mut plate = match rounded_plate(fw, fh, radius + t, Rgba8 { r: 255, g: 255, b: 255, a: 130 }) {
        Ok(b) => b,
        Err(e) => return Err(e),
    };
    let ghost plate0 = plate;
    let mut photo = img.copy();
    apply_rounded_corners(&mut photo, Rect { x: 0, y: 0, width: w, height: h }, radius);
    overlay(&mut plate, &photo, t as i64, t as i64);
    proof {
        let ti = glass_rim_width(w as int, h as int);
        let ri = glass_radius(w as int, h as int);
        assert(t == ti);
        assert(radius == ri);
        assert(is_rounded_plate(plate0, w + 2 * ti, h + 2 * ti, ri + ti, glass_rim()));
        assert(is_rounded_copy(photo, *img, ri));
        assert(is_overlaid(plate, plate0, w as int, h as int, photo.data@, ti, ti));
    }
    Ok(plate)
}

/// `img` with every pixel that is not fully transparent turned white, alpha
/// kept, so that anti-aliased edges stay soft.
pub fn make_image_white(img: &PixelBuffer) -> (out: PixelBuffer)
    requires
        img.wf(),
    ensures
        out.width == img.width,
        out.height == img.height,
        out.wf(),
        forall|px: int, py: int, c: int|
            0 <= px < img.width && 0 <= py < img.height && 0 <= c < 4 ==> #[trigger] out.at(px, py, c) == if c < 3
                && img.at(px, py, 3) > 0 {
                255u8
            } else {
                img.at(px, py, c)
            },
{
    let mut out = img.copy();
    let ghost orig = *img;
    let mut y: u32 = 0;
    while y < img.height
        invariant
            y <= img.height,
            img.wf(),
            out.width == img.width,
            out.height == img.height,
            out.wf(),
            forall|px: int, py: int, c: int|
                0 <= px < img.width && 0 <= py < img.height && 0 <= c < 4 ==> #[trigger] out.at(px, py, c) == if py < y
                    && c < 3 && img.at(px, py, 3) > 0 {
                    255u8
                } else {
                    img.at(px, py, c)
                },
        decreases img.height - y,
    {
        let mut x: u32 = 0;
        while x < img.width
            invariant
                x <= img.width,
                y < img.height,
                img.wf(),
                out.width == img.width,
                out.height == img.height,
                out.wf(),
                forall|px: int, py: int, c: int|
                    0 <= px < img.width && 0 <= py < img.height && 0 <= c < 4 ==> #[trigger] out.at(px, py, c) == if (py
                        < y || (py == y && px < x)) && c < 3 && img.at(px, py, 3) > 0 {
                        255u8
                    } else {
                        img.at(px, py, c)
                    },
            decreases img.width - x,
        {
            let p = out.get_pixel(x, y);
            if p.a > 0 {
                let ghost before = out;
                out.put_pixel(x, y, Rgba8 { r: 255, g: 255, b: 255, a: p.a });
                proof {
                    assert(p.channel(3) == before.at(x as int, y as int, 3));
                    assert(before.at(x as int, y as int, 3) == img.at(x as int, y as int, 3));
                }
            } else {
                proof {
                    assert(p.channel(3) == out.at(x as int, y as int, 3));
                }
            }
            x = x + 1;
        }
        y = y + 1;
    }
    out
}

} // verus!
