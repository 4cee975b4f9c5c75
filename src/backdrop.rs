//! Blurred aspect-fill backdrops: the source reduced to a small working copy,
//! cropped there to the target's aspect ratio (never letterboxed), blurred
//! and brightened at that size, then enlarged to exactly the target size.

use vstd::prelude::*;
use crate::pixel::{EngineError, PixelBuffer, byte_index, stride};
use crate::imaging::{Resample, resampled, resize};

verus! {

/// The working copy keeps at least this many pixels on its shorter side...
pub const MIN_SHORT_EDGE: u32 = 300;

/// ...and is never more than one fifth of the source on either side.
pub const MAX_SCALE_DIVISOR: u32 = 5;

/// The reduction applied to the source, as `num / den`.
pub open spec fn backdrop_scale(w: int, h: int) -> (int, int) {
    let short = if w <= h { w } else { h };
    if short > MIN_SHORT_EDGE * MAX_SCALE_DIVISOR {
        (MIN_SHORT_EDGE as int, short)
    } else {
        (1, MAX_SCALE_DIVISOR as int)
    }
}

/// A side of the working copy: the source side times the reduction, rounded
/// down, and never below one pixel.
pub open spec fn reduced_side(side: int, w: int, h: int) -> int {
    let (num, den) = backdrop_scale(w, h);
    let v = side * num / den;
    if v < 1 { 1 } else { v }
}

/// The largest rectangle of the target's aspect ratio inside a `w` by `h`
/// image: full width when the target is wider, full height otherwise; no
/// side below one pixel. An empty target keeps the whole image.
pub open spec fn crop_size(w: int, h: int, target_w: int, target_h: int) -> (int, int) {
    if target_w == 0 || target_h == 0 {
        (w, h)
    } else if target_w * h > w * target_h {
        let ch = w * target_h / target_w;
        (w, if ch < 1 { 1 } else { ch })
    } else {
        let cw = target_w * h / target_h;
        (if cw < 1 { 1 } else { cw }, h)
    }
}

/// The crop is centred.
pub open spec fn crop_origin(outer: int, inner: int) -> int {
    (outer - inner) / 2
}

/// `out` is the `w` by `h` block, with its corner at `(x, y)`, of the raster
/// `src` that is `src_w` pixels wide.
pub open spec fn is_crop_of(out: PixelBuffer, src_w: int, src: Seq<u8>, x: int, y: int, w: int, h: int) -> bool {
    &&& out.width == w
    &&& out.height == h
    &&& out.wf()
    &&& forall|i: int, j: int, c: int|
        0 <= i < w && 0 <= j < h && 0 <= c < 4 ==> #[trigger] out.at(i, j, c) == src[byte_index(src_w, x + i, y + j, c)]
}

/// The `w` by `h` block of `src` whose corner is at `(x, y)`.
pub fn crop(src: &PixelBuffer, x: u32, y: u32, w: u32, h: u32) -> (out: PixelBuffer)
    requires
        src.wf(),
        x + w <= src.width,
        y + h <= src.height,
    ensures
        is_crop_of(out, src.width as int, src.data@, x as int, y as int, w as int, h as int),
{
    let _len = src.data.len();
    if h == 0 {
        assert(w * h * 4 == 0) by (nonlinear_arith)
            requires
                h == 0,
        ;
        return PixelBuffer { width: w, height: h, data: Vec::new() };
    }
    assert(4 * src.width <= src.width * src.height * 4) by (nonlinear_arith)
        requires
            src.height >= 1,
    ;
    let ss = 4 * (src.width as usize);
    let os = 4 * (w as usize);
    proof {
        assert(w * h * 4 <= src.width * src.height * 4) by (nonlinear_arith)
            requires
                x + w <= src.width,
                y + h <= src.height,
        ;
    }
    let mut data: Vec<u8> = Vec::new();
    let mut j: u32 = 0;
    while j < h
        invariant
            j <= h,
            src.wf(),
            src.data@.len() <= usize::MAX,
            x + w <= src.width,
            y + h <= src.height,
            ss == stride(src.width as int),
            os == stride(w as int),
            w * h * 4 <= src.width * src.height * 4,
            data@.len() == j * os,
            forall|jj: int, k: int|
                0 <= jj < j && 0 <= k < os ==> #[trigger] data@[jj * os + k] == src.data@[(y + jj) * ss + 4 * x + k],
        decreases h - j,
    {
        let row = (y + j) as usize;
        proof {
            assert(row * ss + ss <= src.width * src.height * 4) by (nonlinear_arith)
                requires
                    row < src.height,
                    ss == 4 * src.width,
            ;
            assert((j + 1) * os <= w * h * 4) by (nonlinear_arith)
                requires
                    j < h,
                    os == 4 * w,
            ;
        }
        let start = row * ss + 4 * (x as usize);
        let ghost before = data@;
        let mut k: usize = 0;
        while k < os
            invariant
                k <= os,
                j < h,
                src.data@.len() == src.width * src.height * 4,
                src.data@.len() <= usize::MAX,
                x + w <= src.width,
                ss == stride(src.width as int),
                os == stride(w as int),
                row == y + j,
                row * ss + ss <= src.width * src.height * 4,
                start == row * ss + 4 * x,
                (j + 1) * os <= w * h * 4,
                w * h * 4 <= usize::MAX,
                data@.len() == j * os + k,
                data@.subrange(0, j * os) == before.subrange(0, j * os),
                before.len() == j * os,
                forall|kk: int| 0 <= kk < k ==> #[trigger] data@[j * os + kk] == src.data@[start + kk],
            decreases os - k,
        {
            data.push(src.data[start + k]);
            k = k + 1;
        }
        proof {
            assert((j + 1) * os == j * os + os) by (nonlinear_arith);
            assert forall|jj: int, kk: int|
                0 <= jj < j + 1 && 0 <= kk < os implies #[trigger] data@[jj * os + kk] == src.data@[(y + jj) * ss + 4
                * x + kk] by {
                if jj < j {
                    assert(jj * os + kk < j * os) by (nonlinear_arith)
                        requires
                            jj < j,
                            kk < os,
                    ;
                    assert(data@[jj * os + kk] == data@.subrange(0, j * os)[jj * os + kk]);
                    assert(before[jj * os + kk] == before.subrange(0, j * os)[jj * os + kk]);
                    assert(data@[jj * os + kk] == before[jj * os + kk]);
                }
            }
        }
        j = j + 1;
    }
    let out = PixelBuffer { width: w, height: h, data };
    proof {
        assert(h * os == w * h * 4) by (nonlinear_arith)
            requires
                os == 4 * w,
        ;
        assert forall|i: int, jj: int, c: int| 0 <= i < w && 0 <= jj < h && 0 <= c < 4 implies #[trigger] out.at(
            i,
            jj,
            c,
        ) == src.data@[byte_index(src.width as int, x + i, y + jj, c)] by {
            assert(out.data@[jj * os + (4 * i + c)] == src.data@[(y + jj) * ss + 4 * x + (4 * i + c)]);
        }
    }
    out
}

/// Channel `c` of a pixel, now `v`, shifted by `delta` and clamped; alpha
/// stays.
pub open spec fn brighten_byte(v: u8, c: int, delta: int) -> u8 {
    if c == 3 {
        v
    } else if v + delta < 0 {
        0
    } else if v + delta > 255 {
        255
    } else {
        (v + delta) as u8
    }
}

pub open spec fn brightened(data: Seq<u8>, delta: int) -> Seq<u8> {
    Seq::new(data.len(), |k: int| brighten_byte(data[k], k % 4, delta))
}

/// `img` with `delta` added to every colour channel, clamped to 0..=255.
pub fn brighten(img: &PixelBuffer, delta: i32) -> (out: PixelBuffer)
    ensures
        out.width == img.width,
        out.height == img.height,
        out.data@ == brightened(img.data@, delta as int),
{
    let n = img.data.len();
    let mut data: Vec<u8> = Vec::with_capacity(n);
    let mut i: usize = 0;
    while i < n
        invariant
            n == img.data@.len(),
            i <= n,
            data@.len() == i,
            forall|k: int| 0 <= k < i ==> #[trigger] data@[k] == brighten_byte(img.data@[k], k % 4, delta as int),
        decreases n - i,
    {
        let v = img.data[i];
        let b = if i % 4 == 3 {
            v
        } else {
            let t = v as i64 + delta as i64;
            if t < 0 {
                0
            } else if t > 255 {
                255
            } else {
                t as u8
            }
        };
        data.push(b);
        i = i + 1;
    }
    assert(data@ =~= brightened(img.data@, delta as int));
    PixelBuffer { width: img.width, height: img.height, data }
}

/// A reduced, cropped copy of the source, ready to be blurred with radius
/// `radius_num / radius_den`: the requested radius times the reduction.
#[derive(Clone, Debug)]
pub struct BackdropWork {
    pub image: PixelBuffer,
    pub radius_num: u64,
    pub radius_den: u64,
}

fn reduced_side_exec(side: u32, w: u32, h: u32) -> (r: u32)
    ensures
        r == reduced_side(side as int, w as int, h as int),
        1 <= r,
        r <= side || r == 1,
{
    let short = if w <= h { w } else { h };
    let v: u64 = if short > MIN_SHORT_EDGE * MAX_SCALE_DIVISOR {
        proof {
            vstd::arithmetic::div_mod::lemma_div_is_ordered_by_denominator(side * 300, 300, short as int);
            vstd::arithmetic::div_mod::lemma_div_multiples_vanish(side as int, 300);
        }
        (side as u64) * (MIN_SHORT_EDGE as u64) / (short as u64)
    } else {
        side as u64 / (MAX_SCALE_DIVISOR as u64)
    };
    if v < 1 {
        1
    } else {
        v as u32
    }
}

/// Reduces `source` for a backdrop of `target_w` by `target_h` and crops the
/// reduced copy, centred, to the target's aspect ratio.
///
/// Fails with `BufferMismatch` when `source` is not well formed and with
/// `TooLarge` when the reduced copy cannot be addressed.
pub fn prepare_backdrop(source: &PixelBuffer, target_w: u32, target_h: u32, blur_radius: u32) -> (r: Result<BackdropWork, EngineError>)
    ensures
        r matches Err(EngineError::BufferMismatch) <==> !source.wf(),
        r matches Err(EngineError::TooLarge) <==> source.wf() && ({
            let tw = reduced_side(source.width as int, source.width as int, source.height as int);
            let th = reduced_side(source.height as int, source.width as int, source.height as int);
            tw * th * 4 > usize::MAX || source.width * th * 4 > usize::MAX
        }),
        r is Err ==> (r matches Err(EngineError::BufferMismatch)) || (r matches Err(EngineError::TooLarge)),
        r matches Ok(work) ==> {
            let tw = reduced_side(source.width as int, source.width as int, source.height as int);
            let th = reduced_side(source.height as int, source.width as int, source.height as int);
            let (cw, ch) = crop_size(tw, th, target_w as int, target_h as int);
            let (num, den) = backdrop_scale(source.width as int, source.height as int);
            &&& is_crop_of(
                work.image,
                tw,
                resampled(source.data@, source.width as nat, source.height as nat, tw as nat, th as nat, false),
                crop_origin(tw, cw),
                crop_origin(th, ch),
                cw,
                ch,
            )
            &&& work.radius_num == blur_radius * num
            &&& work.radius_den == den
        },
{
    if !source.is_well_formed() {
        return Err(EngineError::BufferMismatch);
    }
    let tw = reduced_side_exec(source.width, source.width, source.height);
    let th = reduced_side_exec(source.height, source.width, source.height);
    match PixelBuffer::byte_len(tw, th) {
        Some(_) => {},
        None => return Err(EngineError::TooLarge),
    }
    match PixelBuffer::byte_len(source.width, th) {
        Some(_) => {},
        None => return Err(EngineError::TooLarge),
    }
    let small = resize(source, tw, th, Resample::Nearest);
    let (cw, ch) = crop_size_exec(tw, th, target_w, target_h);
    let x = (tw - cw) / 2;
    let y = (th - ch) / 2;
    let image = crop(&small, x, y, cw, ch);
    let short = if source.width <= source.height { source.width } else { source.height };
    let (num, den): (u64, u64) = if short > MIN_SHORT_EDGE * MAX_SCALE_DIVISOR {
        (MIN_SHORT_EDGE as u64, short as u64)
    } else {
        (1, MAX_SCALE_DIVISOR as u64)
    };
    assert(blur_radius * num <= 0xffff_ffff * 300) by (nonlinear_arith)
        requires
            blur_radius <= 0xffff_ffff,
            num <= 300,
    ;
    Ok(BackdropWork { image, radius_num: blur_radius as u64 * num, radius_den: den })
}

fn crop_size_exec(w: u32, h: u32, target_w: u32, target_h: u32) -> (r: (u32, u32))
    requires
        w >= 1,
        h >= 1,
    ensures
        (r.0 as int, r.1 as int) == crop_size(w as int, h as int, target_w as int, target_h as int),
        1 <= r.0 <= w,
        1 <= r.1 <= h,
{
    if target_w == 0 || target_h == 0 {
        return (w, h);
    }
    assert(target_w * h <= 0xffff_ffff * 0xffff_ffff && w * target_h <= 0xffff_ffff * 0xffff_ffff)
        by (nonlinear_arith)
        requires
            target_w <= 0xffff_ffff,
            h <= 0xffff_ffff,
            w <= 0xffff_ffff,
            target_h <= 0xffff_ffff,
    ;
    let a = (target_w as u64) * (h as u64);
    let b = (w as u64) * (target_h as u64);
    if a > b {
        let ch = b / (target_w as u64);
        proof {
            let bi = b as int;
            let ti = target_w as int;
            vstd::arithmetic::div_mod::lemma_fundamental_div_mod(bi, ti);
            assert(ch < h) by (nonlinear_arith)
                requires
                    bi == ti * (bi / ti) + bi % ti,
                    0 <= bi % ti,
                    ch == bi / ti,
                    bi < ti * h,
                    ti > 0,
            ;
        }
        (w, if ch < 1 { 1 } else { ch as u32 })
    } else {
        let cw = a / (target_h as u64);
        proof {
            let ai = a as int;
            let ti = target_h as int;
            vstd::arithmetic::div_mod::lemma_fundamental_div_mod(ai, ti);
            assert(cw <= w) by (nonlinear_arith)
                requires
                    ai == ti * (ai / ti) + ai % ti,
                    0 <= ai % ti,
                    cw == ai / ti,
                    ai <= w * ti,
                    ti > 0,
            ;
        }
        (if cw < 1 { 1 } else { cw as u32 }, h)
    }
}

/// Brightens the blurred working copy by `brightness` and enlarges it with
/// the smooth filter to exactly `target_w` by `target_h`.
///
/// Fails with `BufferMismatch` when `blurred` is not well formed and with
/// `TooLarge` when the result cannot be addressed.
pub fn finish_backdrop(blurred: &PixelBuffer, target_w: u32, target_h: u32, brightness: i32) -> (r: Result<PixelBuffer, EngineError>)
    ensures
        r matches Err(EngineError::BufferMismatch) <==> !blurred.wf(),
        r matches Err(EngineError::TooLarge) <==> blurred.wf() && (target_w * target_h * 4 > usize::MAX
            || blurred.width * target_h * 4 > usize::MAX),
        r is Ok <==> blurred.wf() && target_w * target_h * 4 <= usize::MAX && blurred.width * target_h * 4
            <= usize::MAX,
        r matches Ok(out) ==> {
            &&& out.width == target_w
            &&& out.height == target_h
            &&& out.wf()
            &&& out.data@ == resampled(
                brightened(blurred.data@, brightness as int),
                blurred.width as nat,
                blurred.height as nat,
                target_w as nat,
                target_h as nat,
                true,
            )
        },
{
    if !blurred.is_well_formed() {
        return Err(EngineError::BufferMismatch);
    }
    match PixelBuffer::byte_len(target_w, target_h) {
        Some(_) => {},
        None => return Err(EngineError::TooLarge),
    }
    match PixelBuffer::byte_len(blurred.width, target_h) {
        Some(_) => {},
        None => return Err(EngineError::TooLarge),
    }
    let bright = brighten(blurred, brightness);
    Ok(resize(&bright, target_w, target_h, Resample::Smooth))
}

/// The crop keeps the target's aspect ratio: its sides stay inside the
/// working copy and, cross-multiplied with the target's, differ by less than
/// one target side (the rounding of one division).
pub proof fn lemma_aspect_fill_crop(w: int, h: int, target_w: int, target_h: int)
    requires
        w >= 1,
        h >= 1,
        target_w >= 1,
        target_h >= 1,
        w * target_h >= target_w,
        h * target_w >= target_h,
    ensures
        ({
            let (cw, ch) = crop_size(w, h, target_w, target_h);
            &&& 1 <= cw <= w
            &&& 1 <= ch <= h
            &&& -target_h < cw * target_h - ch * target_w < target_w
        }),
{
    if target_w * h > w * target_h {
        let b = w * target_h;
        vstd::arithmetic::div_mod::lemma_fundamental_div_mod(b, target_w);
        let ch = b / target_w;
        assert(1 <= ch < h) by (nonlinear_arith)
            requires
                b == target_w * ch + b % target_w,
                0 <= b % target_w < target_w,
                b >= target_w,
                b < target_w * h,
        ;
        assert(0 <= w * target_h - ch * target_w < target_w) by (nonlinear_arith)
            requires
                b == target_w * ch + b % target_w,
                0 <= b % target_w < target_w,
                b == w * target_h,
        ;
    } else {
        let a = target_w * h;
        vstd::arithmetic::div_mod::lemma_fundamental_div_mod(a, target_h);
        let cw = a / target_h;
        assert(1 <= cw <= w) by (nonlinear_arith)
            requires
                a == target_h * cw + a % target_h,
                0 <= a % target_h < target_h,
                a >= target_h,
                a <= w * target_h,
        ;
        assert(-target_h < cw * target_h - h * target_w <= 0) by (nonlinear_arith)
            requires
                a == target_h * cw + a % target_h,
                0 <= a % target_h < target_h,
                a == target_w * h,
        ;
    }
}

} // verus!
