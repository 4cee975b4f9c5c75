//! Resolution-adaptive blurring: a large blur is cheap on a reduced copy, so
//! the engine picks a reduction from the requested radius, downsamples with
//! nearest neighbour, and blurs the small copy with the radius scaled alike.

use vstd::prelude::*;
use crate::pixel::{EngineError, PixelBuffer};
use crate::imaging::{Resample, resampled, resize};

verus! {

/// The reduction, as a divisor of both dimensions, for a blur of radius
/// `sigma` at full resolution: larger blurs run on smaller copies.
pub open spec fn scale_divisor_of(sigma: int) -> int {
    if sigma < 2 {
        1
    } else if sigma < 10 {
        2
    } else if sigma < 30 {
        4
    } else {
        8
    }
}

/// The reduced copy keeps at least this many pixels on its shorter side
/// (unless the original is already shorter), so the blur never works on a
/// visibly blocky image.
pub const MIN_BLUR_EDGE: u32 = 150;

/// `d`, halved until the shorter side `short` divided by it keeps
/// [`MIN_BLUR_EDGE`] pixels, or until it reaches 1.
pub open spec fn floored_divisor(d: int, short: int) -> int
    decreases d,
{
    if d <= 1 || short >= MIN_BLUR_EDGE * d {
        d
    } else {
        floored_divisor(d / 2, short)
    }
}

/// The reduction for a blur of radius `sigma` on an image whose shorter side
/// is `short`: the radius picks it, the floor caps it.
pub open spec fn divisor_for(sigma: int, short: int) -> int {
    floored_divisor(scale_divisor_of(sigma), short)
}

/// `a / d`, rounded up.
pub open spec fn ceil_div(a: int, d: int) -> int {
    (a + d - 1) / d
}

pub fn scale_divisor(sigma: u64) -> (d: u32)
    ensures
        d == scale_divisor_of(sigma as int),
        1 <= d <= 8,
{
    if sigma < 2 {
        1
    } else if sigma < 10 {
        2
    } else if sigma < 30 {
        4
    } else {
        8
    }
}

/// The reduction for a blur of radius `sigma` on an image whose shorter
/// side is `short`.
pub fn scale_divisor_for(sigma: u64, short: u32) -> (d: u32)
    ensures
        d == divisor_for(sigma as int, short as int),
        d == 1 || d == 2 || d == 4 || d == 8,
{
    let mut d = scale_divisor(sigma);
    while d > 1 && (short as u64) < (MIN_BLUR_EDGE as u64) * (d as u64)
        invariant
            d == 1 || d == 2 || d == 4 || d == 8,
            floored_divisor(d as int, short as int) == divisor_for(sigma as int, short as int),
        decreases d,
    {
        d = d / 2;
    }
    d
}

/// The scale factor `1 / divisor` never grows as the requested blur grows,
/// on an image of any size; and the reduced copy keeps [`MIN_BLUR_EDGE`]
/// pixels on its shorter side unless no reduction is made.
pub proof fn lemma_scale_divisor_monotone(s1: int, s2: int, short: int)
    requires
        s1 <= s2,
    ensures
        scale_divisor_of(s1) <= scale_divisor_of(s2),
        1 <= divisor_for(s1, short) <= divisor_for(s2, short) <= 8,
        divisor_for(s1, short) == 1 || short >= MIN_BLUR_EDGE * divisor_for(s1, short),
{
    reveal_with_fuel(floored_divisor, 4);
}

proof fn lemma_ceil_div_le(a: int, d: int)
    requires
        0 <= a,
        1 <= d,
    ensures
        0 <= ceil_div(a, d) <= a,
{
    if a == 0 {
        vstd::arithmetic::div_mod::lemma_basic_div(d - 1, d);
    } else {
        assert(a + d - 1 <= d * a) by (nonlinear_arith)
            requires
                a >= 1,
                d >= 1,
        ;
        vstd::arithmetic::div_mod::lemma_div_is_ordered(a + d - 1, d * a, d);
        vstd::arithmetic::div_mod::lemma_div_multiples_vanish(a, d);
        vstd::arithmetic::div_mod::lemma_div_pos_is_pos(a + d - 1, d);
    }
}

/// A reduced copy ready to be blurred: blur it with radius
/// `radius / divisor`, the full-resolution radius scaled down with it.
#[derive(Clone, Debug)]
pub struct ScaledBlur {
    pub image: PixelBuffer,
    pub radius: u64,
    pub divisor: u32,
}

/// Reduces `img` for a blur of radius `blur_radius`: dimensions divided by
/// the divisor (chosen from the radius, floored by the image size) and
/// rounded up, sampled by nearest neighbour.
pub fn blur_at_scale(img: &PixelBuffer, blur_radius: u64) -> (r: Result<ScaledBlur, EngineError>)
    ensures
        r is Err <==> !img.wf(),
        r matches Err(e) ==> e == EngineError::BufferMismatch,
        r matches Ok(s) ==> {
            let d = divisor_for(blur_radius as int, if img.width <= img.height { img.width as int } else { img.height as int });
            &&& s.divisor == d
            &&& s.radius == blur_radius
            &&& s.image.width == ceil_div(img.width as int, d)
            &&& s.image.height == ceil_div(img.height as int, d)
            &&& s.image.wf()
            &&& s.image.data@ == resampled(
                img.data@,
                img.width as nat,
                img.height as nat,
                s.image.width as nat,
                s.image.height as nat,
                false,
            )
        },
{
    let _len = img.data.len();
    match PixelBuffer::byte_len(img.width, img.height) {
        Some(n) => {
            if n != img.data.len() {
                return Err(EngineError::BufferMismatch);
            }
        },
        None => return Err(EngineError::BufferMismatch),
    }
    let short = if img.width <= img.height { img.width } else { img.height };
    let d = scale_divisor_for(blur_radius, short);
    proof {
        lemma_ceil_div_le(img.width as int, d as int);
        lemma_ceil_div_le(img.height as int, d as int);
    }
    let w = ((img.width as u64 + d as u64 - 1) / d as u64) as u32;
    let h = ((img.height as u64 + d as u64 - 1) / d as u64) as u32;
    proof {
        assert(w <= img.width && h <= img.height);
        assert(w * h * 4 <= img.width * img.height * 4 && img.width * h * 4 <= img.width * img.height * 4)
            by (nonlinear_arith)
            requires
                w <= img.width,
                h <= img.height,
        ;
    }
    let image = resize(img, w, h, Resample::Nearest);
    Ok(ScaledBlur { image, radius: blur_radius, divisor: d })
}

} // verus!
