//! Diffuse drop shadows described once, at a reference canvas size, and
//! rescaled to each canvas so that one profile looks the same on every image.

use vstd::prelude::*;
use crate::pixel::{EngineError, PixelBuffer, Rgba8, fill_rect, in_rect, lemma_filled_at, byte_index, stride};
use crate::blur::{scale_divisor_for, divisor_for, ceil_div};
use crate::imaging::{Resample, resampled, resize, overlay, is_overlaid, lemma_paste_properties};
use crate::compositor::{is_canvas_of, canvas_byte};

verus! {

/// The canvas size, in pixels along its longer side, at which profiles are
/// written.
pub const REFERENCE_SIZE: u32 = 1000;

/// A shadow: blur radius, offset and spread in pixels of a canvas whose
/// longer side is [`REFERENCE_SIZE`], and a colour whose alpha caps the
/// shadow's opacity. A negative spread shrinks the silhouette.
#[derive(Clone, Copy, Debug, PartialEq, Eq, Structural)]
pub struct ShadowProfile {
    pub sigma: u32,
    pub offset_x: i32,
    pub offset_y: i32,
    pub spread: i32,
    pub color: Rgba8,
}

/// A profile rescaled to one canvas.
#[derive(Clone, Copy, Debug, PartialEq, Eq, Structural)]
pub struct ScaledShadow {
    pub sigma: i64,
    pub offset_x: i64,
    pub offset_y: i64,
    pub spread: i64,
    pub color: Rgba8,
}

/// `v`, given at the reference size, on a canvas whose longer side is `m`:
/// `v * m / REFERENCE_SIZE`, rounded half away from zero.
pub open spec fn scale_to(v: int, m: int) -> int {
    let half = REFERENCE_SIZE / 2;
    if v >= 0 {
        (v * m + half) / REFERENCE_SIZE as int
    } else {
        -((-v * m + half) / REFERENCE_SIZE as int)
    }
}

pub open spec fn longer_side(w: int, h: int) -> int {
    if w >= h { w } else { h }
}

pub open spec fn scaled_of(p: ShadowProfile, canvas_w: int, canvas_h: int) -> ScaledShadow {
    let m = longer_side(canvas_w, canvas_h);
    ScaledShadow {
        sigma: scale_to(p.sigma as int, m) as i64,
        offset_x: scale_to(p.offset_x as int, m) as i64,
        offset_y: scale_to(p.offset_y as int, m) as i64,
        spread: scale_to(p.spread as int, m) as i64,
        color: p.color,
    }
}

fn scale_len(v: i64, m: u32) -> (r: i64)
    requires
        -0x8000_0000 <= v <= 0xffff_ffff,
    ensures
        r == scale_to(v as int, m as int),
{
    let vv = v as i128;
    let mm = m as i128;
    if vv >= 0 {
        assert(0 <= vv * mm <= 0xffff_ffff * 0xffff_ffff) by (nonlinear_arith)
            requires
                0 <= vv <= 0xffff_ffff,
                0 <= mm <= 0xffff_ffff,
        ;
        ((vv * mm + (REFERENCE_SIZE / 2) as i128) / REFERENCE_SIZE as i128) as i64
    } else {
        assert(0 <= (-vv) * mm <= 0x8000_0000 * 0xffff_ffff) by (nonlinear_arith)
            requires
                0 < -vv <= 0x8000_0000,
                0 <= mm <= 0xffff_ffff,
        ;
        (-(((-vv) * mm + (REFERENCE_SIZE / 2) as i128) / REFERENCE_SIZE as i128)) as i64
    }
}

/// Each rescaled length, as a fraction of the canvas's longer side, is within
/// half a pixel of the profile's fraction of the reference size; so on two
/// canvases of any sizes the relative geometry differs by at most half a
/// pixel of each.
pub proof fn lemma_scale_invariance(v: int, m1: int, m2: int)
    requires
        m1 > 0,
        m2 > 0,
    ensures
        -500 <= 1000 * scale_to(v, m1) - v * m1 <= 500,
        -500 * (m1 + m2) <= 1000 * (scale_to(v, m1) * m2 - scale_to(v, m2) * m1) <= 500 * (m1 + m2),
{
    lemma_scale_close(v, m1);
    lemma_scale_close(v, m2);
    let e1 = 1000 * scale_to(v, m1) - v * m1;
    let e2 = 1000 * scale_to(v, m2) - v * m2;
    assert(1000 * (scale_to(v, m1) * m2 - scale_to(v, m2) * m1) == e1 * m2 - e2 * m1) by (nonlinear_arith)
        requires
            e1 == 1000 * scale_to(v, m1) - v * m1,
            e2 == 1000 * scale_to(v, m2) - v * m2,
    ;
    assert(-500 * m2 <= e1 * m2 <= 500 * m2) by (nonlinear_arith)
        requires
            -500 <= e1 <= 500,
            m2 > 0,
    ;
    assert(-500 * m1 <= e2 * m1 <= 500 * m1) by (nonlinear_arith)
        requires
            -500 <= e2 <= 500,
            m1 > 0,
    ;
}

proof fn lemma_scale_close(v: int, m: int)
    requires
        m >= 0,
    ensures
        -500 <= 1000 * scale_to(v, m) - v * m <= 500,
{
    if v >= 0 {
        let n = v * m + 500;
        assert(0 <= n % 1000 < 1000 && n == 1000 * (n / 1000) + n % 1000) by {
            vstd::arithmetic::div_mod::lemma_fundamental_div_mod(n, 1000);
        }
    } else {
        let n = -v * m + 500;
        assert(0 <= n % 1000 < 1000 && n == 1000 * (n / 1000) + n % 1000) by {
            vstd::arithmetic::div_mod::lemma_fundamental_div_mod(n, 1000);
        }
        assert(-v * m == -(v * m)) by (nonlinear_arith);
    }
}


/// The side of the reduced silhouette: the content side reduced by `d`
/// (rounded up), grown or shrunk by twice the spread reduced alike, and never
/// below one pixel.
pub open spec fn silhouette_side(content: int, spread: int, d: int) -> int {
    let n = ceil_div(content, d) * d + 2 * spread;
    if n <= 0 {
        1
    } else {
        ceil_div(n, d)
    }
}

pub open spec fn plan_divisor(s: ScaledShadow, short: int) -> int {
    divisor_for(s.sigma as int, short)
}

/// Transparent margin around the reduced silhouette: three reduced sigmas,
/// room for the blur to fade out.
pub open spec fn plan_padding(s: ScaledShadow, short: int) -> int {
    ceil_div(3 * s.sigma, plan_divisor(s, short))
}

pub open spec fn plan_side(s: ScaledShadow, short: int, content: int) -> int {
    silhouette_side(content, s.spread as int, plan_divisor(s, short))
}

/// Side of the full-size shadow layer: the reduced canvas enlarged back.
pub open spec fn plan_layer(s: ScaledShadow, short: int, content: int) -> int {
    (plan_side(s, short, content) + 2 * plan_padding(s, short)) * plan_divisor(s, short)
}

/// The layer is centred on the content centre moved by the offset.
pub open spec fn plan_origin(center: int, offset: int, layer: int) -> int {
    center + offset - layer / 2
}

/// Everything needed to draw one shadow: the reduced silhouette, its blur,
/// and where the enlarged layer lands on the canvas.
#[derive(Clone, Copy, Debug, PartialEq, Eq, Structural)]
pub struct ShadowPlan {
    /// The reduction; the silhouette is blurred with radius `sigma / divisor`.
    pub divisor: u32,
    /// The blur radius at full resolution.
    pub sigma: i64,
    pub shadow_w: u32,
    pub shadow_h: u32,
    pub padding: u32,
    pub left: i64,
    pub top: i64,
    pub color: Rgba8,
}

impl ShadowPlan {
    pub open spec fn reduced_w(self) -> int {
        self.shadow_w + 2 * self.padding
    }

    pub open spec fn reduced_h(self) -> int {
        self.shadow_h + 2 * self.padding
    }

    pub open spec fn layer_w(self) -> int {
        self.reduced_w() * self.divisor
    }

    pub open spec fn layer_h(self) -> int {
        self.reduced_h() * self.divisor
    }

    /// The layer's dimensions fit the raster type and its bytes can be
    /// addressed.
    pub open spec fn wf(self) -> bool {
        &&& 1 <= self.divisor <= 8
        &&& self.layer_w() <= u32::MAX
        &&& self.layer_h() <= u32::MAX
        &&& self.layer_w() * self.layer_h() * 4 <= usize::MAX
    }

    /// The reduced silhouette: transparent, with a solid rectangle of the
    /// shadow colour inside the margin. Fails with `TooLarge` on a plan whose
    /// layer would not fit.
    pub fn silhouette(&self) -> (r: Result<PixelBuffer, EngineError>)
        ensures
            r is Ok <==> self.wf(),
            r matches Err(e) ==> e == EngineError::TooLarge,
            r matches Ok(b) ==> {
                &&& b.width == self.reduced_w()
                &&& b.height == self.reduced_h()
                &&& b.wf()
                &&& forall|x: int, y: int, c: int|
                    0 <= x < b.width && 0 <= y < b.height && 0 <= c < 4 ==> #[trigger] b.at(x, y, c) == if in_rect(
                        self.padding as int,
                        self.padding as int,
                        self.shadow_w as int,
                        self.shadow_h as int,
                        x,
                        y,
                    ) {
                        self.color.channel(c)
                    } else {
                        0
                    }
            },
    {
        let (w, h) = match self.reduced_size() {
            Some(d) => d,
            None => return Err(EngineError::TooLarge),
        };
        let mut b = match PixelBuffer::transparent(w, h) {
            Ok(b) => b,
            Err(e) => return Err(e),
        };
        let ghost blank = b;
        fill_rect(&mut b, self.padding, self.padding, self.shadow_w, self.shadow_h, self.color);
        proof {
            assert forall|x: int, y: int, c: int| 0 <= x < b.width && 0 <= y < b.height && 0 <= c < 4 implies #[trigger] b.at(
                x,
                y,
                c,
            ) == if in_rect(
                self.padding as int,
                self.padding as int,
                self.shadow_w as int,
                self.shadow_h as int,
                x,
                y,
            ) {
                self.color.channel(c)
            } else {
                0
            } by {
                lemma_filled_at(blank, Rgba8 { r: 0, g: 0, b: 0, a: 0 }, x, y, c);
            }
        }
        Ok(b)
    }

    /// The reduced canvas size, and the full layer size, when the plan is
    /// well formed.
    fn reduced_size(&self) -> (r: Option<(u32, u32)>)
        ensures
            r is Some <==> self.wf(),
            r matches Some(d) ==> d.0 == self.reduced_w() && d.1 == self.reduced_h() && d.0 * d.1 * 4 <= usize::MAX,
    {
        if self.divisor < 1 || self.divisor > 8 {
            return None;
        }
        let rw = self.shadow_w as u64 + 2 * (self.padding as u64);
        let rh = self.shadow_h as u64 + 2 * (self.padding as u64);
        let d = self.divisor as u64;
        assert(rw * d <= 0x20_0000_0000 && rh * d <= 0x20_0000_0000) by (nonlinear_arith)
            requires
                rw <= 0x3_0000_0000,
                rh <= 0x3_0000_0000,
                1 <= d <= 8,
        ;
        let lw = rw * d;
        let lh = rh * d;
        if lw > u32::MAX as u64 || lh > u32::MAX as u64 {
            return None;
        }
        assert(rw <= lw && rh <= lh) by (nonlinear_arith)
            requires
                lw == rw * d,
                lh == rh * d,
                1 <= d,
        ;
        match PixelBuffer::byte_len(lw as u32, lh as u32) {
            Some(_) => {
                assert(rw * rh * 4 <= lw * lh * 4) by (nonlinear_arith)
                    requires
                        lw == rw * d,
                        lh == rh * d,
                        1 <= d,
                        0 <= rw,
                        0 <= rh,
                ;
                Some((rw as u32, rh as u32))
            },
            None => None,
        }
    }

    /// Enlarges the blurred silhouette `blurred` to the layer size with the
    /// smooth filter and lays it over `target` at `(left, top)`.
    ///
    /// Fails with `TooLarge` on a plan that is not well formed and with
    /// `BufferMismatch` when `blurred` is not a well-formed raster of the
    /// reduced size or `target` is not well formed; `target` is then left as
    /// it was.
    pub fn composite(&self, blurred: &PixelBuffer, target: &mut PixelBuffer) -> (r: Result<(), EngineError>)
        ensures
            r matches Err(EngineError::TooLarge) <==> !self.wf(),
            r matches Err(EngineError::BufferMismatch) <==> (self.wf() && !(blurred.wf() && old(target).wf()
                && blurred.width == self.reduced_w() && blurred.height == self.reduced_h())),
            r is Ok <==> self.wf() && blurred.wf() && old(target).wf() && blurred.width == self.reduced_w()
                && blurred.height == self.reduced_h(),
            r is Err ==> *final(target) == *old(target),
            r is Ok ==> is_overlaid(
                *final(target),
                *old(target),
                self.layer_w(),
                self.layer_h(),
                resampled(
                    blurred.data@,
                    blurred.width as nat,
                    blurred.height as nat,
                    self.layer_w() as nat,
                    self.layer_h() as nat,
                    true,
                ),
                self.left as int,
                self.top as int,
            ),
    {
        let (rw, rh) = match self.reduced_size() {
            Some(d) => d,
            None => return Err(EngineError::TooLarge),
        };
        if !blurred.is_well_formed() || !target.is_well_formed() || blurred.width != rw || blurred.height != rh {
            return Err(EngineError::BufferMismatch);
        }
        let lw = rw * self.divisor;
        let lh = rh * self.divisor;
        proof {
            assert(rw * lh * 4 <= lw * lh * 4) by (nonlinear_arith)
                requires
                    lw == rw * self.divisor,
                    1 <= self.divisor,
            ;
        }
        let layer = resize(blurred, lw, lh, Resample::Smooth);
        overlay(target, &layer, self.left, self.top);
        Ok(())
    }
}

/// The plan of `profile` on a `canvas_w` by `canvas_h` canvas, around
/// content of the given size centred at the given point.
pub open spec fn plan_matches(
    plan: ShadowPlan,
    profile: ShadowProfile,
    canvas_w: int,
    canvas_h: int,
    content_w: int,
    content_h: int,
    center_x: int,
    center_y: int,
) -> bool {
    let s = scaled_of(profile, canvas_w, canvas_h);
    let short = if content_w <= content_h { content_w } else { content_h };
    &&& plan.divisor == plan_divisor(s, short)
    &&& plan.sigma == s.sigma
    &&& plan.shadow_w == plan_side(s, short, content_w)
    &&& plan.shadow_h == plan_side(s, short, content_h)
    &&& plan.padding == plan_padding(s, short)
    &&& plan.left == plan_origin(center_x, s.offset_x as int, plan_layer(s, short, content_w))
    &&& plan.top == plan_origin(center_y, s.offset_y as int, plan_layer(s, short, content_h))
    &&& plan.color == profile.color
}

/// The plan's layer fits the raster type, its bytes can be addressed, and
/// its position fits `i64`.
pub open spec fn plan_fits(
    profile: ShadowProfile,
    canvas_w: int,
    canvas_h: int,
    content_w: int,
    content_h: int,
    center_x: int,
    center_y: int,
) -> bool {
    let s = scaled_of(profile, canvas_w, canvas_h);
    let short = if content_w <= content_h { content_w } else { content_h };
    let lw = plan_layer(s, short, content_w);
    let lh = plan_layer(s, short, content_h);
    &&& lw <= u32::MAX
    &&& lh <= u32::MAX
    &&& lw * lh * 4 <= usize::MAX
    &&& i64::MIN <= plan_origin(center_x, s.offset_x as int, lw) <= i64::MAX
    &&& i64::MIN <= plan_origin(center_y, s.offset_y as int, lh) <= i64::MAX
}

fn ceil_div_exec(a: i128, d: i128) -> (r: i128)
    requires
        0 <= a <= 0x1_0000_0000_0000_0000_0000,
        1 <= d <= 8,
    ensures
        r == ceil_div(a as int, d as int),
        0 <= r <= a + 7,
        a >= 1 ==> r >= 1,
{
    proof {
        vstd::arithmetic::div_mod::lemma_div_is_ordered_by_denominator(a + d - 1, 1, d as int);
        if a >= 1 {
            vstd::arithmetic::div_mod::lemma_div_is_ordered(d as int, a + d - 1, d as int);
            vstd::arithmetic::div_mod::lemma_div_by_self(d as int);
        }
    }
    (a + d - 1) / d
}

fn side_exec(content: u32, spread: i64, d: u32) -> (r: i128)
    requires
        -0x1_0000_0000_0000_0000 <= spread <= 0x1_0000_0000_0000_0000,
        1 <= d <= 8,
    ensures
        r == silhouette_side(content as int, spread as int, d as int),
        1 <= r <= 0x10_0000_0000_0000_0000,
{
    let dd = d as i128;
    let base = ceil_div_exec(content as i128, dd);
    assert(0 <= base * dd <= 0x1_0000_0007 * 8) by (nonlinear_arith)
        requires
            0 <= base <= 0x1_0000_0007,
            1 <= dd <= 8,
    ;
    let n = base * dd + 2 * (spread as i128);
    if n <= 0 {
        1
    } else {
        ceil_div_exec(n, dd)
    }
}

/// Plans the shadow of `profile` on a `canvas_w` by `canvas_h` canvas, for
/// content of size `content_w` by `content_h` centred at
/// `(center_x, center_y)`. Fails with `TooLarge` when the layer would not
/// fit.
pub fn plan_shadow(
    profile: &ShadowProfile,
    canvas_w: u32,
    canvas_h: u32,
    content_w: u32,
    content_h: u32,
    center_x: i64,
    center_y: i64,
) -> (r: Result<ShadowPlan, EngineError>)
    ensures
        r is Ok <==> plan_fits(
            *profile,
            canvas_w as int,
            canvas_h as int,
            content_w as int,
            content_h as int,
            center_x as int,
            center_y as int,
        ),
        r matches Ok(plan) ==> plan.wf() && plan_matches(
            plan,
            *profile,
            canvas_w as int,
            canvas_h as int,
            content_w as int,
            content_h as int,
            center_x as int,
            center_y as int,
        ),
        r matches Err(e) ==> e == EngineError::TooLarge,
{
    let s = profile.scaled(canvas_w, canvas_h);
    proof {
        let m = longer_side(canvas_w as int, canvas_h as int);
        lemma_scale_close(profile.sigma as int, m);
        lemma_scale_close(profile.spread as int, m);
        lemma_scale_close(profile.offset_x as int, m);
        lemma_scale_close(profile.offset_y as int, m);
        assert(0 <= (profile.sigma as int) * m <= 0xffff_ffff * 0xffff_ffff) by (nonlinear_arith)
            requires
                0 <= profile.sigma <= 0xffff_ffff,
                0 <= m <= 0xffff_ffff,
        ;
        assert(-0x8000_0000 * 0xffff_ffff <= (profile.spread as int) * m <= 0x8000_0000 * 0xffff_ffff)
            by (nonlinear_arith)
            requires
                -0x8000_0000 <= profile.spread <= 0x8000_0000,
                0 <= m <= 0xffff_ffff,
        ;
        assert(-0x8000_0000 * 0xffff_ffff <= (profile.offset_x as int) * m <= 0x8000_0000 * 0xffff_ffff)
            by (nonlinear_arith)
            requires
                -0x8000_0000 <= profile.offset_x <= 0x8000_0000,
                0 <= m <= 0xffff_ffff,
        ;
        assert(-0x8000_0000 * 0xffff_ffff <= (profile.offset_y as int) * m <= 0x8000_0000 * 0xffff_ffff)
            by (nonlinear_arith)
            requires
                -0x8000_0000 <= profile.offset_y <= 0x8000_0000,
                0 <= m <= 0xffff_ffff,
        ;
    }
    let short = if content_w <= content_h { content_w } else { content_h };
    let d = scale_divisor_for(s.sigma as u64, short);
    let dd = d as i128;
    let pad = ceil_div_exec(3 * (s.sigma as i128), dd);
    let sw = side_exec(content_w, s.spread, d);
    let sh = side_exec(content_h, s.spread, d);
    let tw = sw + 2 * pad;
    let th = sh + 2 * pad;
    assert(tw * dd <= 0x100_0000_0000_0000_0000 && th * dd <= 0x100_0000_0000_0000_0000) by (nonlinear_arith)
        requires
            1 <= tw <= 0x20_0000_0000_0000_0000,
            1 <= th <= 0x20_0000_0000_0000_0000,
            1 <= dd <= 8,
    ;
    let lw = tw * dd;
    let lh = th * dd;
    if lw > u32::MAX as i128 || lh > u32::MAX as i128 {
        return Err(EngineError::TooLarge);
    }
    assert(sw <= lw && sh <= lh && pad <= lw) by (nonlinear_arith)
        requires
            lw == tw * dd,
            lh == th * dd,
            tw == sw + 2 * pad,
            th == sh + 2 * pad,
            1 <= dd,
            0 <= pad,
            1 <= sw,
            1 <= sh,
    ;
    match PixelBuffer::byte_len(lw as u32, lh as u32) {
        Some(_) => {},
        None => return Err(EngineError::TooLarge),
    }
    let left = center_x as i128 + s.offset_x as i128 - lw / 2;
    let top = center_y as i128 + s.offset_y as i128 - lh / 2;
    if left < i64::MIN as i128 || left > i64::MAX as i128 || top < i64::MIN as i128 || top > i64::MAX as i128 {
        return Err(EngineError::TooLarge);
    }
    Ok(
        ShadowPlan {
            divisor: d,
            sigma: s.sigma,
            shadow_w: sw as u32,
            shadow_h: sh as u32,
            padding: pad as u32,
            left: left as i64,
            top: top as i64,
            color: profile.color,
        },
    )
}

proof fn lemma_ceil_div_bounds(a: int, d: int)
    requires
        0 <= a,
        1 <= d,
    ensures
        a <= ceil_div(a, d) * d <= a + d - 1,
        0 <= ceil_div(a, d),
{
    let n = a + d - 1;
    vstd::arithmetic::div_mod::lemma_fundamental_div_mod(n, d);
    let q = n / d;
    assert(a <= q * d <= a + d - 1 && 0 <= q) by (nonlinear_arith)
        requires
            n == d * q + n % d,
            0 <= n % d < d,
            n == a + d - 1,
            d >= 1,
            a >= 0,
    ;
}

/// The shadow layer's extent along one axis: the content side, grown by
/// twice the rescaled spread and by three rescaled sigmas of fade-out on
/// each side, exact up to rounding each term to whole reduced pixels (less
/// than four reduced pixels in all). Together with [`lemma_scale_invariance`]
/// this keeps the shadow's size, as a fraction of the canvas, the same on
/// canvases of any size.
pub proof fn lemma_layer_extent(s: ScaledShadow, short: int, content: int)
    requires
        0 <= content,
        0 <= s.sigma,
        ceil_div(content, plan_divisor(s, short)) * plan_divisor(s, short) + 2 * s.spread > 0,
    ensures
        ({
            let d = plan_divisor(s, short);
            let l = plan_layer(s, short, content);
            &&& 1 <= d <= 8
            &&& content + 2 * s.spread + 6 * s.sigma <= l <= content + 2 * s.spread + 6 * s.sigma + 4 * (d - 1)
        }),
{
    let d = plan_divisor(s, short);
    reveal_with_fuel(crate::blur::floored_divisor, 4);
    assert(1 <= d <= 8);
    let base = ceil_div(content, d);
    lemma_ceil_div_bounds(content, d);
    let n = base * d + 2 * s.spread;
    lemma_ceil_div_bounds(n, d);
    lemma_ceil_div_bounds(3 * s.sigma, d);
    let side = plan_side(s, short, content);
    let pad = plan_padding(s, short);
    assert(plan_layer(s, short, content) == side * d + 2 * (pad * d)) by (nonlinear_arith)
        requires
            plan_layer(s, short, content) == (side + 2 * pad) * d,
    ;
}

/// The framed-photo pipeline keeps the photo intact: a photo with every
/// pixel opaque, expanded over an opaque background, with any shadow layer
/// laid over the canvas and the photo pasted back where it was, gives a
/// canvas that is opaque everywhere and holds the photo byte for byte.
pub proof fn lemma_framed_photo(
    photo: PixelBuffer,
    bg: Rgba8,
    top: int,
    left: int,
    cw: int,
    ch: int,
    c0: PixelBuffer,
    sw: int,
    sh: int,
    shadow: Seq<u8>,
    sx: int,
    sy: int,
    c1: PixelBuffer,
    c2: PixelBuffer,
)
    requires
        photo.wf(),
        forall|x: int, y: int| 0 <= x < photo.width && 0 <= y < photo.height ==> #[trigger] photo.at(x, y, 3) == 255,
        bg.a == 255,
        0 <= top,
        0 <= left,
        left + photo.width <= cw,
        top + photo.height <= ch,
        is_canvas_of(c0, photo, top, left, cw, ch, bg),
        is_overlaid(c1, c0, sw, sh, shadow, sx, sy),
        is_overlaid(c2, c1, photo.width as int, photo.height as int, photo.data@, left, top),
    ensures
        c2.width == cw,
        c2.height == ch,
        forall|px: int, py: int| 0 <= px < cw && 0 <= py < ch ==> #[trigger] c2.at(px, py, 3) == 255,
        forall|i: int, j: int, c: int|
            0 <= i < photo.width && 0 <= j < photo.height && 0 <= c < 4 ==> #[trigger] c2.at(left + i, top + j, c)
                == photo.at(i, j, c),
{
    assert forall|px: int, py: int| 0 <= px < cw && 0 <= py < ch implies #[trigger] c0.at(px, py, 3) == 255 by {
        let k = 4 * px + 3;
        assert(k / 4 == px && k % 4 == 3) by (nonlinear_arith)
            requires
                k == 4 * px + 3,
                0 <= px,
        ;
        assert(c0.at(px, py, 3) == c0.data@[py * stride(cw) + k]);
        assert(c0.data@[py * stride(cw) + k] == canvas_byte(photo, top, left, bg, py, k));
        if top <= py < top + photo.height && left <= px < left + photo.width {
            assert(k - 4 * left == 4 * (px - left) + 3);
            assert(photo.at(px - left, py - top, 3) == 255);
        }
    }
    lemma_paste_properties(c1, c0, sw, sh, shadow, sx, sy);
    lemma_paste_properties(c2, c1, photo.width as int, photo.height as int, photo.data@, left, top);
    assert forall|i: int, j: int, c: int|
        0 <= i < photo.width && 0 <= j < photo.height && 0 <= c < 4 implies #[trigger] c2.at(left + i, top + j, c)
            == photo.at(i, j, c) by {
        assert(photo.data@[byte_index(photo.width as int, i, j, 3)] == photo.at(i, j, 3));
    }
}

impl ShadowProfile {
    /// Light and tight: small raised elements.
    pub fn preset_subtle() -> (p: Self)
        ensures
            p == (ShadowProfile { sigma: 10, offset_x: 0, offset_y: 10, spread: -2i32, color: Rgba8 { r: 0, g: 0, b: 0, a: 160 } }),
    {
        ShadowProfile { sigma: 10, offset_x: 0, offset_y: 10, spread: -2, color: Rgba8 { r: 0, g: 0, b: 0, a: 160 } }
    }

    /// Dark and solid: cards and framed photos.
    pub fn preset_standard() -> (p: Self)
        ensures
            p == (ShadowProfile { sigma: 15, offset_x: 0, offset_y: 15, spread: -5i32, color: Rgba8 { r: 0, g: 0, b: 0, a: 190 } }),
    {
        ShadowProfile { sigma: 15, offset_x: 0, offset_y: 15, spread: -5, color: Rgba8 { r: 0, g: 0, b: 0, a: 190 } }
    }

    /// Wide and deep: elements that float well above the page.
    pub fn preset_floating() -> (p: Self)
        ensures
            p == (ShadowProfile { sigma: 25, offset_x: 0, offset_y: 30, spread: -8i32, color: Rgba8 { r: 0, g: 0, b: 0, a: 210 } }),
    {
        ShadowProfile { sigma: 25, offset_x: 0, offset_y: 30, spread: -8, color: Rgba8 { r: 0, g: 0, b: 0, a: 210 } }
    }

    pub fn new(sigma: u32, offset: (i32, i32), spread: i32, color: Rgba8) -> (p: Self)
        ensures
            p == (ShadowProfile { sigma, offset_x: offset.0, offset_y: offset.1, spread, color }),
    {
        ShadowProfile { sigma, offset_x: offset.0, offset_y: offset.1, spread, color }
    }

    pub fn with_color(self, color: Rgba8) -> (p: Self)
        ensures
            p == (ShadowProfile { color, ..self }),
    {
        ShadowProfile { color, ..self }
    }

    pub fn with_offset(self, x: i32, y: i32) -> (p: Self)
        ensures
            p == (ShadowProfile { offset_x: x, offset_y: y, ..self }),
    {
        ShadowProfile { offset_x: x, offset_y: y, ..self }
    }

    pub fn with_sigma(self, sigma: u32) -> (p: Self)
        ensures
            p == (ShadowProfile { sigma, ..self }),
    {
        ShadowProfile { sigma, ..self }
    }

    /// The profile on a `canvas_w` by `canvas_h` canvas: every length
    /// multiplied by the longer side over the reference size.
    pub fn scaled(&self, canvas_w: u32, canvas_h: u32) -> (s: ScaledShadow)
        ensures
            s == scaled_of(*self, canvas_w as int, canvas_h as int),
    {
        let m = if canvas_w >= canvas_h { canvas_w } else { canvas_h };
        ScaledShadow {
            sigma: scale_len(self.sigma as i64, m),
            offset_x: scale_len(self.offset_x as i64, m),
            offset_y: scale_len(self.offset_y as i64, m),
            spread: scale_len(self.spread as i64, m),
            color: self.color,
        }
    }
}

} // verus!
