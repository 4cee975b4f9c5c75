//! Rounded corners drawn by touching only the four `r` by `r` corner squares
//! of a rectangle: a squared-distance test against the arc centre, with a one
//! pixel wide anti-aliased band along the arc.

use vstd::prelude::*;
use crate::pixel::{PixelBuffer, Rgba8};

verus! {

/// An axis-aligned rectangle of pixels.
#[derive(Clone, Copy, Debug, PartialEq, Eq, Structural)]
pub struct Rect {
    pub x: u32,
    pub y: u32,
    pub width: u32,
    pub height: u32,
}

/// What happens to a corner pixel that lies partly or wholly outside the arc.
#[derive(Clone, Copy, Debug, PartialEq, Eq, Structural)]
pub enum CornerPaint {
    /// The pixel's alpha is scaled by its coverage: the element itself is rounded.
    Fade,
    /// The colour is mixed toward this one as coverage drops: a background
    /// fill hides the corner of what lies under it.
    Fill(Rgba8),
}

/// The radius actually used: never more than half the shorter side.
pub open spec fn effective_radius(rect: Rect, radius: u32) -> int {
    let half = if rect.width <= rect.height { rect.width / 2 } else { rect.height / 2 };
    if radius <= half { radius as int } else { half as int }
}

/// Twice the distance, along one axis, from the centre of pixel `d` of an
/// `r`-wide corner band to the arc centre; `low` when the corner is at the
/// band's low end.
pub open spec fn arc_offset2(r: int, d: int, low: bool) -> int {
    if low { 2 * r - 2 * d - 1 } else { 2 * d + 1 }
}

pub open spec fn is_floor_sqrt(s: int, n: int) -> bool {
    0 <= s && s * s <= n < (s + 1) * (s + 1)
}

/// The integer square root, rounded down.
pub open spec fn floor_sqrt(n: int) -> int {
    choose|s: int| is_floor_sqrt(s, n)
}

/// How much of pixel `(dx, dy)` of a corner square lies inside the arc, in
/// 255ths: 0 outside the radius, 255 inside radius minus one, and
/// `clamp(r - dist, 0, 1)` across the band between.
pub open spec fn coverage(r: int, dx: int, dy: int, left: bool, top: bool) -> int {
    let ox = arc_offset2(r, dx, left);
    let oy = arc_offset2(r, dy, top);
    let d2 = ox * ox + oy * oy;
    if d2 > 4 * r * r {
        0
    } else if d2 > 4 * (r - 1) * (r - 1) {
        let v = (510 * r - floor_sqrt(65025 * d2)) / 2;
        if v > 255 { 255 } else { v }
    } else {
        255
    }
}

/// Channel `c`, now `v`, of a pixel with coverage `cov`.
pub open spec fn painted(v: u8, c: int, cov: int, mode: CornerPaint) -> int {
    match mode {
        CornerPaint::Fade => if c == 3 { (v * cov + 127) / 255 } else { v as int },
        CornerPaint::Fill(f) => (f.channel(c) * (255 - cov) + v * cov + 127) / 255,
    }
}

/// Left edge of the corner square on the given side.
pub open spec fn square_x(rect: Rect, r: int, left: bool) -> int {
    if left { rect.x as int } else { rect.x + rect.width - r }
}

pub open spec fn square_y(rect: Rect, r: int, top: bool) -> int {
    if top { rect.y as int } else { rect.y + rect.height - r }
}

pub open spec fn in_square(rect: Rect, r: int, left: bool, top: bool, px: int, py: int) -> bool {
    square_x(rect, r, left) <= px < square_x(rect, r, left) + r && square_y(rect, r, top) <= py < square_y(
        rect,
        r,
        top,
    ) + r
}

/// Channel `c` of pixel `(px, py)` after the corner square on the given side
/// has been painted, when it was `v` before.
pub open spec fn after_square(rect: Rect, r: int, left: bool, top: bool, mode: CornerPaint, px: int, py: int, c: int, v: u8) -> int {
    if in_square(rect, r, left, top, px, py) {
        painted(
            v,
            c,
            coverage(r, px - square_x(rect, r, left), py - square_y(rect, r, top), left, top),
            mode,
        )
    } else {
        v as int
    }
}

/// Channel `c` of pixel `(px, py)` after all four corners of `rect` have been
/// painted with radius `r`, when it was `v` before.
pub open spec fn after_corners(rect: Rect, r: int, mode: CornerPaint, px: int, py: int, c: int, v: u8) -> int {
    if in_square(rect, r, true, true, px, py) {
        after_square(rect, r, true, true, mode, px, py, c, v)
    } else if in_square(rect, r, false, true, px, py) {
        after_square(rect, r, false, true, mode, px, py, c, v)
    } else if in_square(rect, r, true, false, px, py) {
        after_square(rect, r, true, false, mode, px, py, c, v)
    } else {
        after_square(rect, r, false, false, mode, px, py, c, v)
    }
}

proof fn lemma_floor_sqrt_unique(s: int, t: int, n: int)
    requires
        is_floor_sqrt(s, n),
        is_floor_sqrt(t, n),
    ensures
        s == t,
{
    if s < t {
        assert((s + 1) * (s + 1) <= t * t) by (nonlinear_arith)
            requires
                0 <= s + 1 <= t,
        ;
    } else if t < s {
        assert((t + 1) * (t + 1) <= s * s) by (nonlinear_arith)
            requires
                0 <= t + 1 <= s,
        ;
    }
}

/// The integer square root of `n`, by bisection.
pub fn isqrt(n: u128) -> (s: u128)
    ensures
        s == floor_sqrt(n as int),
        is_floor_sqrt(s as int, n as int),
{
    let mut lo: u128 = 0;
    let mut hi: u128 = 0x1_0000_0000_0000_0000;
    assert(n < hi * hi) by (nonlinear_arith)
        requires
            n <= u128::MAX,
            hi == 0x1_0000_0000_0000_0000u128,
    ;
    while hi - lo > 1
        invariant
            lo < hi <= 0x1_0000_0000_0000_0000u128,
            lo * lo <= n,
            n < hi * hi,
        decreases hi - lo,
    {
        let mid = lo + (hi - lo) / 2;
        assert(mid * mid <= u128::MAX) by (nonlinear_arith)
            requires
                mid < 0x1_0000_0000_0000_0000u128,
        ;
        if mid * mid <= n {
            lo = mid;
        } else {
            hi = mid;
        }
    }
    proof {
        assert(is_floor_sqrt(lo as int, n as int));
        lemma_floor_sqrt_unique(lo as int, floor_sqrt(n as int), n as int);
    }
    lo
}

/// The coverage of pixel `(dx, dy)` of a corner square of radius `r`.
pub fn corner_coverage(r: u32, dx: u32, dy: u32, left: bool, top: bool) -> (v: u32)
    requires
        dx < r,
        dy < r,
    ensures
        v == coverage(r as int, dx as int, dy as int, left, top),
        v <= 255,
{
    let r2 = 2 * (r as u128);
    let ox: u128 = if left { r2 - 2 * (dx as u128) - 1 } else { 2 * (dx as u128) + 1 };
    let oy: u128 = if top { r2 - 2 * (dy as u128) - 1 } else { 2 * (dy as u128) + 1 };
    assert(ox * ox <= 0x4_0000_0000_0000_0000u128 && oy * oy <= 0x4_0000_0000_0000_0000u128) by (nonlinear_arith)
        requires
            0 <= ox <= r2,
            0 <= oy <= r2,
            r2 <= 0x2_0000_0000u128,
    ;
    let d2 = ox * ox + oy * oy;
    let rr = r as u128;
    assert(4 * rr * rr <= 0x4_0000_0000_0000_0000u128 && 4 * (rr - 1) * (rr - 1) <= 4 * rr * rr) by (nonlinear_arith)
        requires
            1 <= rr <= 0x1_0000_0000u128,
    ;
    if d2 > 4 * rr * rr {
        0
    } else if d2 > 4 * (rr - 1) * (rr - 1) {
        let s = isqrt(65025 * d2);
        proof {
            assert(s <= 510 * rr) by (nonlinear_arith)
                requires
                    s * s <= 65025 * d2,
                    d2 <= 4 * rr * rr,
                    0 <= s,
                    0 <= rr,
            ;
        }
        let v = (510 * rr - s) / 2;
        if v > 255 {
            255
        } else {
            v as u32
        }
    } else {
        255
    }
}

/// Channel `c` of a pixel now holding `v`, once painted with coverage `cov`.
fn paint_channel(v: u8, c: usize, cov: u32, mode: CornerPaint) -> (out: u8)
    requires
        c < 4,
        cov <= 255,
    ensures
        out == painted(v, c as int, cov as int, mode),
{
    match mode {
        CornerPaint::Fade => {
            if c == 3 {
                assert(v * cov <= 65025) by (nonlinear_arith)
                    requires
                        v <= 255,
                        cov <= 255,
                ;
                let t = (v as u32) * cov + 127;
                assert(t / 255 <= 255) by (nonlinear_arith)
                    requires
                        t == v * cov + 127,
                        v <= 255,
                        cov <= 255,
                ;
                (t / 255) as u8
            } else {
                v
            }
        },
        CornerPaint::Fill(f) => {
            let fc = f.get(c) as u32;
            assert(fc * (255 - cov) + v * cov <= 65025) by (nonlinear_arith)
                requires
                    v <= 255,
                    fc <= 255,
                    cov <= 255,
            ;
            let t = fc * (255 - cov) + (v as u32) * cov + 127;
            assert(t / 255 <= 255) by (nonlinear_arith)
                requires
                    t == fc * (255 - cov) + v * cov + 127,
                    v <= 255,
                    fc <= 255,
                    cov <= 255,
            ;
            (t / 255) as u8
        },
    }
}

/// Paints the corner square of radius `r` on the given side of `rect`,
/// skipping whatever falls outside `target`.
fn paint_square(target: &mut PixelBuffer, rect: Rect, r: u32, left: bool, top: bool, mode: CornerPaint)
    requires
        old(target).wf(),
        r <= rect.width,
        r <= rect.height,
    ensures
        final(target).width == old(target).width,
        final(target).height == old(target).height,
        final(target).wf(),
        forall|px: int, py: int, c: int|
            0 <= px < old(target).width && 0 <= py < old(target).height && 0 <= c < 4 ==> #[trigger] final(target).at(px, py, c) == after_square(rect, r as int, left, top, mode, px, py, c, old(target).at(px, py, c)),
{
    let sx: u64 = if left { rect.x as u64 } else { rect.x as u64 + rect.width as u64 - r as u64 };
    let sy: u64 = if top { rect.y as u64 } else { rect.y as u64 + rect.height as u64 - r as u64 };
    let ghost orig = *target;
    let ghost ri = r as int;
    let mut dy: u32 = 0;
    while dy < r
        invariant
            dy <= r,
            sx == square_x(rect, ri, left),
            sy == square_y(rect, ri, top),
            ri == r,
            target.wf(),
            target.width == orig.width,
            target.height == orig.height,
            forall|px: int, py: int, c: int|
                0 <= px < orig.width && 0 <= py < orig.height && 0 <= c < 4 ==> #[trigger] target.at(px, py, c)
                    == if in_square(rect, ri, left, top, px, py) && py < sy + dy {
                    after_square(rect, ri, left, top, mode, px, py, c, orig.at(px, py, c))
                } else {
                    orig.at(px, py, c) as int
                },
        decreases r - dy,
    {
        let mut dx: u32 = 0;
        while dx < r
            invariant
                dy < r,
                dx <= r,
                sx == square_x(rect, ri, left),
                sy == square_y(rect, ri, top),
                ri == r,
                target.wf(),
                target.width == orig.width,
                target.height == orig.height,
                forall|px: int, py: int, c: int|
                    0 <= px < orig.width && 0 <= py < orig.height && 0 <= c < 4 ==> #[trigger] target.at(px, py, c)
                        == if in_square(rect, ri, left, top, px, py) && (py < sy + dy || (py == sy + dy && px < sx
                        + dx)) {
                        after_square(rect, ri, left, top, mode, px, py, c, orig.at(px, py, c))
                    } else {
                        orig.at(px, py, c) as int
                    },
            decreases r - dx,
        {
            let px = sx + dx as u64;
            let py = sy + dy as u64;
            if px < target.width as u64 && py < target.height as u64 {
                let cov = corner_coverage(r, dx, dy, left, top);
                let p = target.get_pixel(px as u32, py as u32);
                let q = Rgba8 {
                    r: paint_channel(p.r, 0, cov, mode),
                    g: paint_channel(p.g, 1, cov, mode),
                    b: paint_channel(p.b, 2, cov, mode),
                    a: paint_channel(p.a, 3, cov, mode),
                };
                proof {
                    assert(p.channel(0) == p.r && p.channel(1) == p.g && p.channel(2) == p.b && p.channel(3) == p.a);
                }
                target.put_pixel(px as u32, py as u32, q);
                proof {
                    assert forall|c: int| 0 <= c < 4 implies #[trigger] target.at(px as int, py as int, c)
                        == after_square(rect, ri, left, top, mode, px as int, py as int, c, orig.at(px as int, py as int, c)) by {
                        assert(q.channel(c) == painted(p.channel(c), c, cov as int, mode));
                    }
                }
            }
            dx = dx + 1;
        }
        dy = dy + 1;
    }
}

/// Paints the four corners of `rect`, radius clamped to half the shorter
/// side. Only pixels in the four corner squares can change: the cross
/// between them is never read or written.
pub fn paint_corners(target: &mut PixelBuffer, rect: Rect, radius: u32, mode: CornerPaint)
    requires
        old(target).wf(),
    ensures
        final(target).width == old(target).width,
        final(target).height == old(target).height,
        final(target).wf(),
        forall|px: int, py: int, c: int|
            0 <= px < old(target).width && 0 <= py < old(target).height && 0 <= c < 4 ==> #[trigger] final(target).at(px, py, c) == after_corners(
                rect,
                effective_radius(rect, radius),
                mode,
                px,
                py,
                c,
                old(target).at(px, py, c),
            ),
{
    let half = if rect.width <= rect.height { rect.width / 2 } else { rect.height / 2 };
    let r = if radius <= half { radius } else { half };
    let ghost orig = *target;
    let ghost ri = r as int;
    if r == 0 {
        return;
    }
    paint_square(target, rect, r, true, true, mode);
    paint_square(target, rect, r, false, true, mode);
    paint_square(target, rect, r, true, false, mode);
    paint_square(target, rect, r, false, false, mode);
}

/// Rounds the corners of the element occupying `rect` by scaling alpha with
/// coverage.
pub fn apply_rounded_corners(target: &mut PixelBuffer, rect: Rect, radius: u32)
    requires
        old(target).wf(),
    ensures
        final(target).width == old(target).width,
        final(target).height == old(target).height,
        final(target).wf(),
        forall|px: int, py: int, c: int|
            0 <= px < old(target).width && 0 <= py < old(target).height && 0 <= c < 4 ==> #[trigger] final(target).at(px, py, c) == after_corners(
                rect,
                effective_radius(rect, radius),
                CornerPaint::Fade,
                px,
                py,
                c,
                old(target).at(px, py, c),
            ),
{
    paint_corners(target, rect, radius, CornerPaint::Fade)
}

/// Paints `bg_color` over the corners of the `img_w` by `img_h` image placed
/// at `(img_x, img_y)` on `canvas`, so that on a background of that colour the
/// image looks rounded.
pub fn apply_inverse_corner_mask(
    canvas: &mut PixelBuffer,
    img_x: u32,
    img_y: u32,
    img_w: u32,
    img_h: u32,
    radius: u32,
    bg_color: Rgba8,
)
    requires
        old(canvas).wf(),
    ensures
        final(canvas).width == old(canvas).width,
        final(canvas).height == old(canvas).height,
        final(canvas).wf(),
        forall|px: int, py: int, c: int|
            0 <= px < old(canvas).width && 0 <= py < old(canvas).height && 0 <= c < 4 ==> #[trigger] final(canvas).at(px, py, c) == after_corners(
                Rect { x: img_x, y: img_y, width: img_w, height: img_h },
                effective_radius(Rect { x: img_x, y: img_y, width: img_w, height: img_h }, radius),
                CornerPaint::Fill(bg_color),
                px,
                py,
                c,
                old(canvas).at(px, py, c),
            ),
{
    paint_corners(
        canvas,
        Rect { x: img_x, y: img_y, width: img_w, height: img_h },
        radius,
        CornerPaint::Fill(bg_color),
    )
}

/// Corner masking is corner-local: a pixel outside the four corner squares,
/// or inside one but wholly within the arc, keeps every channel.
pub proof fn lemma_corner_masking_is_local(rect: Rect, radius: u32, mode: CornerPaint, px: int, py: int, c: int, v: u8)
    requires
        0 <= c < 4,
    ensures
        ({
            let r = effective_radius(rect, radius);
            (!in_square(rect, r, true, true, px, py) && !in_square(rect, r, false, true, px, py) && !in_square(
                rect,
                r,
                true,
                false,
                px,
                py,
            ) && !in_square(rect, r, false, false, px, py)) ==> after_corners(rect, r, mode, px, py, c, v) == v
        }),
        painted(v, c, 255, mode) == v,
{
    assert((v * 255 + 127) / 255 == v) by (nonlinear_arith)
        requires
            0 <= v <= 255,
    ;
    match mode {
        CornerPaint::Fill(f) => {
            assert((f.channel(c) * (255 - 255) + v * 255 + 127) / 255 == v) by (nonlinear_arith)
                requires
                    0 <= v <= 255,
            ;
        },
        CornerPaint::Fade => {},
    }
}

} // verus!
