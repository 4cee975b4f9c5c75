//! Text layers: synthetic bold by stamping a glyph run at a ring of small
//! offsets on a supersampled buffer, italic by shearing rows, then one smooth
//! reduction and a paste onto the canvas. Glyph rasterisation itself is left
//! to the caller; this module fixes the geometry around it.

use vstd::prelude::*;
use crate::pixel::{EngineError, PixelBuffer};
use crate::imaging::{Resample, resampled, resize, overlay, is_overlaid};

verus! {

/// Linear factor of the supersampled buffer.
pub const SUPERSAMPLE: u32 = 2;

/// Where the glyph run starts inside the supersampled buffer.
pub const STAMP_ORIGIN: i32 = 10;

/// How far up and left of the requested origin the reduced layer is pasted.
pub const PASTE_SHIFT: i32 = 5;

/// Italic shear, as `SKEW_NUM / SKEW_DEN` pixels per row.
pub const SKEW_NUM: u32 = 23;

pub const SKEW_DEN: u32 = 100;

/// Synthetic weight of a text run.
#[derive(Clone, Copy, Debug, PartialEq, Eq, Structural)]
pub enum WeightMode {
    Normal,
    Medium,
    Bold,
    ExtraBold,
}

/// Horizontal alignment of a text run about its anchor.
#[derive(Clone, Copy, Debug, PartialEq, Eq, Structural)]
pub enum TextAlign {
    Left,
    Center,
    Right,
}

pub open spec fn intensity_of(mode: WeightMode) -> int {
    match mode {
        WeightMode::Normal => 0,
        WeightMode::Medium => 1,
        WeightMode::Bold => 2,
        WeightMode::ExtraBold => 3,
    }
}

/// The stamp positions, relative to the glyph origin: the origin itself,
/// then for a heavier weight the eight points of a ring whose radius is the
/// weight's intensity.
pub open spec fn stamps_of(mode: WeightMode) -> Seq<(i32, i32)> {
    let i = intensity_of(mode) as i32;
    let n = (0 - intensity_of(mode)) as i32;
    if i == 0 {
        seq![(0i32, 0i32)]
    } else {
        seq![(0i32, 0i32), (i, 0i32), (n, 0i32), (0i32, i), (0i32, n), (i, i), (n, n), (i, n), (n, i)]
    }
}

impl WeightMode {
    pub fn offset_intensity(&self) -> (i: i32)
        ensures
            i == intensity_of(*self),
    {
        match self {
            WeightMode::Normal => 0,
            WeightMode::Medium => 1,
            WeightMode::Bold => 2,
            WeightMode::ExtraBold => 3,
        }
    }

    /// Where to stamp the glyph run, relative to its origin.
    pub fn stamp_offsets(&self) -> (v: Vec<(i32, i32)>)
        ensures
            v@ == stamps_of(*self),
    {
        let i = self.offset_intensity();
        let n = 0 - i;
        if i == 0 {
            let v = vec![(0i32, 0i32)];
            assert(v@ =~= stamps_of(*self));
            v
        } else {
            let v = vec![(0i32, 0i32), (i, 0i32), (n, 0i32), (0i32, i), (0i32, n), (i, i), (n, n), (i, n), (n, i)];
            assert(v@ =~= stamps_of(*self));
            v
        }
    }

    /// A normal run is drawn straight onto the canvas; heavier ones go
    /// through a supersampled layer.
    pub fn needs_layer(&self) -> (b: bool)
        ensures
            b == (*self != WeightMode::Normal),
    {
        match self {
            WeightMode::Normal => false,
            _ => true,
        }
    }
}

/// Where a run `w` pixels wide starts when anchored at `x`.
pub open spec fn aligned_left(x: int, w: int, align: TextAlign) -> int {
    match align {
        TextAlign::Left => x,
        TextAlign::Center => x - w / 2,
        TextAlign::Right => x - w,
    }
}

pub fn aligned_x(x: i64, w: u32, align: TextAlign) -> (r: i64)
    requires
        i64::MIN + 0x1_0000_0000 <= x,
    ensures
        r == aligned_left(x as int, w as int, align),
{
    match align {
        TextAlign::Left => x,
        TextAlign::Center => x - (w / 2) as i64,
        TextAlign::Right => x - w as i64,
    }
}

/// The left edge that centres a run of the measured width on `center`.
pub fn centered_left(center: i64, width: u32) -> (r: i64)
    requires
        i64::MIN + 0x1_0000_0000 <= center,
    ensures
        r == aligned_left(center as int, width as int, TextAlign::Center),
{
    aligned_x(center, width, TextAlign::Center)
}

/// A run centred with its measured width has its bounds `[left, left + w)`
/// centred on the anchor to within one pixel: the two margins from the
/// anchor differ by at most one.
pub proof fn lemma_centered_within_one_pixel(center: int, w: int)
    requires
        w >= 0,
    ensures
        ({
            let left = aligned_left(center, w, TextAlign::Center);
            let right = left + w;
            &&& left <= center <= right
            &&& 0 <= (right - center) - (center - left) <= 1
        }),
{
}

/// The geometry of a supersampled text layer.
#[derive(Clone, Copy, Debug, PartialEq, Eq, Structural)]
pub struct TextLayerPlan {
    /// Size of the supersampled buffer the glyph run is stamped into.
    pub temp_w: u32,
    pub temp_h: u32,
    /// Size after the smooth reduction.
    pub final_w: u32,
    pub final_h: u32,
    /// Where the reduced layer lands on the canvas.
    pub paste_x: i64,
    pub paste_y: i64,
}

/// The layer for a run measured `text_w` by `text_h` at target scale, drawn
/// at `(x, y)`: twice the size plus a margin that grows with the weight, and
/// halved again before the paste.
pub open spec fn plan_matches(p: TextLayerPlan, text_w: int, text_h: int, mode: WeightMode, x: int, y: int) -> bool {
    let padding = intensity_of(mode) * 4 + 20;
    &&& p.temp_w == text_w * 2 + padding
    &&& p.temp_h == text_h * 2 + padding
    &&& p.final_w == p.temp_w / 2
    &&& p.final_h == p.temp_h / 2
    &&& p.paste_x == x - 5
    &&& p.paste_y == y - 5
}

/// Plans the supersampled layer of a run; fails with `TooLarge` when the
/// buffer could not be addressed.
pub fn plan_text_layer(text_w: u32, text_h: u32, mode: WeightMode, x: i32, y: i32) -> (r: Result<TextLayerPlan, EngineError>)
    ensures
        r is Err <==> ({
            let padding = intensity_of(mode) * 4 + 20;
            text_w * 2 + padding > u32::MAX || text_h * 2 + padding > u32::MAX || (text_w * 2 + padding) * (text_h
                * 2 + padding) * 4 > usize::MAX
        }),
        r matches Err(e) ==> e == EngineError::TooLarge,
        r matches Ok(p) ==> plan_matches(p, text_w as int, text_h as int, mode, x as int, y as int),
{
    let padding = (mode.offset_intensity() * 4 + 20) as u64;
    let tw = text_w as u64 * 2 + padding;
    let th = text_h as u64 * 2 + padding;
    if tw > u32::MAX as u64 || th > u32::MAX as u64 {
        return Err(EngineError::TooLarge);
    }
    match PixelBuffer::byte_len(tw as u32, th as u32) {
        Some(_) => {},
        None => return Err(EngineError::TooLarge),
    }
    Ok(
        TextLayerPlan {
            temp_w: tw as u32,
            temp_h: th as u32,
            final_w: (tw / 2) as u32,
            final_h: (th / 2) as u32,
            paste_x: x as i64 - 5,
            paste_y: y as i64 - 5,
        },
    )
}

/// Reduces the stamped layer `temp` by the supersampling factor with the
/// smooth filter and pastes it onto `canvas` at the plan's paste point. The
/// layer may be wider than planned, as after a shear.
///
/// Fails with `BufferMismatch`, leaving `canvas` as it was, when either
/// raster is not well formed.
pub fn finish_text_layer(plan: &TextLayerPlan, temp: &PixelBuffer, canvas: &mut PixelBuffer) -> (r: Result<(), EngineError>)
    ensures
        r is Err <==> !(temp.wf() && old(canvas).wf()),
        r matches Err(e) ==> e == EngineError::BufferMismatch,
        r is Err ==> *final(canvas) == *old(canvas),
        r is Ok ==> is_overlaid(
            *final(canvas),
            *old(canvas),
            temp.width as int / 2,
            temp.height as int / 2,
            resampled(
                temp.data@,
                temp.width as nat,
                temp.height as nat,
                (temp.width / 2) as nat,
                (temp.height / 2) as nat,
                true,
            ),
            plan.paste_x as int,
            plan.paste_y as int,
        ),
{
    if !temp.is_well_formed() || !canvas.is_well_formed() {
        return Err(EngineError::BufferMismatch);
    }
    let _len = temp.data.len();
    let fw = temp.width / SUPERSAMPLE;
    let fh = temp.height / SUPERSAMPLE;
    proof {
        assert(fw * fh * 4 <= temp.width * temp.height * 4 && temp.width * fh * 4 <= temp.width * temp.height * 4)
            by (nonlinear_arith)
            requires
                fw <= temp.width,
                fh <= temp.height,
        ;
    }
    let layer = resize(temp, fw, fh, Resample::Smooth);
    overlay(canvas, &layer, plan.paste_x, plan.paste_y);
    Ok(())
}

/// The italic shift of row `y` of a run `h` rows tall: `(h - y) * num / den`
/// rounded to the nearest pixel, so the bottom row stays and the top leans
/// right.
pub open spec fn shear_shift(h: int, y: int, num: int, den: int) -> int {
    ((h - y) * num * 2 + den) / (2 * den)
}

/// `out` is `src` with each row `y` moved right by its shear shift, on a
/// transparent background wide enough for the top row.
pub open spec fn is_sheared(out: PixelBuffer, src: PixelBuffer, num: int, den: int) -> bool {
    let h = src.height as int;
    &&& out.height == src.height
    &&& out.width == src.width + shear_shift(h, 0, num, den)
    &&& out.wf()
    &&& forall|x: int, y: int, c: int|
        0 <= x < out.width && 0 <= y < h && 0 <= c < 4 ==> #[trigger] out.at(x, y, c) == {
            let s = shear_shift(h, y, num, den);
            if s <= x < s + src.width {
                src.at(x - s, y, c)
            } else {
                0u8
            }
        }
}

fn shear_shift_exec(h: u32, y: u32, num: u32, den: u32) -> (s: u128)
    requires
        y <= h,
        1 <= den,
    ensures
        s == shear_shift(h as int, y as int, num as int, den as int),
        s <= 0x4_0000_0000_0000_0000,
{
    let d = (h - y) as u128;
    assert(d * num <= 0xffff_ffff * 0xffff_ffff) by (nonlinear_arith)
        requires
            d <= 0xffff_ffff,
            num <= 0xffff_ffff,
    ;
    let n = d * (num as u128) * 2 + den as u128;
    proof {
        vstd::arithmetic::div_mod::lemma_div_is_ordered_by_denominator(n as int, 1, 2 * den as int);
    }
    n / (2 * den as u128)
}

/// Shears `src` for italic rendering: row `y` moves right by
/// `shear_shift(height, y, num, den)`, the rows keep their order, and the
/// uncovered pixels are transparent.
///
/// Fails with `BufferMismatch` on a raster that is not well formed and with
/// `TooLarge` when the wider result cannot be addressed.
pub fn shear_rows(src: &PixelBuffer, num: u32, den: u32) -> (r: Result<PixelBuffer, EngineError>)
    requires
        1 <= den,
    ensures
        r matches Err(EngineError::BufferMismatch) <==> !src.wf(),
        r matches Err(EngineError::TooLarge) <==> src.wf() && (src.width + shear_shift(src.height as int, 0, num as int, den as int) > u32::MAX
            || (src.width + shear_shift(src.height as int, 0, num as int, den as int)) * src.height * 4 > usize::MAX),
        r is Err ==> (r matches Err(EngineError::BufferMismatch)) || (r matches Err(EngineError::TooLarge)),
        r matches Ok(out) ==> is_sheared(out, *src, num as int, den as int),
{
    if !src.is_well_formed() {
        return Err(EngineError::BufferMismatch);
    }
    let h = src.height;
    let w = src.width;
    let top = shear_shift_exec(h, 0, num, den);
    let ow128 = w as u128 + top;
    if ow128 > u32::MAX as u128 {
        return Err(EngineError::TooLarge);
    }
    let ow = ow128 as u32;
    let mut out = match PixelBuffer::transparent(ow, h) {
        Ok(b) => b,
        Err(e) => return Err(e),
    };
    let ghost blank = out;
    let mut y: u32 = 0;
    while y < h
        invariant
            y <= h,
            h == src.height,
            w == src.width,
            src.wf(),
            1 <= den,
            ow == w + shear_shift(h as int, 0, num as int, den as int),
            out.width == ow,
            out.height == h,
            out.wf(),
            blank.width == ow,
            blank.height == h,
            blank.wf(),
            crate::pixel::is_filled(blank.data@, crate::pixel::Rgba8 { r: 0, g: 0, b: 0, a: 0 }),
            forall|x: int, yy: int, c: int|
                0 <= x < ow && 0 <= yy < h && 0 <= c < 4 ==> #[trigger] out.at(x, yy, c) == if yy < y {
                    let s = shear_shift(h as int, yy, num as int, den as int);
                    if s <= x < s + w {
                        src.at(x - s, yy, c)
                    } else {
                        0u8
                    }
                } else {
                    blank.at(x, yy, c)
                },
        decreases h - y,
    {
        let s = shear_shift_exec(h, y, num, den);
        proof {
            assert(s <= shear_shift(h as int, 0, num as int, den as int)) by {
                shear_shift_monotone(h as int, y as int, num as int, den as int);
            }
        }
        let mut x: u32 = 0;
        while x < w
            invariant
                x <= w,
                y < h,
                h == src.height,
                w == src.width,
                src.wf(),
                s == shear_shift(h as int, y as int, num as int, den as int),
                s + w <= ow,
                out.width == ow,
                out.height == h,
                out.wf(),
                blank.width == ow,
                blank.height == h,
                forall|xx: int, yy: int, c: int|
                    0 <= xx < ow && 0 <= yy < h && 0 <= c < 4 ==> #[trigger] out.at(xx, yy, c) == if yy < y {
                        let ss = shear_shift(h as int, yy, num as int, den as int);
                        if ss <= xx < ss + w {
                            src.at(xx - ss, yy, c)
                        } else {
                            0u8
                        }
                    } else if yy == y && s <= xx < s + x {
                        src.at(xx - s, yy, c)
                    } else {
                        blank.at(xx, yy, c)
                    },
            decreases w - x,
        {
            let p = src.get_pixel(x, y);
            out.put_pixel((s + x as u128) as u32, y, p);
            x = x + 1;
        }
        proof {
            assert forall|xx: int, yy: int, c: int| 0 <= xx < ow && 0 <= yy < h && 0 <= c < 4 && yy == y && !(s <= xx < s + w) implies #[trigger] out.at(xx, yy, c) == 0u8 by {
                crate::pixel::lemma_filled_at(blank, crate::pixel::Rgba8 { r: 0, g: 0, b: 0, a: 0 }, xx, yy, c);
            }
        }
        y = y + 1;
    }
    Ok(out)
}

proof fn shear_shift_monotone(h: int, y: int, num: int, den: int)
    requires
        0 <= y <= h,
        1 <= den,
        0 <= num,
    ensures
        shear_shift(h, y, num, den) <= shear_shift(h, 0, num, den),
{
    assert((h - y) * num * 2 + den <= h * num * 2 + den) by (nonlinear_arith)
        requires
            0 <= y <= h,
            0 <= num,
    ;
    vstd::arithmetic::div_mod::lemma_div_is_ordered((h - y) * num * 2 + den, h * num * 2 + den, 2 * den);
}

} // verus!
