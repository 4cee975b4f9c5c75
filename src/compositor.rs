//! The expanded canvas: the source raster surrounded by background margins,
//! built row by row in parallel so that no background pixel is painted twice.

use vstd::prelude::*;
use rayon::iter::{IntoParallelIterator, ParallelIterator};
use crate::pixel::{EngineError, PixelBuffer, Rgba8, stride, lemma_index_split};

verus! {

/// Byte `k` of row `y` of the canvas that holds `src` at `(left, top)` over
/// `bg`.
pub open spec fn canvas_byte(src: PixelBuffer, top: int, left: int, bg: Rgba8, y: int, k: int) -> u8 {
    let x = k / 4;
    if top <= y < top + src.height && left <= x < left + src.width {
        src.data@[(y - top) * stride(src.width as int) + (k - 4 * left)]
    } else {
        bg.channel(k % 4)
    }
}

/// `out` is the canvas of width `cw` and height `ch` holding `src` at
/// `(left, top)`, with `bg` everywhere else.
pub open spec fn is_canvas_of(out: PixelBuffer, src: PixelBuffer, top: int, left: int, cw: int, ch: int, bg: Rgba8) -> bool {
    &&& out.width == cw
    &&& out.height == ch
    &&& out.wf()
    &&& forall|y: int, k: int|
        0 <= y < ch && 0 <= k < stride(cw) ==> #[trigger] out.data@[y * stride(cw) + k] == canvas_byte(
            src,
            top,
            left,
            bg,
            y,
            k,
        )
}

/// The rows of `src` can be read without passing the end of its buffer.
pub open spec fn rows_fit(src: PixelBuffer) -> bool {
    src.width * src.height * 4 <= src.data@.len()
}

/// Appends `n` pixels of `color` to `v`.
fn push_color(v: &mut Vec<u8>, n: u32, color: Rgba8)
    requires
        old(v)@.len() + 4 * n <= usize::MAX,
    ensures
        final(v)@.len() == old(v)@.len() + 4 * n,
        final(v)@.subrange(0, old(v)@.len() as int) == old(v)@,
        forall|k: int|
            old(v)@.len() <= k < final(v)@.len() ==> #[trigger] final(v)@[k] == color.channel(
                (k - old(v)@.len()) % 4,
            ),
{
    let ghost start = v@.len();
    let mut i: u32 = 0;
    while i < n
        invariant
            i <= n,
            start + 4 * n <= usize::MAX,
            v@.len() == start + 4 * i,
            v@.subrange(0, start as int) == old(v)@,
            forall|k: int| start <= k < v@.len() ==> #[trigger] v@[k] == color.channel((k - start) % 4),
        decreases n - i,
    {
        v.push(color.r);
        v.push(color.g);
        v.push(color.b);
        v.push(color.a);
        i = i + 1;
    }
}

/// Row `y` of the canvas holding `src` at `(left, top)` over `bg`: margins in
/// `bg` and, inside the source band, one contiguous copy of a source row.
pub fn compose_row(src: &PixelBuffer, y: u32, top: u32, left: u32, right: u32, bg: Rgba8) -> (row: Vec<u8>)
    requires
        rows_fit(*src),
        src.width + left + right <= u32::MAX,
        top + src.height <= u32::MAX,
        4 * (src.width + left + right) <= usize::MAX,
    ensures
        row@.len() == stride(src.width + left + right),
        forall|k: int|
            0 <= k < row@.len() ==> #[trigger] row@[k] == canvas_byte(*src, top as int, left as int, bg, y as int, k),
{
    let cw = src.width + left + right;
    let mut row: Vec<u8> = Vec::with_capacity(4 * (cw as usize));
    if y < top || y >= top + src.height {
        push_color(&mut row, cw, bg);
        assert forall|k: int| 0 <= k < row@.len() implies #[trigger] row@[k] == canvas_byte(
            *src,
            top as int,
            left as int,
            bg,
            y as int,
            k,
        ) by {
            assert(row@[k] == bg.channel((k - 0) % 4));
        }
        return row;
    }
    push_color(&mut row, left, bg);
    let sy = y - top;
    let _len = src.data.len();
    let s = 4 * (src.width as usize);
    proof {
        assert(sy * s + s <= src.width * src.height * 4) by (nonlinear_arith)
            requires
                s == 4 * src.width,
                sy < src.height,
        ;
    }
    let start = (sy as usize) * s;
    let mut i: usize = 0;
    while i < s
        invariant
            s == 4 * src.width,
            start + s <= src.data@.len(),
            src.data@.len() <= usize::MAX,
            start == sy * s,
            i <= s,
            row@.len() == 4 * left + i,
            forall|k: int| 0 <= k < 4 * left ==> #[trigger] row@[k] == bg.channel(k % 4),
            forall|k: int| 4 * left <= k < 4 * left + i ==> #[trigger] row@[k] == src.data@[start + (k - 4 * left)],
        decreases s - i,
    {
        row.push(src.data[start + i]);
        i = i + 1;
    }
    let ghost mid = row@;
    push_color(&mut row, right, bg);
    assert forall|k: int| 0 <= k < row@.len() implies #[trigger] row@[k] == canvas_byte(
        *src,
        top as int,
        left as int,
        bg,
        y as int,
        k,
    ) by {
        if k < mid.len() {
            assert(row@[k] == mid[k]);
        } else {
            assert((k - mid.len()) % 4 == k % 4);
        }
    }
    row
}

/// Relies on rayon: `flat_map` over the ordered range of row indices,
/// collected into a `Vec`, concatenates the rows in index order (rayon's
/// `ParallelExtend` for `Vec` appends the per-split lists in sequence).
#[verifier::external_body]
fn collect_rows(src: &PixelBuffer, top: u32, left: u32, right: u32, ch: u32, bg: Rgba8) -> (data: Vec<u8>)
    requires
        rows_fit(*src),
        src.width + left + right <= u32::MAX,
        top + src.height <= u32::MAX,
        4 * (src.width + left + right) <= usize::MAX,
    ensures
        data@.len() == ch * stride(src.width + left + right),
        forall|y: int, k: int|
            0 <= y < ch && 0 <= k < stride(src.width + left + right) ==> #[trigger] data@[y * stride(
                src.width + left + right,
            ) + k] == canvas_byte(*src, top as int, left as int, bg, y, k),
{
    (0..ch).into_par_iter().flat_map(|y| compose_row(src, y, top, left, right, bg)).collect()
}

/// A canvas `left + src.width + right` by `top + src.height + bottom` that
/// holds `src` at `(left, top)` and `bg_color` everywhere else.
///
/// Fails with `TooLarge` when the canvas dimensions overflow or its bytes
/// cannot be addressed, and with `SourceTooShort` when the rows of `src` run
/// past the end of its buffer.
pub fn create_expanded_canvas(
    src: &PixelBuffer,
    top: u32,
    bottom: u32,
    left: u32,
    right: u32,
    bg_color: Rgba8,
) -> (r: Result<PixelBuffer, EngineError>)
    ensures
        r matches Err(EngineError::TooLarge) <==> (src.width + left + right > u32::MAX || src.height + top
            + bottom > u32::MAX || (src.width + left + right) * (src.height + top + bottom) * 4 > usize::MAX),
        r matches Err(EngineError::SourceTooShort) <==> (!(r matches Err(EngineError::TooLarge)) && !rows_fit(
            *src,
        )),
        r is Err ==> (r matches Err(EngineError::TooLarge)) || (r matches Err(EngineError::SourceTooShort)),
        r matches Ok(out) ==> is_canvas_of(
            out,
            *src,
            top as int,
            left as int,
            src.width + left + right,
            src.height + top + bottom,
            bg_color,
        ),
{
    let cw = match src.width.checked_add(left) {
        Some(v) => match v.checked_add(right) {
            Some(v) => v,
            None => return Err(EngineError::TooLarge),
        },
        None => return Err(EngineError::TooLarge),
    };
    let ch = match src.height.checked_add(top) {
        Some(v) => match v.checked_add(bottom) {
            Some(v) => v,
            None => return Err(EngineError::TooLarge),
        },
        None => return Err(EngineError::TooLarge),
    };
    let n = match PixelBuffer::byte_len(cw, ch) {
        Some(n) => n,
        None => return Err(EngineError::TooLarge),
    };
    let src_len = src.data.len();
    match PixelBuffer::byte_len(src.width, src.height) {
        Some(m) => {
            if m > src_len {
                return Err(EngineError::SourceTooShort);
            }
        },
        None => return Err(EngineError::SourceTooShort),
    }
    if ch == 0 {
        assert(cw * ch * 4 == 0) by (nonlinear_arith)
            requires
                ch == 0,
        ;
        return Ok(PixelBuffer { width: cw, height: ch, data: Vec::new() });
    }
    proof {
        assert(4 * cw <= usize::MAX) by (nonlinear_arith)
            requires
                cw * ch * 4 <= usize::MAX,
                ch >= 1,
        ;
    }
    let data = collect_rows(src, top, left, right, ch, bg_color);
    proof {
        assert(ch * stride(cw as int) == cw * ch * 4) by (nonlinear_arith);
    }
    Ok(PixelBuffer { width: cw, height: ch, data })
}

/// The white frame: `border` pixels of white above and on both sides of
/// `src`, and `bottom_height` pixels below it.
pub fn compose_white_canvas(src: &PixelBuffer, border: u32, bottom_height: u32) -> (r: Result<PixelBuffer, EngineError>)
    ensures
        r matches Ok(out) ==> is_canvas_of(
            out,
            *src,
            border as int,
            border as int,
            src.width + 2 * border,
            src.height + border + bottom_height,
            Rgba8 { r: 255, g: 255, b: 255, a: 255 },
        ),
        r is Err <==> (src.width + 2 * border > u32::MAX || src.height + border + bottom_height > u32::MAX
            || (src.width + 2 * border) * (src.height + border + bottom_height) * 4 > usize::MAX || !rows_fit(*src)),
{
    create_expanded_canvas(src, border, bottom_height, border, border, Rgba8 { r: 255, g: 255, b: 255, a: 255 })
}

/// A working canvas and where the photo sits on it, so that later steps
/// (shadow, glass, re-paste) find the content without re-deriving geometry.
#[derive(Clone, Debug)]
pub struct CompositingFrame {
    pub canvas: PixelBuffer,
    pub content_left: u32,
    pub content_top: u32,
    pub content_w: u32,
    pub content_h: u32,
}

impl CompositingFrame {
    /// Expands `src` by the given margins over `bg`, remembering where it
    /// landed; fails as [`create_expanded_canvas`] does.
    pub fn compose(src: &PixelBuffer, top: u32, bottom: u32, left: u32, right: u32, bg: Rgba8) -> (r: Result<
        CompositingFrame,
        EngineError,
    >)
        ensures
            r is Err <==> (src.width + left + right > u32::MAX || src.height + top + bottom > u32::MAX || (src.width
                + left + right) * (src.height + top + bottom) * 4 > usize::MAX || !rows_fit(*src)),
            r matches Ok(f) ==> {
                &&& is_canvas_of(
                    f.canvas,
                    *src,
                    top as int,
                    left as int,
                    src.width + left + right,
                    src.height + top + bottom,
                    bg,
                )
                &&& f.content_left == left
                &&& f.content_top == top
                &&& f.content_w == src.width
                &&& f.content_h == src.height
            },
    {
        match create_expanded_canvas(src, top, bottom, left, right, bg) {
            Ok(canvas) => Ok(
                CompositingFrame {
                    canvas,
                    content_left: left,
                    content_top: top,
                    content_w: src.width,
                    content_h: src.height,
                },
            ),
            Err(e) => Err(e),
        }
    }

    /// The centre of the content area, rounded down.
    pub fn content_center(&self) -> (c: (i64, i64))
        ensures
            c.0 == self.content_left + self.content_w / 2,
            c.1 == self.content_top + self.content_h / 2,
    {
        (
            self.content_left as i64 + (self.content_w / 2) as i64,
            self.content_top as i64 + (self.content_h / 2) as i64,
        )
    }
}

/// With no margin on any side, the canvas is a byte-for-byte copy of a
/// well-formed source.
pub proof fn lemma_zero_padding_is_identity(src: PixelBuffer, out: PixelBuffer, bg: Rgba8)
    requires
        src.wf(),
        is_canvas_of(out, src, 0, 0, src.width as int, src.height as int, bg),
    ensures
        out.width == src.width,
        out.height == src.height,
        out.data@ == src.data@,
{
    let s = stride(src.width as int);
    assert forall|i: int| 0 <= i < out.data@.len() implies out.data@[i] == src.data@[i] by {
        assert(src.width * src.height * 4 == src.height * s) by (nonlinear_arith)
            requires
                s == 4 * src.width,
        ;
        lemma_index_split(i, s, src.height as int);
        let y = i / s;
        let k = i % s;
        assert(out.data@[y * s + k] == canvas_byte(src, 0, 0, bg, y, k));
    }
    assert(out.data@ =~= src.data@);
}

} // verus!
