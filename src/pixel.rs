//! The RGBA8 raster that every part of the engine reads and writes.

use vstd::prelude::*;

verus! {

/// One pixel: red, green, blue and alpha, eight bits each, not premultiplied.
#[derive(Clone, Copy, Debug, PartialEq, Eq, Structural)]
pub struct Rgba8 {
    pub r: u8,
    pub g: u8,
    pub b: u8,
    pub a: u8,
}

impl Rgba8 {
    /// Channel `c` (0 red, 1 green, 2 blue, 3 alpha).
    pub open spec fn channel(self, c: int) -> u8 {
        if c == 0 {
            self.r
        } else if c == 1 {
            self.g
        } else if c == 2 {
            self.b
        } else {
            self.a
        }
    }

    pub fn new(r: u8, g: u8, b: u8, a: u8) -> (p: Rgba8)
        ensures
            p == (Rgba8 { r, g, b, a }),
    {
        Rgba8 { r, g, b, a }
    }

    /// Channel `c` of the pixel, at run time.
    pub fn get(&self, c: usize) -> (v: u8)
        requires
            c < 4,
        ensures
            v == self.channel(c as int),
    {
        if c == 0 {
            self.r
        } else if c == 1 {
            self.g
        } else if c == 2 {
            self.b
        } else {
            self.a
        }
    }
}

/// Errors that the engine reports instead of reading or writing out of bounds.
#[derive(Clone, Copy, Debug, PartialEq, Eq, Structural)]
pub enum EngineError {
    /// The byte range of a source row lies past the end of the source buffer.
    SourceTooShort,
    /// The requested dimensions do not fit in memory addressing.
    TooLarge,
    /// A buffer's length disagrees with its dimensions.
    BufferMismatch,
}

/// A row-major RGBA8 raster: pixel `(x, y)` holds the four bytes from
/// `(y * width + x) * 4`.
#[derive(Clone, Debug)]
pub struct PixelBuffer {
    pub width: u32,
    pub height: u32,
    pub data: Vec<u8>,
}

/// Bytes in one row of a raster `w` pixels wide.
pub open spec fn stride(w: int) -> int {
    4 * w
}

/// Index of channel `c` of pixel `(x, y)` in a raster `w` pixels wide.
pub open spec fn byte_index(w: int, x: int, y: int, c: int) -> int {
    y * stride(w) + 4 * x + c
}

/// Pixel `(x, y)` of the raster `data`, `w` pixels wide.
pub open spec fn pixel_of(w: int, data: Seq<u8>, x: int, y: int) -> Rgba8 {
    Rgba8 {
        r: data[byte_index(w, x, y, 0)],
        g: data[byte_index(w, x, y, 1)],
        b: data[byte_index(w, x, y, 2)],
        a: data[byte_index(w, x, y, 3)],
    }
}

/// The whole raster painted in `color`: each byte is the channel its
/// position selects.
pub open spec fn is_filled(data: Seq<u8>, color: Rgba8) -> bool {
    forall|k: int| 0 <= k < data.len() ==> #[trigger] data[k] == color.channel(k % 4)
}

pub proof fn lemma_row_in_bounds(y: int, h: int, s: int, k: int)
    requires
        0 <= y < h,
        0 <= k < s,
    ensures
        0 <= y * s,
        y * s + k < h * s,
        y * s + s <= h * s,
{
    assert(0 <= y * s) by (nonlinear_arith)
        requires
            0 <= y,
            0 <= s,
    ;
    assert(y * s + s <= h * s) by (nonlinear_arith)
        requires
            y < h,
            0 <= s,
    ;
}

/// In a raster painted in one colour, every pixel has that colour.
pub proof fn lemma_filled_at(b: PixelBuffer, color: Rgba8, x: int, y: int, c: int)
    requires
        b.wf(),
        is_filled(b.data@, color),
        0 <= x < b.width,
        0 <= y < b.height,
        0 <= c < 4,
    ensures
        b.at(x, y, c) == color.channel(c),
{
    lemma_pixel_disjoint(b.width as int, b.height as int, x, y, c, x, y);
    let k = byte_index(b.width as int, x, y, c);
    let q = y * b.width + x;
    assert(k == 4 * q + c) by (nonlinear_arith)
        requires
            k == y * (4 * b.width) + 4 * x + c,
            q == y * b.width + x,
    ;
    assert((4 * q + c) % 4 == c) by {
        vstd::arithmetic::div_mod::lemma_mod_multiples_vanish(q, c, 4);
        vstd::arithmetic::div_mod::lemma_small_mod(c as nat, 4);
    }
}

/// Distinct rows or distinct positions within a row never share an index.
pub proof fn lemma_index_unique(s: int, y1: int, k1: int, y2: int, k2: int)
    requires
        0 <= y1,
        0 <= y2,
        0 <= k1 < s,
        0 <= k2 < s,
        y1 * s + k1 == y2 * s + k2,
    ensures
        y1 == y2,
        k1 == k2,
{
    if y1 < y2 {
        assert(y1 * s + s <= y2 * s) by (nonlinear_arith)
            requires
                y1 < y2,
                0 <= s,
        ;
    } else if y2 < y1 {
        assert(y2 * s + s <= y1 * s) by (nonlinear_arith)
            requires
                y2 < y1,
                0 <= s,
        ;
    }
}

/// Channel `c` of pixel `(px, py)` lies inside the raster and outside the
/// bytes of any other pixel `(qx, qy)`.
pub proof fn lemma_pixel_disjoint(w: int, h: int, px: int, py: int, c: int, qx: int, qy: int)
    requires
        0 <= px < w,
        0 <= qx < w,
        0 <= py < h,
        0 <= qy < h,
        0 <= c < 4,
    ensures
        0 <= byte_index(w, px, py, c) < w * h * 4,
        (px != qx || py != qy) ==> !(byte_index(w, qx, qy, 0) <= byte_index(w, px, py, c) < byte_index(
            w,
            qx,
            qy,
            0,
        ) + 4),
{
    let s = stride(w);
    lemma_row_in_bounds(py, h, s, 4 * px + c);
    assert(h * s == w * h * 4) by (nonlinear_arith)
        requires
            s == 4 * w,
    ;
    if (px != qx || py != qy) && byte_index(w, qx, qy, 0) <= byte_index(w, px, py, c) < byte_index(w, qx, qy, 0)
        + 4 {
        let c2 = byte_index(w, px, py, c) - byte_index(w, qx, qy, 0);
        lemma_index_unique(s, py, 4 * px + c, qy, 4 * qx + c2);
    }
}

/// Every index of a `h`-row raster splits into a row and a position in it.
pub proof fn lemma_index_split(i: int, s: int, h: int)
    requires
        0 <= i < h * s,
        0 < s,
    ensures
        0 <= i / s < h,
        0 <= i % s < s,
        i == (i / s) * s + i % s,
{
    vstd::arithmetic::div_mod::lemma_fundamental_div_mod(i, s);
    assert(i == (i / s) * s + i % s) by (nonlinear_arith)
        requires
            i == s * (i / s) + i % s,
    ;
    assert(0 <= i / s < h) by (nonlinear_arith)
        requires
            0 <= i < h * s,
            0 < s,
            i == (i / s) * s + i % s,
            0 <= i % s < s,
    ;
}

impl PixelBuffer {
    /// The storage holds exactly `width * height` pixels.
    pub open spec fn wf(&self) -> bool {
        self.data@.len() == self.width * self.height * 4
    }

    pub open spec fn stride(&self) -> int {
        stride(self.width as int)
    }

    /// Pixel `(x, y)`.
    pub open spec fn pixel(&self, x: int, y: int) -> Rgba8 {
        pixel_of(self.width as int, self.data@, x, y)
    }

    /// Channel `c` of pixel `(x, y)`.
    pub open spec fn at(&self, x: int, y: int, c: int) -> u8 {
        self.data@[byte_index(self.width as int, x, y, c)]
    }

    /// A copy of the raster.
    pub fn copy(&self) -> (r: PixelBuffer)
        ensures
            r.width == self.width,
            r.height == self.height,
            r.data@ == self.data@,
    {
        let data = self.data.clone();
        assert(data@ =~= self.data@);
        PixelBuffer { width: self.width, height: self.height, data }
    }

    /// Whether the storage holds exactly `width * height` pixels.
    pub fn is_well_formed(&self) -> (r: bool)
        ensures
            r == self.wf(),
    {
        let _len = self.data.len();
        match Self::byte_len(self.width, self.height) {
            Some(n) => n == self.data.len(),
            None => false,
        }
    }

    /// The number of bytes a `w` by `h` raster takes, when that fits in `usize`.
    pub fn byte_len(w: u32, h: u32) -> (r: Option<usize>)
        ensures
            r is Some <==> w * h * 4 <= usize::MAX,
            r matches Some(n) ==> n == w * h * 4,
    {
        match (w as usize).checked_mul(h as usize) {
            Some(n) => n.checked_mul(4),
            None => {
                assert(w * h * 4 > usize::MAX) by (nonlinear_arith)
                    requires
                        w * h > usize::MAX,
                ;
                None
            },
        }
    }

    /// A `w` by `h` raster with every pixel set to `color`.
    pub fn filled(w: u32, h: u32, color: Rgba8) -> (r: Result<PixelBuffer, EngineError>)
        ensures
            r is Err <==> w * h * 4 > usize::MAX,
            r matches Err(e) ==> e == EngineError::TooLarge,
            r matches Ok(b) ==> b.width == w && b.height == h && b.wf() && is_filled(b.data@, color),
    {
        let n = match Self::byte_len(w, h) {
            Some(n) => n,
            None => return Err(EngineError::TooLarge),
        };
        let data = fill_bytes(n / 4, color);
        Ok(PixelBuffer { width: w, height: h, data })
    }

    /// A fully transparent `w` by `h` raster.
    pub fn transparent(w: u32, h: u32) -> (r: Result<PixelBuffer, EngineError>)
        ensures
            r is Err <==> w * h * 4 > usize::MAX,
            r matches Err(e) ==> e == EngineError::TooLarge,
            r matches Ok(b) ==> b.width == w && b.height == h && b.wf() && is_filled(
                b.data@,
                Rgba8 { r: 0, g: 0, b: 0, a: 0 },
            ),
    {
        Self::filled(w, h, Rgba8 { r: 0, g: 0, b: 0, a: 0 })
    }

    /// Wraps raw bytes, refusing a length that disagrees with the dimensions.
    pub fn from_raw(w: u32, h: u32, data: Vec<u8>) -> (r: Result<PixelBuffer, EngineError>)
        ensures
            r is Ok <==> data@.len() == w * h * 4,
            r matches Ok(b) ==> b.width == w && b.height == h && b.data@ == data@,
            r matches Err(e) ==> e == EngineError::BufferMismatch,
    {
        match Self::byte_len(w, h) {
            Some(n) => {
                if n == data.len() {
                    Ok(PixelBuffer { width: w, height: h, data })
                } else {
                    Err(EngineError::BufferMismatch)
                }
            },
            None => {
                let _len = data.len();
                Err(EngineError::BufferMismatch)
            },
        }
    }

    pub fn width(&self) -> (r: u32)
        ensures
            r == self.width,
    {
        self.width
    }

    pub fn height(&self) -> (r: u32)
        ensures
            r == self.height,
    {
        self.height
    }

    /// The pixel at `(x, y)`.
    pub fn get_pixel(&self, x: u32, y: u32) -> (p: Rgba8)
        requires
            self.wf(),
            x < self.width,
            y < self.height,
        ensures
            forall|c: int| 0 <= c < 4 ==> #[trigger] p.channel(c) == self.at(x as int, y as int, c),
            p == self.pixel(x as int, y as int),
    {
        let _len = self.data.len();
        let i = Self::offset(self.width, self.height, x, y);
        Rgba8 { r: self.data[i], g: self.data[i + 1], b: self.data[i + 2], a: self.data[i + 3] }
    }

    /// Overwrites the pixel at `(x, y)` and nothing else.
    pub fn put_pixel(&mut self, x: u32, y: u32, p: Rgba8)
        requires
            old(self).wf(),
            x < old(self).width,
            y < old(self).height,
        ensures
            final(self).width == old(self).width,
            final(self).height == old(self).height,
            final(self).wf(),
            forall|c: int|
                0 <= c < 4 ==> #[trigger] final(self).at(x as int, y as int, c) == p.channel(c),
            forall|k: int|
                0 <= k < final(self).data@.len() && !(byte_index(old(self).width as int, x as int, y as int, 0) <= k
                    < byte_index(old(self).width as int, x as int, y as int, 4)) ==> #[trigger] final(self).data@[k]
                    == old(self).data@[k],
            forall|px: int, py: int, c: int|
                0 <= px < old(self).width && 0 <= py < old(self).height && 0 <= c < 4 && (px != x || py != y)
                    ==> #[trigger] final(self).at(px, py, c) == old(self).at(px, py, c),
    {
        let _len = self.data.len();
        let i = Self::offset(self.width, self.height, x, y);
        self.data.set(i, p.r);
        self.data.set(i + 1, p.g);
        self.data.set(i + 2, p.b);
        self.data.set(i + 3, p.a);
        proof {
            let w = self.width as int;
            let h = self.height as int;
            assert forall|px: int, py: int, c: int|
                0 <= px < w && 0 <= py < h && 0 <= c < 4 && (px != x || py != y) implies #[trigger] self.at(
                px,
                py,
                c,
            ) == old(self).at(px, py, c) by {
                lemma_pixel_disjoint(w, h, px, py, c, x as int, y as int);
            }
        }
    }

    /// Index of the first byte of pixel `(x, y)`.
    pub fn offset(w: u32, h: u32, x: u32, y: u32) -> (i: usize)
        requires
            w * h * 4 <= usize::MAX,
            x < w,
            y < h,
        ensures
            i == byte_index(w as int, x as int, y as int, 0),
            i + 4 <= w * h * 4,
    {
        proof {
            lemma_row_in_bounds(y as int, h as int, stride(w as int), 4 * x as int);
            assert(h * stride(w as int) == w * h * 4) by (nonlinear_arith);
        }
        (y as usize) * ((w as usize) * 4) + 4 * (x as usize)
    }
}

/// Pixel `(px, py)` lies in the `w` by `h` rectangle at `(x0, y0)`.
pub open spec fn in_rect(x0: int, y0: int, w: int, h: int, px: int, py: int) -> bool {
    x0 <= px < x0 + w && y0 <= py < y0 + h
}

/// Paints the `w` by `h` rectangle at `(x0, y0)` in `color`, clipped to the
/// raster; every other pixel stays.
pub fn fill_rect(target: &mut PixelBuffer, x0: u32, y0: u32, w: u32, h: u32, color: Rgba8)
    requires
        old(target).wf(),
    ensures
        final(target).width == old(target).width,
        final(target).height == old(target).height,
        final(target).wf(),
        forall|px: int, py: int, c: int|
            0 <= px < old(target).width && 0 <= py < old(target).height && 0 <= c < 4 ==> #[trigger] final(target).at(px, py, c)
                == if in_rect(x0 as int, y0 as int, w as int, h as int, px, py) {
                color.channel(c)
            } else {
                old(target).at(px, py, c)
            },
{
    let ghost orig = *target;
    let x_end: u64 = if (x0 as u64 + w as u64) < target.width as u64 { x0 as u64 + w as u64 } else { target.width as u64 };
    let y_end: u64 = if (y0 as u64 + h as u64) < target.height as u64 { y0 as u64 + h as u64 } else { target.height as u64 };
    let mut y: u64 = y0 as u64;
    while y < y_end
        invariant
            y0 <= y,
            y_end <= orig.height,
            y_end <= y0 + h,
            y_end == orig.height || y_end == y0 + h,
            x_end <= orig.width,
            x_end <= x0 + w,
            x_end == orig.width || x_end == x0 + w,
            target.wf(),
            target.width == orig.width,
            target.height == orig.height,
            forall|px: int, py: int, c: int|
                0 <= px < orig.width && 0 <= py < orig.height && 0 <= c < 4 ==> #[trigger] target.at(px, py, c)
                    == if in_rect(x0 as int, y0 as int, w as int, h as int, px, py) && py < y {
                    color.channel(c)
                } else {
                    orig.at(px, py, c)
                },
        decreases y_end - y,
    {
        let mut x: u64 = x0 as u64;
        while x < x_end
            invariant
                y0 <= y < y_end,
                x0 <= x,
                y_end <= orig.height,
                y_end <= y0 + h,
                x_end <= orig.width,
                x_end <= x0 + w,
                x_end == orig.width || x_end == x0 + w,
                target.wf(),
                target.width == orig.width,
                target.height == orig.height,
                forall|px: int, py: int, c: int|
                    0 <= px < orig.width && 0 <= py < orig.height && 0 <= c < 4 ==> #[trigger] target.at(px, py, c)
                        == if in_rect(x0 as int, y0 as int, w as int, h as int, px, py) && (py < y || (py == y && px
                        < x)) {
                        color.channel(c)
                    } else {
                        orig.at(px, py, c)
                    },
            decreases x_end - x,
        {
            target.put_pixel(x as u32, y as u32, color);
            x = x + 1;
        }
        y = y + 1;
    }
}

/// `n` pixels of `color`, back to back.
pub fn fill_bytes(n: usize, color: Rgba8) -> (v: Vec<u8>)
    requires
        n * 4 <= usize::MAX,
    ensures
        v@.len() == n * 4,
        is_filled(v@, color),
{
    let mut v: Vec<u8> = Vec::with_capacity(n * 4);
    let mut i: usize = 0;
    while i < n
        invariant
            i <= n,
            n * 4 <= usize::MAX,
            v@.len() == i * 4,
            is_filled(v@, color),
        decreases n - i,
    {
        v.push(color.r);
        v.push(color.g);
        v.push(color.b);
        v.push(color.a);
        i = i + 1;
    }
    v
}

} // verus!
