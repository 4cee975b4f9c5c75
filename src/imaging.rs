//! Resampling, done by the `image` crate, and source-over compositing of
//! one raster onto another.

use vstd::prelude::*;
use crate::pixel::{EngineError, PixelBuffer, Rgba8, byte_index, pixel_of};

verus! {

/// The resampling filter of a resize.
#[derive(Clone, Copy, Debug, PartialEq, Eq, Structural)]
pub enum Resample {
    /// Nearest neighbour: cheap, good enough before a blur.
    Nearest,
    /// Linear (triangle) interpolation: smooth enlargements and reductions.
    Smooth,
}

/// The bytes of the `w` by `h` raster `data` resampled to `nw` by `nh`, with
/// the triangle filter when `smooth` holds and nearest neighbour otherwise.
pub uninterp spec fn resampled(data: Seq<u8>, w: nat, h: nat, nw: nat, nh: nat, smooth: bool) -> Seq<u8>;

/// Relies on `image::imageops::resize`: it returns a `nw` by `nh` buffer
/// whose bytes depend on the source pixels, the sizes and the filter alone; a
/// plain copy when the size is unchanged; zeros from an empty source.
#[verifier::external_body]
pub(crate) fn resize(src: &PixelBuffer, nw: u32, nh: u32, filter: Resample) -> (r: PixelBuffer)
    requires
        src.wf(),
        nw * nh * 4 <= usize::MAX,
        src.width * nh * 4 <= usize::MAX,
    ensures
        r.width == nw,
        r.height == nh,
        r.wf(),
        r.data@ == resampled(
            src.data@,
            src.width as nat,
            src.height as nat,
            nw as nat,
            nh as nat,
            filter == Resample::Smooth,
        ),
        (nw == src.width && nh == src.height) ==> r.data@ == src.data@,
        (src.width == 0 || src.height == 0) ==> forall|k: int| 0 <= k < r.data@.len() ==> #[trigger] r.data@[k] == 0,
{
    let view = image::ImageBuffer::<image::Rgba<u8>, &[u8]>::from_raw(src.width, src.height, src.data.as_slice())
        .expect("a well-formed buffer");
    let filter = match filter {
        Resample::Nearest => image::imageops::FilterType::Nearest,
        Resample::Smooth => image::imageops::FilterType::Triangle,
    };
    let out = image::imageops::resize(&view, nw, nh, filter);
    PixelBuffer { width: nw, height: nh, data: out.into_raw() }
}

/// Source-over compositing of `f` over `b`, in 255ths and rounded to
/// nearest: each colour is `f * f.a + b * (1 - f.a)` and the alpha is
/// `f.a + b.a * (1 - f.a)`. The colour rule weighs the background by the
/// foreground's coverage only, as the engine's compositing is defined; it is
/// exact over an opaque background, which is where the frames use it. This
/// differs from `image`'s `Rgba::blend`, which also weighs by the background
/// alpha and truncates its result, so that an opaque canvas can lose opacity.
pub open spec fn blend_weight(b: Rgba8, f: Rgba8) -> int {
    f.a * 255 + b.a * (255 - f.a)
}

pub open spec fn blend_channel(b: Rgba8, f: Rgba8, c: int) -> int {
    if c == 3 {
        (blend_weight(b, f) + 127) / 255
    } else {
        (f.channel(c) * f.a + b.channel(c) * (255 - f.a) + 127) / 255
    }
}

/// Channel `c` of pixel `(px, py)` of `bottom` once the `lw` by `lh` layer
/// `ldata` is laid over it at `(x, y)`.
pub open spec fn overlay_channel(bottom: PixelBuffer, lw: int, lh: int, ldata: Seq<u8>, x: int, y: int, px: int, py: int, c: int) -> int {
    let lx = px - x;
    let ly = py - y;
    if 0 <= lx < lw && 0 <= ly < lh {
        blend_channel(bottom.pixel(px, py), pixel_of(lw, ldata, lx, ly), c)
    } else {
        bottom.at(px, py, c) as int
    }
}

/// `out` is `bottom` with the `lw` by `lh` layer `ldata` laid over it at
/// `(x, y)`, clipped to `bottom`.
pub open spec fn is_overlaid(out: PixelBuffer, bottom: PixelBuffer, lw: int, lh: int, ldata: Seq<u8>, x: int, y: int) -> bool {
    &&& out.width == bottom.width
    &&& out.height == bottom.height
    &&& out.wf()
    &&& forall|px: int, py: int, c: int|
        0 <= px < bottom.width && 0 <= py < bottom.height && 0 <= c < 4 ==> #[trigger] out.at(px, py, c)
            == overlay_channel(bottom, lw, lh, ldata, x, y, px, py, c)
}

/// `f` composited over `b`.
pub fn blend_over(b: Rgba8, f: Rgba8) -> (o: Rgba8)
    ensures
        forall|c: int| 0 <= c < 4 ==> #[trigger] o.channel(c) == blend_channel(b, f, c),
{
    let fa = f.a as u32;
    let ba = b.a as u32;
    assert(ba * (255 - fa) <= 65025 && fa * 255 + ba * (255 - fa) <= 65025) by (nonlinear_arith)
        requires
            fa <= 255,
            ba <= 255,
    ;
    let den = fa * 255 + ba * (255 - fa);
    let a = ((den + 127) / 255) as u8;
    Rgba8 { r: mix_channel(f.r, b.r, fa), g: mix_channel(f.g, b.g, fa), b: mix_channel(f.b, b.b, fa), a }
}

fn mix_channel(fc: u8, bc: u8, fa: u32) -> (o: u8)
    requires
        fa <= 255,
    ensures
        o == (fc * fa + bc * (255 - fa) + 127) / 255,
{
    let fcu = fc as u32;
    let bcu = bc as u32;
    assert(fcu * fa + bcu * (255 - fa) <= 65025) by (nonlinear_arith)
        requires
            fcu <= 255,
            bcu <= 255,
            fa <= 255,
    ;
    ((fcu * fa + bcu * (255 - fa) + 127) / 255) as u8
}

/// Lays the layer over `target` with its corner at `(x, y)`, blending
/// source-over and clipping to the target; only pixels under the layer are
/// read or written.
pub(crate) fn overlay(target: &mut PixelBuffer, layer: &PixelBuffer, x: i64, y: i64)
    requires
        old(target).wf(),
        layer.wf(),
    ensures
        is_overlaid(*final(target), *old(target), layer.width as int, layer.height as int, layer.data@, x as int, y as int),
{
    let ghost orig = *target;
    let lw = layer.width as i128;
    let lh = layer.height as i128;
    let tw = target.width as i128;
    let th = target.height as i128;
    let x0: i128 = if (x as i128) > 0 { x as i128 } else { 0 };
    let y0: i128 = if (y as i128) > 0 { y as i128 } else { 0 };
    let x1: i128 = if (x as i128) + lw < tw { (x as i128) + lw } else { tw };
    let y1: i128 = if (y as i128) + lh < th { (y as i128) + lh } else { th };
    let mut py: i128 = y0;
    while py < y1
        invariant
            0 <= y0 <= py,
            0 <= x0,
            y1 <= th,
            x1 <= tw,
            tw == orig.width,
            th == orig.height,
            lw == layer.width,
            lh == layer.height,
            x0 >= x,
            y0 >= y,
            x1 <= x + lw,
            y1 <= y + lh,
            x1 == tw || x1 == x + lw,
            y1 == th || y1 == y + lh,
            x0 == 0 || x0 == x,
            y0 == 0 || y0 == y,
            layer.wf(),
            target.wf(),
            target.width == orig.width,
            target.height == orig.height,
            forall|qx: int, qy: int, c: int|
                0 <= qx < orig.width && 0 <= qy < orig.height && 0 <= c < 4 ==> #[trigger] target.at(qx, qy, c)
                    == if qy < py {
                    overlay_channel(orig, lw as int, lh as int, layer.data@, x as int, y as int, qx, qy, c)
                } else {
                    orig.at(qx, qy, c) as int
                },
        decreases y1 - py,
    {
        let mut px: i128 = x0;
        while px < x1
            invariant
                0 <= y0 <= py < y1,
                0 <= x0 <= px,
                y1 <= th,
                x1 <= tw,
                tw == orig.width,
                th == orig.height,
                lw == layer.width,
                lh == layer.height,
                x0 >= x,
                y0 >= y,
                x1 <= x + lw,
                y1 <= y + lh,
                x1 == tw || x1 == x + lw,
                x0 == 0 || x0 == x,
                layer.wf(),
                target.wf(),
                target.width == orig.width,
                target.height == orig.height,
                forall|qx: int, qy: int, c: int|
                    0 <= qx < orig.width && 0 <= qy < orig.height && 0 <= c < 4 ==> #[trigger] target.at(qx, qy, c)
                        == if qy < py || (qy == py && x0 <= qx < px) {
                        overlay_channel(orig, lw as int, lh as int, layer.data@, x as int, y as int, qx, qy, c)
                    } else {
                        orig.at(qx, qy, c) as int
                    },
            decreases x1 - px,
        {
            let b = target.get_pixel(px as u32, py as u32);
            let f = layer.get_pixel((px - x as i128) as u32, (py - y as i128) as u32);
            let o = blend_over(b, f);
            proof {
                assert(target.at(px as int, py as int, 0) == orig.at(px as int, py as int, 0));
                assert(target.at(px as int, py as int, 1) == orig.at(px as int, py as int, 1));
                assert(target.at(px as int, py as int, 2) == orig.at(px as int, py as int, 2));
                assert(target.at(px as int, py as int, 3) == orig.at(px as int, py as int, 3));
                assert(b == orig.pixel(px as int, py as int));
                assert(f == pixel_of(lw as int, layer.data@, px - x, py - y));
            }
            target.put_pixel(px as u32, py as u32, o);
            px = px + 1;
        }
        py = py + 1;
    }
}

/// Lays `layer` over `target` with its corner at `(x, y)`, clipped to the
/// target. Fails with `BufferMismatch`, leaving `target` as it was, when
/// either raster is not well formed.
pub fn paste_layer(target: &mut PixelBuffer, layer: &PixelBuffer, x: i64, y: i64) -> (r: Result<(), EngineError>)
    ensures
        r is Err <==> !(old(target).wf() && layer.wf()),
        r matches Err(e) ==> e == EngineError::BufferMismatch,
        r is Err ==> *final(target) == *old(target),
        r is Ok ==> is_overlaid(
            *final(target),
            *old(target),
            layer.width as int,
            layer.height as int,
            layer.data@,
            x as int,
            y as int,
        ),
{
    if !target.is_well_formed() || !layer.is_well_formed() {
        return Err(EngineError::BufferMismatch);
    }
    overlay(target, layer, x, y);
    Ok(())
}

/// An opaque foreground replaces the background pixel exactly.
pub proof fn lemma_opaque_blend_copies(b: Rgba8, f: Rgba8, c: int)
    requires
        f.a == 255,
        0 <= c < 4,
    ensures
        blend_channel(b, f, c) == f.channel(c),
{
    assert(blend_weight(b, f) == 65025);
    if c < 3 {
        let v = f.channel(c) as int;
        assert((v * 255 + b.channel(c) * 0 + 127) / 255int == v) by (nonlinear_arith)
            requires
                0 <= v <= 255,
        ;
        assert(f.channel(c) * f.a == v * 255);
        assert(b.channel(c) * (255 - f.a) == b.channel(c) * 0);
    }
}

/// Anything composited over an opaque background is opaque.
pub proof fn lemma_blend_over_opaque_is_opaque(b: Rgba8, f: Rgba8)
    requires
        b.a == 255,
    ensures
        blend_channel(b, f, 3) == 255,
{
    assert(blend_weight(b, f) == 65025) by (nonlinear_arith)
        requires
            b.a == 255,
            f.a <= 255,
            blend_weight(b, f) == f.a * 255 + b.a * (255 - f.a),
    ;
}

/// After a paste, the part of an opaque layer that lies inside the raster is
/// a byte-for-byte copy, and an opaque raster stays opaque.
pub proof fn lemma_paste_properties(out: PixelBuffer, bottom: PixelBuffer, lw: int, lh: int, ldata: Seq<u8>, x: int, y: int)
    requires
        is_overlaid(out, bottom, lw, lh, ldata, x, y),
    ensures
        forall|i: int, j: int, c: int|
            0 <= i < lw && 0 <= j < lh && 0 <= x + i < bottom.width && 0 <= y + j < bottom.height && 0 <= c < 4
                && ldata[byte_index(lw, i, j, 3)] == 255 ==> #[trigger] out.at(x + i, y + j, c) == ldata[byte_index(
                lw,
                i,
                j,
                c,
            )],
        (forall|px: int, py: int| 0 <= px < bottom.width && 0 <= py < bottom.height ==> #[trigger] bottom.at(px, py, 3) == 255)
            ==> forall|px: int, py: int| 0 <= px < bottom.width && 0 <= py < bottom.height ==> #[trigger] out.at(px, py, 3) == 255,
{
    assert forall|i: int, j: int, c: int|
        0 <= i < lw && 0 <= j < lh && 0 <= x + i < bottom.width && 0 <= y + j < bottom.height && 0 <= c < 4
            && ldata[byte_index(lw, i, j, 3)] == 255 implies #[trigger] out.at(x + i, y + j, c) == ldata[byte_index(
        lw,
        i,
        j,
        c,
    )] by {
        let f = pixel_of(lw, ldata, i, j);
        assert(out.at(x + i, y + j, c) == overlay_channel(bottom, lw, lh, ldata, x, y, x + i, y + j, c));
        lemma_opaque_blend_copies(bottom.pixel(x + i, y + j), f, c);
    }
    if forall|px: int, py: int| 0 <= px < bottom.width && 0 <= py < bottom.height ==> #[trigger] bottom.at(px, py, 3) == 255 {
        assert forall|px: int, py: int| 0 <= px < bottom.width && 0 <= py < bottom.height implies #[trigger] out.at(px, py, 3) == 255 by {
            assert(out.at(px, py, 3) == overlay_channel(bottom, lw, lh, ldata, x, y, px, py, 3));
            assert(bottom.at(px, py, 3) == 255);
            lemma_blend_over_opaque_is_opaque(bottom.pixel(px, py), pixel_of(lw, ldata, px - x, py - y));
        }
    }
}

} // verus!
