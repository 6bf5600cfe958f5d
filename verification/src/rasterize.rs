use vstd::prelude::*;
use crate::canvas::PixelCanvas;
use crate::color::Rgba;
use crate::logo::decoded_rgba;
use crate::vector::{Primitive, VectorDocument};
use crate::QrError;

verus! {

/// What lies behind a document when it is painted: PNG and WebP keep the
/// canvas transparent, JPEG has no alpha and starts from opaque white.
#[derive(Clone, Copy, PartialEq, Eq, Structural, Debug)]
pub enum BackgroundMode {
    Transparent,
    OpaqueWhite,
}

/// The color of the untouched canvas in each mode.
pub open spec fn mode_color(mode: BackgroundMode) -> Rgba {
    match mode {
        BackgroundMode::Transparent => Rgba { r: 0, g: 0, b: 0, a: 0 },
        BackgroundMode::OpaqueWhite => Rgba { r: 255, g: 255, b: 255, a: 255 },
    }
}

/// Whether the primitive covers the center of target pixel `(px, py)` when
/// the document's user space (`width_px * den` wide) is scaled to
/// `tw` by `th` pixels. Edges are crisp: a center exactly on the leading
/// edge is inside, one on the trailing edge is outside.
pub open spec fn covers(
    p: Primitive,
    wpx: int,
    hpx: int,
    den: int,
    tw: int,
    th: int,
    px: int,
    py: int,
) -> bool {
    match p {
        Primitive::Background { .. } => true,
        Primitive::Rect { x, y, w, h, .. } => 2 * tw * x <= (2 * px + 1) * (wpx * den) < 2 * tw * (
        x + w) && 2 * th * y <= (2 * py + 1) * (hpx * den) < 2 * th * (y + h),
        Primitive::ImageRef { x, y, w, h, .. } => 2 * tw * x <= (2 * px + 1) * (wpx * den) < 2 * tw
            * (x + w) && 2 * th * y <= (2 * py + 1) * (hpx * den) < 2 * th * (y + h),
    }
}

/// Source-over compositing of a source color onto a destination, in whole
/// 8-bit arithmetic: the destination's weight is scaled by what the source's
/// alpha lets through.
pub open spec fn blend_over(dst: Rgba, src: Rgba) -> Rgba {
    let sa = src.a as int;
    let tb = (dst.a as int) * (255 - sa) / 255;
    let oa = sa + tb;
    if oa == 0 {
        Rgba { r: 0, g: 0, b: 0, a: 0 }
    } else {
        Rgba {
            r: (((src.r as int) * sa + (dst.r as int) * tb) / oa) as u8,
            g: (((src.g as int) * sa + (dst.g as int) * tb) / oa) as u8,
            b: (((src.b as int) * sa + (dst.b as int) * tb) / oa) as u8,
            a: oa as u8,
        }
    }
}

/// The color an embedded image contributes at target pixel `(px, py)`:
/// nearest-neighbor sampling of its decoded pixels over the reference
/// rectangle, fully transparent where the image decodes to nothing.
pub open spec fn sampled_color(
    data: Seq<u8>,
    x: int,
    y: int,
    w: int,
    h: int,
    wpx: int,
    hpx: int,
    den: int,
    tw: int,
    th: int,
    px: int,
    py: int,
) -> Rgba {
    let dec = decoded_rgba(data);
    let iw = dec.0;
    let ih = dec.1;
    let pix = dec.2;
    if iw < 1 || ih < 1 || w < 1 || h < 1 || tw < 1 || th < 1 {
        Rgba { r: 0, g: 0, b: 0, a: 0 }
    } else {
        let sx0 = ((2 * px + 1) * (wpx * den) - 2 * tw * x) * iw / (2 * tw * w);
        let sy0 = ((2 * py + 1) * (hpx * den) - 2 * th * y) * ih / (2 * th * h);
        let sx = if sx0 < 0 {
            0
        } else if sx0 > iw - 1 {
            iw - 1
        } else {
            sx0
        };
        let sy = if sy0 < 0 {
            0
        } else if sy0 > ih - 1 {
            ih - 1
        } else {
            sy0
        };
        let base = 4 * (sy * iw + sx);
        Rgba { r: pix[base], g: pix[base + 1], b: pix[base + 2], a: pix[base + 3] }
    }
}

/// The canvas color at `(px, py)` after painting the first `k` primitives
/// in order onto the mode's background.
pub open spec fn color_upto(
    prims: Seq<Primitive>,
    wpx: int,
    hpx: int,
    den: int,
    tw: int,
    th: int,
    mode: BackgroundMode,
    px: int,
    py: int,
    k: int,
) -> Rgba
    decreases k,
{
    if k <= 0 {
        mode_color(mode)
    } else {
        let below = color_upto(prims, wpx, hpx, den, tw, th, mode, px, py, k - 1);
        let p = prims[k - 1];
        if covers(p, wpx, hpx, den, tw, th, px, py) {
            match p {
                Primitive::Background { fill } => fill,
                Primitive::Rect { fill, .. } => fill,
                Primitive::ImageRef { x, y, w, h, data } => blend_over(
                    below,
                    sampled_color(data@, x as int, y as int, w as int, h as int, wpx, hpx, den, tw, th, px, py),
                ),
            }
        } else {
            below
        }
    }
}

/// The color the rasterizer owes target pixel `(px, py)`: every primitive
/// painted in document order over the mode's background.
pub open spec fn rasterized_pixel(
    doc: VectorDocument,
    tw: int,
    th: int,
    mode: BackgroundMode,
    px: int,
    py: int,
) -> Rgba {
    color_upto(
        doc.prims@,
        doc.width_px as int,
        doc.height_px as int,
        doc.den as int,
        tw,
        th,
        mode,
        px,
        py,
        doc.prims@.len() as int,
    )
}

/// The interleaved RGBA bytes of a whole rasterized document, derived from
/// the per-pixel classification.
pub open spec fn rasterized_bytes(
    doc: VectorDocument,
    tw: int,
    th: int,
    mode: BackgroundMode,
) -> Seq<u8> {
    Seq::<u8>::new(
        (4 * (tw * th)) as nat,
        |b: int|
            {
                let k = b / 4;
                let c = b % 4;
                let p = rasterized_pixel(doc, tw, th, mode, k % tw, k / tw);
                if c == 0 {
                    p.r
                } else if c == 1 {
                    p.g
                } else if c == 2 {
                    p.b
                } else {
                    p.a
                }
            },
    )
}

/// A canvas whose pixels all carry their rasterized color serializes to
/// exactly `rasterized_bytes`.
pub proof fn lemma_rasterized_canvas_bytes(
    c: PixelCanvas,
    doc: VectorDocument,
    tw: int,
    th: int,
    mode: BackgroundMode,
)
    requires
        c.wf(),
        tw >= 1,
        th >= 1,
        c.spec_width() == tw,
        c.spec_height() == th,
        forall|px: int, py: int|
            0 <= px < tw && 0 <= py < th ==> #[trigger] c.pixel(px, py) == rasterized_pixel(
                doc,
                tw,
                th,
                mode,
                px,
                py,
            ),
    ensures
        c.spec_bytes() == rasterized_bytes(doc, tw, th, mode),
{
    crate::canvas::lemma_flatten_pixels_len(c.pixels@);
    assert forall|b: int| 0 <= b < 4 * (tw * th) implies #[trigger] c.spec_bytes()[b]
        == rasterized_bytes(doc, tw, th, mode)[b] by {
        let k = b / 4;
        assert(0 <= k < tw * th);
        let x = k % tw;
        let y = k / tw;
        assert(0 <= x < tw && 0 <= y < th && y * tw + x == k) by (nonlinear_arith)
            requires
                tw >= 1,
                th >= 1,
                0 <= k < tw * th,
                x == k % tw,
                y == k / tw,
        ;
        crate::canvas::lemma_flatten_pixels_index(c.pixels@, k);
        assert(c.pixels@[k] == c.pixel(x, y));
        assert(b == 4 * k || b == 4 * k + 1 || b == 4 * k + 2 || b == 4 * k + 3);
    }
    assert(c.spec_bytes() =~= rasterized_bytes(doc, tw, th, mode));
}

/// Whether every embedded image of the document carries decodable bytes;
/// vacuously true without embedded images.
pub open spec fn images_decodable(prims: Seq<Primitive>) -> bool {
    forall|k: int|
        0 <= k < prims.len() ==> match #[trigger] prims[k] {
            Primitive::ImageRef { data, .. } => crate::logo::decodable(data@),
            _ => true,
        }
}

/// A product grows no faster than the product of the bounds.
pub proof fn lemma_mul_le(a: int, b: int, c: int, d: int)
    by (nonlinear_arith)
    requires
        0 <= a <= c,
        0 <= b <= d,
    ensures
        a * b <= c * d,
{
}

/// The mode's background color as an executable value.
pub fn mode_fill(mode: BackgroundMode) -> (c: Rgba)
    ensures
        c == mode_color(mode),
{
    match mode {
        BackgroundMode::Transparent => Rgba { r: 0, g: 0, b: 0, a: 0 },
        BackgroundMode::OpaqueWhite => Rgba { r: 255, g: 255, b: 255, a: 255 },
    }
}

fn covers_exec(
    p: &Primitive,
    wpx: u32,
    hpx: u32,
    den: u32,
    tw: u32,
    th: u32,
    px: u32,
    py: u32,
) -> (b: bool)
    ensures
        b == covers(
            *p,
            wpx as int,
            hpx as int,
            den as int,
            tw as int,
            th as int,
            px as int,
            py as int,
        ),
{
    match p {
        Primitive::Background { .. } => true,
        Primitive::Rect { x, y, w, h, .. } | Primitive::ImageRef { x, y, w, h, .. } => {
            proof {
                let m32: int = 0xffff_ffff;
                let p34: int = 0x4_0000_0000;
                let p65: int = 0x2_0000_0000_0000_0000;
                lemma_mul_le(wpx as int, den as int, m32, m32);
                lemma_mul_le(hpx as int, den as int, m32, m32);
                lemma_mul_le(2 * (px as int) + 1, (wpx as int) * (den as int), p34, m32 * m32);
                lemma_mul_le(2 * (py as int) + 1, (hpx as int) * (den as int), p34, m32 * m32);
                lemma_mul_le(2 * (tw as int), *x as int, p34, p65);
                lemma_mul_le(2 * (th as int), *y as int, p34, p65);
                lemma_mul_le(2 * (tw as int), (*x as int) + (*w as int), p34, p65);
                lemma_mul_le(2 * (th as int), (*y as int) + (*h as int), p34, p65);
            }
            let cx: u128 = (2 * (px as u128) + 1) * ((wpx as u128) * (den as u128));
            let cy: u128 = (2 * (py as u128) + 1) * ((hpx as u128) * (den as u128));
            let sx: u128 = 2 * (tw as u128);
            let sy: u128 = 2 * (th as u128);
            sx * (*x as u128) <= cx && cx < sx * ((*x as u128) + (*w as u128)) && sy * (*y as u128)
                <= cy && cy < sy * ((*y as u128) + (*h as u128))
        },
    }
}

fn blend_exec(dst: Rgba, src: Rgba) -> (r: Rgba)
    ensures
        r == blend_over(dst, src),
{
    let sa: u32 = src.a as u32;
    proof {
        lemma_mul_le(dst.a as int, 255 - src.a as int, 255, 255 - src.a as int);
        assert(255 * (255 - src.a as int) / 255 == 255 - src.a as int) by (nonlinear_arith);
        vstd::arithmetic::div_mod::lemma_div_is_ordered(
            (dst.a as int) * (255 - src.a as int),
            255 * (255 - src.a as int),
            255,
        );
    }
    let tb: u32 = (dst.a as u32) * (255 - sa) / 255;
    let oa: u32 = sa + tb;
    if oa == 0 {
        Rgba { r: 0, g: 0, b: 0, a: 0 }
    } else {
        proof {
            lemma_mul_le(src.r as int, src.a as int, 255, src.a as int);
            lemma_mul_le(src.g as int, src.a as int, 255, src.a as int);
            lemma_mul_le(src.b as int, src.a as int, 255, src.a as int);
            lemma_mul_le(dst.r as int, tb as int, 255, tb as int);
            lemma_mul_le(dst.g as int, tb as int, 255, tb as int);
            lemma_mul_le(dst.b as int, tb as int, 255, tb as int);
            assert(255 * (src.a as int) + 255 * (tb as int) == 255 * (oa as int))
                by (nonlinear_arith)
                requires
                    oa == src.a + tb,
            ;
            vstd::arithmetic::div_mod::lemma_div_is_ordered(
                (src.r as int) * (src.a as int) + (dst.r as int) * (tb as int),
                255 * (oa as int),
                oa as int,
            );
            vstd::arithmetic::div_mod::lemma_div_is_ordered(
                (src.g as int) * (src.a as int) + (dst.g as int) * (tb as int),
                255 * (oa as int),
                oa as int,
            );
            vstd::arithmetic::div_mod::lemma_div_is_ordered(
                (src.b as int) * (src.a as int) + (dst.b as int) * (tb as int),
                255 * (oa as int),
                oa as int,
            );
            assert(255 * (oa as int) / (oa as int) == 255) by (nonlinear_arith)
                requires
                    oa >= 1,
            ;
        }
        Rgba {
            r: (((src.r as u32) * sa + (dst.r as u32) * tb) / oa) as u8,
            g: (((src.g as u32) * sa + (dst.g as u32) * tb) / oa) as u8,
            b: (((src.b as u32) * sa + (dst.b as u32) * tb) / oa) as u8,
            a: oa as u8,
        }
    }
}

fn sample_exec(
    pix: &Vec<u8>,
    iw: u32,
    ih: u32,
    data: Ghost<Seq<u8>>,
    x: u64,
    y: u64,
    w: u64,
    h: u64,
    wpx: u32,
    hpx: u32,
    den: u32,
    tw: u32,
    th: u32,
    px: u32,
    py: u32,
) -> (c: Rgba)
    requires
        (iw as int, ih as int, pix@) == decoded_rgba(data@),
        pix@.len() == 4 * ((iw as int) * (ih as int)),
        (wpx as int) * (den as int) <= 0xffff_ffff,
        (hpx as int) * (den as int) <= 0xffff_ffff,
        px < tw,
        py < th,
        2 * (tw as int) * (x as int) <= (2 * (px as int) + 1) * ((wpx as int) * (den as int)),
        2 * (th as int) * (y as int) <= (2 * (py as int) + 1) * ((hpx as int) * (den as int)),
    ensures
        c == sampled_color(
            data@,
            x as int,
            y as int,
            w as int,
            h as int,
            wpx as int,
            hpx as int,
            den as int,
            tw as int,
            th as int,
            px as int,
            py as int,
        ),
{
    if iw < 1 || ih < 1 || w < 1 || h < 1 || tw < 1 || th < 1 {
        return Rgba { r: 0, g: 0, b: 0, a: 0 };
    }
    proof {
        let m32: int = 0xffff_ffff;
        let p33: int = 0x2_0000_0000;
        let p34: int = 0x4_0000_0000;
        let p65: int = 0x2_0000_0000_0000_0000;
        lemma_mul_le(2 * (px as int) + 1, (wpx as int) * (den as int), p34, m32);
        lemma_mul_le(2 * (py as int) + 1, (hpx as int) * (den as int), p34, m32);
        lemma_mul_le(2 * (tw as int), x as int, p34, p65);
        lemma_mul_le(2 * (th as int), y as int, p34, p65);
        lemma_mul_le((2 * (px as int) + 1) * ((wpx as int) * (den as int)), iw as int, p34 * m32, m32);
        lemma_mul_le((2 * (py as int) + 1) * ((hpx as int) * (den as int)), ih as int, p34 * m32, m32);
        lemma_mul_le(2 * (tw as int), w as int, p34, p65);
        lemma_mul_le(2 * (th as int), h as int, p34, p65);
        lemma_mul_le(
            (2 * (px as int) + 1) * ((wpx as int) * (den as int)) - 2 * (tw as int) * (x as int),
            iw as int,
            p34 * m32,
            m32,
        );
        lemma_mul_le(
            (2 * (py as int) + 1) * ((hpx as int) * (den as int)) - 2 * (th as int) * (y as int),
            ih as int,
            p34 * m32,
            m32,
        );
        assert(2 * (tw as int) * (w as int) >= 1 && 2 * (th as int) * (h as int) >= 1)
            by (nonlinear_arith)
            requires
                tw >= 1,
                th >= 1,
                w >= 1,
                h >= 1,
        ;
    }
    let cx: u128 = (2 * (px as u128) + 1) * ((wpx as u128) * (den as u128));
    let cy: u128 = (2 * (py as u128) + 1) * ((hpx as u128) * (den as u128));
    let dx: u128 = cx - 2 * (tw as u128) * (x as u128);
    let dy: u128 = cy - 2 * (th as u128) * (y as u128);
    let sx0: u128 = dx * (iw as u128) / (2 * (tw as u128) * (w as u128));
    let sy0: u128 = dy * (ih as u128) / (2 * (th as u128) * (h as u128));
    let sx: u32 = if sx0 > (iw - 1) as u128 {
        iw - 1
    } else {
        sx0 as u32
    };
    let sy: u32 = if sy0 > (ih - 1) as u128 {
        ih - 1
    } else {
        sy0 as u32
    };
    let plen: usize = pix.len();
    proof {
        assert((sy as int) * (iw as int) + (sx as int) <= (ih as int) * (iw as int) - 1 && (
        iw as int) * (ih as int) == (ih as int) * (iw as int)) by (nonlinear_arith)
            requires
                0 <= sy as int <= ih as int - 1,
                0 <= sx as int <= iw as int - 1,
                iw >= 1,
                ih >= 1,
        ;
        assert(4 * ((sy as int) * (iw as int) + (sx as int)) + 3 < plen);
    }
    let base: usize = 4 * ((sy as usize) * (iw as usize) + (sx as usize));
    Rgba { r: pix[base], g: pix[base + 1], b: pix[base + 2], a: pix[base + 3] }
}

/// The target width when none or only one dimension is requested: the
/// document's native width, doubled for supersampling when neither
/// dimension was given.
pub open spec fn effective_width(doc: VectorDocument, tw: Option<u32>, th: Option<u32>) -> int {
    match tw {
        Some(v) => v as int,
        None => if th is Some {
            doc.width_px as int
        } else {
            2 * doc.width_px as int
        },
    }
}

/// As `effective_width`, for the height.
pub open spec fn effective_height(doc: VectorDocument, tw: Option<u32>, th: Option<u32>) -> int {
    match th {
        Some(v) => v as int,
        None => if tw is Some {
            doc.height_px as int
        } else {
            2 * doc.height_px as int
        },
    }
}

/// Paints a vector document onto a fresh pixel buffer at the requested
/// resolution: the rasterizer of the pipeline. Every primitive is drawn in
/// document order with crisp edges over the mode's background; embedded
/// images are sampled nearest-neighbor and source-over blended. Fails with
/// `RasterizeError` exactly when a target dimension is zero or an embedded
/// image does not decode.
pub fn rasterize(
    doc: &VectorDocument,
    target_width: Option<u32>,
    target_height: Option<u32>,
    mode: BackgroundMode,
) -> (r: Result<PixelCanvas, QrError>)
    requires
        doc.wf(),
        (doc.width_px as int) * (doc.den as int) <= 0xffff_ffff,
        (doc.height_px as int) * (doc.den as int) <= 0xffff_ffff,
        2 * doc.width_px <= u32::MAX,
        2 * doc.height_px <= u32::MAX,
        effective_width(*doc, target_width, target_height) * effective_height(
            *doc,
            target_width,
            target_height,
        ) <= usize::MAX,
    ensures
        r is Err ==> r == Err::<PixelCanvas, QrError>(QrError::RasterizeError),
        r is Ok <==> effective_width(*doc, target_width, target_height) >= 1 && effective_height(
            *doc,
            target_width,
            target_height,
        ) >= 1 && images_decodable(doc.prims@),
        r is Ok ==> ({
            let c = r->Ok_0;
            let ew = effective_width(*doc, target_width, target_height);
            let eh = effective_height(*doc, target_width, target_height);
            &&& c.wf()
            &&& c.spec_width() == ew
            &&& c.spec_height() == eh
            &&& forall|px: int, py: int|
                0 <= px < ew && 0 <= py < eh ==> #[trigger] c.pixel(px, py) == rasterized_pixel(
                    *doc,
                    ew,
                    eh,
                    mode,
                    px,
                    py,
                )
        }),
{
    let tw: u32 = match target_width {
        Some(v) => v,
        None => match target_height {
            Some(_) => doc.width_px,
            None => 2 * doc.width_px,
        },
    };
    let th: u32 = match target_height {
        Some(v) => v,
        None => match target_width {
            Some(_) => doc.height_px,
            None => 2 * doc.height_px,
        },
    };
    if tw == 0 || th == 0 {
        return Err(QrError::RasterizeError);
    }
    let len = doc.prims.len();
    let mut decs: Vec<Option<(u32, u32, Vec<u8>)>> = Vec::new();
    let mut k: usize = 0;
    while k < len
        invariant
            k <= len,
            len == doc.prims@.len(),
            decs@.len() == k,
            forall|i: int|
                0 <= i < k ==> match doc.prims@[i] {
                    Primitive::ImageRef { data, .. } => {
                        &&& #[trigger] decs@[i] matches Some(t)
                        &&& crate::logo::decodable(data@)
                        &&& (t.0 as int, t.1 as int, t.2@) == decoded_rgba(data@)
                        &&& t.2@.len() == 4 * ((t.0 as int) * (t.1 as int))
                    },
                    _ => decs@[i] is None,
                },
        decreases len - k,
    {
        match &doc.prims[k] {
            Primitive::ImageRef { data, .. } => {
                match crate::logo::decode_image(data) {
                    Ok(t) => {
                        decs.push(Some(t));
                    },
                    Err(_) => {
                        proof {
                            assert(!images_decodable(doc.prims@));
                        }
                        return Err(QrError::RasterizeError);
                    },
                }
            },
            _ => {
                decs.push(None);
            },
        }
        k = k + 1;
    }
    proof {
        assert forall|i: int| 0 <= i < doc.prims@.len() implies match #[trigger] doc.prims@[i] {
            Primitive::ImageRef { data, .. } => crate::logo::decodable(data@),
            _ => true,
        } by {
            assert(0 <= i < decs@.len());
            let witness = decs@[i];
        }
        assert(images_decodable(doc.prims@));
    }
    let fill = mode_fill(mode);
    let mut c = PixelCanvas::filled(tw, th, fill);
    let ghost wpx = doc.width_px as int;
    let ghost hpx = doc.height_px as int;
    let ghost den = doc.den as int;
    let mut py: u32 = 0;
    while py < th
        invariant
            py <= th,
            tw >= 1,
            th >= 1,
            fill == mode_color(mode),
            len == doc.prims@.len(),
            wpx == doc.width_px as int,
            hpx == doc.height_px as int,
            den == doc.den as int,
            wpx * den <= 0xffff_ffff,
            hpx * den <= 0xffff_ffff,
            decs@.len() == len,
            forall|i: int|
                0 <= i < len ==> match doc.prims@[i] {
                    Primitive::ImageRef { data, .. } => {
                        &&& #[trigger] decs@[i] matches Some(t)
                        &&& (t.0 as int, t.1 as int, t.2@) == decoded_rgba(data@)
                        &&& t.2@.len() == 4 * ((t.0 as int) * (t.1 as int))
                    },
                    _ => decs@[i] is None,
                },
            c.wf(),
            c.spec_width() == tw,
            c.spec_height() == th,
            forall|qx: int, qy: int|
                0 <= qx < tw && 0 <= qy < py ==> #[trigger] c.pixel(qx, qy) == color_upto(
                    doc.prims@,
                    wpx,
                    hpx,
                    den,
                    tw as int,
                    th as int,
                    mode,
                    qx,
                    qy,
                    len as int,
                ),
            forall|qx: int, qy: int|
                0 <= qx < tw && py <= qy < th ==> #[trigger] c.pixel(qx, qy) == mode_color(mode),
        decreases th - py,
    {
        let mut px: u32 = 0;
        while px < tw
            invariant
                px <= tw,
                py < th,
                tw >= 1,
                th >= 1,
                fill == mode_color(mode),
                len == doc.prims@.len(),
                wpx == doc.width_px as int,
                hpx == doc.height_px as int,
                den == doc.den as int,
                wpx * den <= 0xffff_ffff,
                hpx * den <= 0xffff_ffff,
                decs@.len() == len,
                forall|i: int|
                    0 <= i < len ==> match doc.prims@[i] {
                        Primitive::ImageRef { data, .. } => {
                            &&& #[trigger] decs@[i] matches Some(t)
                            &&& (t.0 as int, t.1 as int, t.2@) == decoded_rgba(data@)
                            &&& t.2@.len() == 4 * ((t.0 as int) * (t.1 as int))
                        },
                        _ => decs@[i] is None,
                    },
                c.wf(),
                c.spec_width() == tw,
                c.spec_height() == th,
                forall|qx: int, qy: int|
                    0 <= qx < tw && 0 <= qy < py ==> #[trigger] c.pixel(qx, qy) == color_upto(
                        doc.prims@,
                        wpx,
                        hpx,
                        den,
                        tw as int,
                        th as int,
                        mode,
                        qx,
                        qy,
                        len as int,
                    ),
                forall|qx: int|
                    0 <= qx < px ==> #[trigger] c.pixel(qx, py as int) == color_upto(
                        doc.prims@,
                        wpx,
                        hpx,
                        den,
                        tw as int,
                        th as int,
                        mode,
                        qx,
                        py as int,
                        len as int,
                    ),
                forall|qx: int, qy: int|
                    0 <= qx < tw && py <= qy < th && !(qy == py && qx < px) ==> #[trigger] c.pixel(
                        qx,
                        qy,
                    ) == mode_color(mode),
            decreases tw - px,
        {
            let mut acc: Rgba = fill;
            proof {
                assert(fill == mode_color(mode));
                assert(color_upto(
                    doc.prims@,
                    wpx,
                    hpx,
                    den,
                    tw as int,
                    th as int,
                    mode,
                    px as int,
                    py as int,
                    0,
                ) == mode_color(mode));
            }
            let mut k2: usize = 0;
            while k2 < len
                invariant
                    k2 <= len,
                    px < tw,
                    py < th,
                    len == doc.prims@.len(),
                    wpx == doc.width_px as int,
                    hpx == doc.height_px as int,
                    den == doc.den as int,
                    wpx * den <= 0xffff_ffff,
                    hpx * den <= 0xffff_ffff,
                    decs@.len() == len,
                    forall|i: int|
                        0 <= i < len ==> match doc.prims@[i] {
                            Primitive::ImageRef { data, .. } => {
                                &&& #[trigger] decs@[i] matches Some(t)
                                &&& (t.0 as int, t.1 as int, t.2@) == decoded_rgba(data@)
                                &&& t.2@.len() == 4 * ((t.0 as int) * (t.1 as int))
                            },
                            _ => decs@[i] is None,
                        },
                    acc == color_upto(
                        doc.prims@,
                        wpx,
                        hpx,
                        den,
                        tw as int,
                        th as int,
                        mode,
                        px as int,
                        py as int,
                        k2 as int,
                    ),
                decreases len - k2,
            {
                let p = &doc.prims[k2];
                if covers_exec(p, doc.width_px, doc.height_px, doc.den, tw, th, px, py) {
                    match p {
                        Primitive::Background { fill: f } => {
                            acc = *f;
                        },
                        Primitive::Rect { fill: f, .. } => {
                            acc = *f;
                        },
                        Primitive::ImageRef { x, y, w, h, data } => {
                            match &decs[k2] {
                                Some(t) => {
                                    let s = sample_exec(
                                        &t.2,
                                        t.0,
                                        t.1,
                                        Ghost(data@),
                                        *x,
                                        *y,
                                        *w,
                                        *h,
                                        doc.width_px,
                                        doc.height_px,
                                        doc.den,
                                        tw,
                                        th,
                                        px,
                                        py,
                                    );
                                    acc = blend_exec(acc, s);
                                },
                                None => {
                                    proof {
                                        assert(false);
                                    }
                                },
                            }
                        },
                    }
                }
                k2 = k2 + 1;
            }
            c.set(px, py, acc);
            px = px + 1;
        }
        py = py + 1;
    }
    proof {
        assert forall|qx: int, qy: int| 0 <= qx < tw && 0 <= qy < th implies #[trigger] c.pixel(
            qx,
            qy,
        ) == rasterized_pixel(
            *doc,
            effective_width(*doc, target_width, target_height),
            effective_height(*doc, target_width, target_height),
            mode,
            qx,
            qy,
        ) by {
        }
    }
    Ok(c)
}

/// The JPEG quality a caller asked for, defaulted to 90.
pub open spec fn requested_quality(quality: Option<u32>) -> int {
    match quality {
        Some(q) => q as int,
        None => 90,
    }
}

/// The raster formats a vector document can be converted to.
#[derive(Clone, Copy, PartialEq, Eq, Structural, Debug)]
pub enum OutputFormat {
    Png,
    Jpeg,
    Webp,
}

/// The document's own sizes fit the rasterizer's coordinate arithmetic: a
/// pixel size that can be doubled and a user space within `u32`.
pub open spec fn doc_in_range(doc: VectorDocument) -> bool {
    &&& doc.width_px <= 0x7fff_ffff
    &&& doc.height_px <= 0x7fff_ffff
    &&& (doc.width_px as int) * (doc.den as int) <= 0xffff_ffff
    &&& (doc.height_px as int) * (doc.den as int) <= 0xffff_ffff
}

/// The effective target is a nonzero `u32` surface whose pixel buffer fits
/// the machine.
pub open spec fn target_in_range(doc: VectorDocument, tw: Option<u32>, th: Option<u32>) -> bool {
    let ew = effective_width(doc, tw, th);
    let eh = effective_height(doc, tw, th);
    &&& 1 <= ew <= 0xffff_ffff
    &&& 1 <= eh <= 0xffff_ffff
    &&& ew * eh <= usize::MAX as int / 4
}

/// Whether the chosen serializer takes the rasterized surface: PNG by its
/// named success, JPEG and WebP by their format's side limits.
pub open spec fn encoder_accepts(
    doc: VectorDocument,
    tw: Option<u32>,
    th: Option<u32>,
    format: OutputFormat,
) -> bool {
    let ew = effective_width(doc, tw, th);
    let eh = effective_height(doc, tw, th);
    match format {
        OutputFormat::Png => crate::encode::png_ok(
            ew,
            eh,
            rasterized_bytes(doc, ew, eh, BackgroundMode::Transparent),
        ),
        OutputFormat::Jpeg => ew <= 65535 && eh <= 65535,
        OutputFormat::Webp => ew <= 16384 && eh <= 16384,
    }
}

/// Rasterizes a vector document at the requested resolution and serializes
/// the pixels in the requested format: the whole conversion pipeline after
/// parsing. Succeeds exactly when the document's and target's sizes are in
/// range, every embedded image decodes, and the serializer takes the
/// surface; dimension and paint failures are `RasterizeError`, serializer
/// failures `EncodeError`.
pub fn document_to_raster(
    doc: &VectorDocument,
    width: Option<u32>,
    height: Option<u32>,
    format: OutputFormat,
    quality: Option<u32>,
) -> (r: Result<Vec<u8>, QrError>)
    requires
        doc.wf(),
    ensures
        r is Ok <==> doc_in_range(*doc) && target_in_range(*doc, width, height)
            && images_decodable(doc.prims@) && encoder_accepts(*doc, width, height, format),
        r is Err ==> (r->Err_0 == QrError::RasterizeError || r->Err_0 == QrError::EncodeError),
        r is Ok && format is Png ==> r->Ok_0@ == crate::encode::png_bytes(
            effective_width(*doc, width, height),
            effective_height(*doc, width, height),
            rasterized_bytes(
                *doc,
                effective_width(*doc, width, height),
                effective_height(*doc, width, height),
                BackgroundMode::Transparent,
            ),
        ),
        r is Ok && format is Webp ==> r->Ok_0@ == crate::encode::webp_bytes(
            effective_width(*doc, width, height),
            effective_height(*doc, width, height),
            rasterized_bytes(
                *doc,
                effective_width(*doc, width, height),
                effective_height(*doc, width, height),
                BackgroundMode::Transparent,
            ),
        ),
        r is Ok && format is Jpeg ==> r->Ok_0@ == crate::encode::jpeg_bytes(
            effective_width(*doc, width, height),
            effective_height(*doc, width, height),
            crate::encode::rgb_of(
                rasterized_bytes(
                    *doc,
                    effective_width(*doc, width, height),
                    effective_height(*doc, width, height),
                    BackgroundMode::OpaqueWhite,
                ),
            ),
            crate::encode::clamp_quality(requested_quality(quality)),
        ),
{
    if doc.width_px > 0x7fff_ffff || doc.height_px > 0x7fff_ffff {
        return Err(QrError::RasterizeError);
    }
    proof {
        lemma_mul_le(doc.width_px as int, doc.den as int, 0xffff_ffff, 0xffff_ffff);
        lemma_mul_le(doc.height_px as int, doc.den as int, 0xffff_ffff, 0xffff_ffff);
    }
    if (doc.width_px as u64) * (doc.den as u64) > 0xffff_ffff || (doc.height_px as u64) * (
    doc.den as u64) > 0xffff_ffff {
        return Err(QrError::RasterizeError);
    }
    let ew: u64 = match width {
        Some(v) => v as u64,
        None => match height {
            Some(_) => doc.width_px as u64,
            None => 2 * (doc.width_px as u64),
        },
    };
    let eh: u64 = match height {
        Some(v) => v as u64,
        None => match width {
            Some(_) => doc.height_px as u64,
            None => 2 * (doc.height_px as u64),
        },
    };
    proof {
        lemma_mul_le(ew as int, eh as int, 0xffff_ffff_ffff_ffff, 0xffff_ffff_ffff_ffff);
    }
    if ew > 0xffff_ffff || eh > 0xffff_ffff {
        return Err(QrError::RasterizeError);
    }
    proof {
        lemma_mul_le(ew as int, eh as int, 0xffff_ffff, 0xffff_ffff);
    }
    if (ew * eh) > (usize::MAX as u64) / 4 {
        return Err(QrError::RasterizeError);
    }
    let bmode = mode_for(format);
    let c = match rasterize(doc, width, height, bmode) {
        Ok(c) => c,
        Err(e) => { return Err(e) },
    };
    let data = c.to_bytes();
    let cw = c.width();
    let ch = c.height();
    proof {
        lemma_rasterized_canvas_bytes(c, *doc, cw as int, ch as int, bmode);
    }
    match format {
        OutputFormat::Png => crate::encode::encode_png(cw, ch, &data),
        OutputFormat::Webp => crate::encode::encode_webp(cw, ch, &data),
        OutputFormat::Jpeg => {
            let q: u32 = match quality {
                Some(v) => v,
                None => 90,
            };
            crate::encode::encode_jpeg(cw, ch, &data, q)
        },
    }
}

/// Parses SVG markup, rasterizes it at the requested resolution, and
/// serializes the pixels in the requested format. JPEG starts from an
/// opaque white canvas, since it cannot keep alpha; PNG and WebP keep the
/// canvas transparent. The JPEG quality defaults to 90 and is clamped to
/// `1..=100`. What the serializers owe once the text parses stands at
/// `document_to_raster`, which this function hands the parsed document.
pub fn svg_to_raster(
    svg: &str,
    width: Option<u32>,
    height: Option<u32>,
    format: OutputFormat,
    quality: Option<u32>,
) -> (r: Result<Vec<u8>, QrError>)
    ensures
        r is Err ==> (r->Err_0 == QrError::RasterizeError || r->Err_0 == QrError::EncodeError),
        r is Ok && format is Jpeg ==> exists|doc: VectorDocument|
            {
                let ew = effective_width(doc, width, height);
                let eh = effective_height(doc, width, height);
                #[trigger] doc.wf() && r->Ok_0@ == crate::encode::jpeg_bytes(
                    ew,
                    eh,
                    crate::encode::rgb_of(
                        rasterized_bytes(doc, ew, eh, BackgroundMode::OpaqueWhite),
                    ),
                    crate::encode::clamp_quality(requested_quality(quality)),
                )
            },
        r is Ok && format is Png ==> exists|doc: VectorDocument|
            {
                let ew = effective_width(doc, width, height);
                let eh = effective_height(doc, width, height);
                #[trigger] doc.wf() && r->Ok_0@ == crate::encode::png_bytes(
                    ew,
                    eh,
                    rasterized_bytes(doc, ew, eh, BackgroundMode::Transparent),
                )
            },
        r is Ok && format is Webp ==> exists|doc: VectorDocument|
            {
                let ew = effective_width(doc, width, height);
                let eh = effective_height(doc, width, height);
                #[trigger] doc.wf() && r->Ok_0@ == crate::encode::webp_bytes(
                    ew,
                    eh,
                    rasterized_bytes(doc, ew, eh, BackgroundMode::Transparent),
                )
            },
{
    let doc = match crate::parse::parse_svg(svg) {
        Ok(d) => d,
        Err(_) => { return Err(QrError::RasterizeError) },
    };
    let res = document_to_raster(&doc, width, height, format, quality);
    proof {
        if res is Ok {
            assert(doc.wf());
        }
    }
    res
}

/// The background mode each output format calls for.
pub fn mode_for(format: OutputFormat) -> (m: BackgroundMode)
    ensures
        m == (if format is Jpeg {
            BackgroundMode::OpaqueWhite
        } else {
            BackgroundMode::Transparent
        }),
{
    match format {
        OutputFormat::Jpeg => BackgroundMode::OpaqueWhite,
        OutputFormat::Png | OutputFormat::Webp => BackgroundMode::Transparent,
    }
}

/// Converts SVG markup straight to PNG bytes.
pub fn convert_svg_to_png(svg: &str, width: Option<u32>, height: Option<u32>) -> (r: Result<
    Vec<u8>,
    QrError,
>)
    ensures
        r is Err ==> (r->Err_0 == QrError::RasterizeError || r->Err_0 == QrError::EncodeError),
{
    svg_to_raster(svg, width, height, OutputFormat::Png, None)
}

/// Converts SVG markup straight to JPEG bytes at the clamped quality.
pub fn convert_svg_to_jpeg(svg: &str, width: Option<u32>, height: Option<u32>, quality: Option<
    u32,
>) -> (r: Result<Vec<u8>, QrError>)
    ensures
        r is Err ==> (r->Err_0 == QrError::RasterizeError || r->Err_0 == QrError::EncodeError),
        r is Ok ==> exists|doc: VectorDocument|
            {
                let ew = effective_width(doc, width, height);
                let eh = effective_height(doc, width, height);
                #[trigger] doc.wf() && r->Ok_0@ == crate::encode::jpeg_bytes(
                    ew,
                    eh,
                    crate::encode::rgb_of(
                        rasterized_bytes(doc, ew, eh, BackgroundMode::OpaqueWhite),
                    ),
                    crate::encode::clamp_quality(requested_quality(quality)),
                )
            },
{
    svg_to_raster(svg, width, height, OutputFormat::Jpeg, quality)
}

/// Converts SVG markup straight to lossless WebP bytes.
pub fn convert_svg_to_webp(svg: &str, width: Option<u32>, height: Option<u32>) -> (r: Result<
    Vec<u8>,
    QrError,
>)
    ensures
        r is Err ==> (r->Err_0 == QrError::RasterizeError || r->Err_0 == QrError::EncodeError),
{
    svg_to_raster(svg, width, height, OutputFormat::Webp, None)
}

} // verus!
