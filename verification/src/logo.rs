use vstd::prelude::*;
use crate::canvas::PixelCanvas;
use crate::vector::{Primitive, VectorDocument};
use crate::QrError;

verus! {

/// The byte of channel `c` of pixel `(i, j)` in an interleaved RGBA buffer
/// of width `w`.
pub open spec fn byte_at(data: Seq<u8>, w: int, i: int, j: int, c: int) -> u8 {
    data[4 * (j * w + i) + c]
}

pub uninterp spec fn decoded_rgba(bytes: Seq<u8>) -> (int, int, Seq<u8>);

pub uninterp spec fn decodable(bytes: Seq<u8>) -> bool;

/// Relies on image::load_from_memory and DynamicImage::to_rgba8: the bytes
/// decode to one RGBA pixel buffer of the image's dimensions, or fail for
/// an unsupported encoding. Whether they decode is a function of the bytes
/// alone.
#[verifier::external_body]
pub(crate) fn decode_image(bytes: &Vec<u8>) -> (r: Result<(u32, u32, Vec<u8>), QrError>)
    ensures
        match r {
            Ok(t) => decodable(bytes@) && (t.0 as int, t.1 as int, t.2@) == decoded_rgba(bytes@)
                && t.2@.len() == 4 * (t.0 * t.1),
            Err(e) => !decodable(bytes@) && e == QrError::LogoDecodeError,
        },
{
    match image::load_from_memory(bytes) {
        Ok(img) => {
            let rgba = img.to_rgba8();
            let (w, h) = rgba.dimensions();
            Ok((w, h, rgba.into_raw()))
        },
        Err(_) => Err(QrError::LogoDecodeError),
    }
}

pub uninterp spec fn resampled(data: Seq<u8>, w: int, h: int, nw: int, nh: int) -> Seq<u8>;

/// Relies on image::imageops::resize with the Lanczos3 filter: it resamples
/// the buffer to the new dimensions, a function of the pixels and the four
/// sizes alone. The kernel computes in `f32` through the platform's math
/// library, so any two calls in one process agree; bit-identity across
/// platforms is not something std promises.
#[verifier::external_body]
fn resize_rgba(data: &Vec<u8>, w: u32, h: u32, nw: u32, nh: u32) -> (r: Vec<u8>)
    requires
        data@.len() == 4 * (w * h),
        4 * (nw * nh) <= usize::MAX,
    ensures
        r@ == resampled(data@, w as int, h as int, nw as int, nh as int),
        r@.len() == 4 * (nw * nh),
{
    let img = image::RgbaImage::from_raw(w, h, data.clone()).unwrap();
    let out = image::imageops::resize(&img, nw, nh, image::imageops::FilterType::Lanczos3);
    out.into_raw()
}

pub uninterp spec fn overlaid(
    bottom: Seq<u8>,
    bw: int,
    bh: int,
    top: Seq<u8>,
    tw: int,
    th: int,
    x: int,
    y: int,
) -> Seq<u8>;

/// Relies on image::imageops::overlay: it source-over blends the top buffer
/// onto the bottom at the given offset, writing only pixels under the top
/// buffer's footprint.
#[verifier::external_body]
fn overlay_rgba(
    bottom: &Vec<u8>,
    bw: u32,
    bh: u32,
    top: &Vec<u8>,
    tw: u32,
    th: u32,
    x: u32,
    y: u32,
) -> (r: Vec<u8>)
    requires
        bottom@.len() == 4 * (bw * bh),
        top@.len() == 4 * (tw * th),
    ensures
        r@ == overlaid(bottom@, bw as int, bh as int, top@, tw as int, th as int, x as int, y as int),
        r@.len() == bottom@.len(),
        forall|i: int, j: int, c: int|
            0 <= i < bw && 0 <= j < bh && 0 <= c < 4 && !(x <= i < x + tw && y <= j < y + th)
                ==> #[trigger] byte_at(r@, bw as int, i, j, c) == byte_at(
                bottom@,
                bw as int,
                i,
                j,
                c,
            ),
{
    let mut out = image::RgbaImage::from_raw(bw, bh, bottom.clone()).unwrap();
    let top_img = image::RgbaImage::from_raw(tw, th, top.clone()).unwrap();
    image::imageops::overlay(&mut out, &top_img, x as i64, y as i64);
    out.into_raw()
}

/// The scaled logo side: `floor(canvas_size * ratio)`, the ratio given in
/// thousandths.
pub open spec fn logo_size_of(canvas_size: int, ratio_pm: int) -> int {
    canvas_size * ratio_pm / 1000
}

/// The ratio is rejected when it is zero or the scaled logo would fill or
/// overflow the canvas.
pub open spec fn ratio_ok(canvas_size: int, ratio_pm: int) -> bool {
    ratio_pm >= 1 && logo_size_of(canvas_size, ratio_pm) < canvas_size
}

/// The top-left offset that centers a square of side `ls` on the canvas,
/// rounded toward zero.
pub open spec fn center_offset(canvas_size: int, ls: int) -> int {
    (canvas_size - ls) / 2
}

/// Computes the centered logo square for a canvas, or rejects the ratio.
pub fn logo_layout(canvas_size: u32, ratio_pm: u32) -> (r: Result<(u32, u32), QrError>)
    ensures
        r is Ok <==> ratio_ok(canvas_size as int, ratio_pm as int),
        r is Err ==> r == Err::<(u32, u32), QrError>(QrError::InvalidRatio),
        r is Ok ==> ({
            let (ls, off) = r->Ok_0;
            ls == logo_size_of(canvas_size as int, ratio_pm as int) && off == center_offset(
                canvas_size as int,
                ls as int,
            ) && ls < canvas_size && off + ls <= canvas_size
        }),
{
    if ratio_pm == 0 {
        return Err(QrError::InvalidRatio);
    }
    proof {
        assert((canvas_size as int) * (ratio_pm as int) < 0x1_0000_0000_0000_0000)
            by (nonlinear_arith)
            requires
                0 <= canvas_size < 0x1_0000_0000,
                0 <= ratio_pm < 0x1_0000_0000,
        ;
    }
    let ls64: u64 = (canvas_size as u64) * (ratio_pm as u64) / 1000;
    if ls64 >= canvas_size as u64 {
        return Err(QrError::InvalidRatio);
    }
    let ls: u32 = ls64 as u32;
    let off: u32 = (canvas_size - ls) / 2;
    proof {
        assert(off + ls <= canvas_size);
    }
    Ok((ls, off))
}

impl PixelCanvas {
    /// Decodes the logo, scales it to `floor(canvas_size * ratio)` pixels
    /// square, and source-over composites it centered onto this canvas: the
    /// raster half of the logo compositor. Every pixel outside the logo's
    /// footprint keeps its value.
    pub fn overlay_logo(self, logo_bytes: &Vec<u8>, ratio_pm: u32) -> (r: Result<
        PixelCanvas,
        QrError,
    >)
        requires
            self.wf(),
            self.spec_width() == self.spec_height(),
            4 * (self.spec_width() * self.spec_width()) <= usize::MAX,
        ensures
            r is Ok <==> decodable(logo_bytes@) && ratio_ok(self.spec_width(), ratio_pm as int),
            !decodable(logo_bytes@) ==> r == Err::<PixelCanvas, QrError>(QrError::LogoDecodeError),
            decodable(logo_bytes@) && !ratio_ok(self.spec_width(), ratio_pm as int) ==> r == Err::<
                PixelCanvas,
                QrError,
            >(QrError::InvalidRatio),
            r is Ok ==> ({
                let c = r->Ok_0;
                let cs = self.spec_width();
                let ls = logo_size_of(cs, ratio_pm as int);
                let off = center_offset(cs, ls);
                let dec = decoded_rgba(logo_bytes@);
                &&& c.wf()
                &&& c.spec_width() == cs
                &&& c.spec_height() == cs
                &&& c.spec_bytes() == overlaid(
                    self.spec_bytes(),
                    cs,
                    cs,
                    resampled(dec.2, dec.0, dec.1, ls, ls),
                    ls,
                    ls,
                    off,
                    off,
                )
                &&& forall|i: int, j: int|
                    0 <= i < cs && 0 <= j < cs && !(off <= i < off + ls && off <= j < off + ls)
                        ==> #[trigger] c.pixel(i, j) == self.pixel(i, j)
            }),
    {
        let (lw, lh, lpix) = match decode_image(logo_bytes) {
            Ok(t) => t,
            Err(e) => { return Err(e) },
        };
        let cs: u32 = self.width();
        let (ls, off) = match logo_layout(cs, ratio_pm) {
            Ok(t) => t,
            Err(e) => { return Err(e) },
        };
        proof {
            assert(4 * ((ls as int) * (ls as int)) <= 4 * ((cs as int) * (cs as int)))
                by (nonlinear_arith)
                requires
                    0 <= ls <= cs,
            ;
        }
        let scaled = resize_rgba(&lpix, lw, lh, ls, ls);
        let bytes = self.to_bytes();
        let out = overlay_rgba(&bytes, cs, cs, &scaled, ls, ls, off, off);
        let c = PixelCanvas::from_bytes(cs, cs, &out);
        proof {
            let csi = cs as int;
            assert forall|i: int, j: int|
                0 <= i < csi && 0 <= j < csi && !(off <= i < off + ls && off <= j
                    < off + ls) implies #[trigger] c.pixel(i, j) == self.pixel(i, j) by {
                self.lemma_index_bound(i, j);
                c.lemma_index_bound(i, j);
                crate::canvas::lemma_flatten_pixels_index(self.pixels@, j * csi + i);
                crate::canvas::lemma_flatten_pixels_index(c.pixels@, j * csi + i);
                assert(byte_at(out@, csi, i, j, 0) == byte_at(bytes@, csi, i, j, 0) && byte_at(
                    out@,
                    csi,
                    i,
                    j,
                    1,
                ) == byte_at(bytes@, csi, i, j, 1) && byte_at(out@, csi, i, j, 2) == byte_at(
                    bytes@,
                    csi,
                    i,
                    j,
                    2,
                ) && byte_at(out@, csi, i, j, 3) == byte_at(bytes@, csi, i, j, 3));
            }
        }
        Ok(c)
    }
}

impl VectorDocument {
    /// Validates the logo bytes, then appends a centered embedded image
    /// reference scaled to `floor(canvas_size * ratio)` pixels: the vector
    /// half of the logo compositor. Every existing primitive is kept, in
    /// order.
    pub fn overlay_logo(self, logo_bytes: &Vec<u8>, ratio_pm: u32) -> (r: Result<
        VectorDocument,
        QrError,
    >)
        requires
            self.wf(),
            self.width_px == self.height_px,
        ensures
            r is Ok <==> decodable(logo_bytes@) && ratio_ok(self.width_px as int, ratio_pm as int),
            !decodable(logo_bytes@) ==> r == Err::<VectorDocument, QrError>(
                QrError::LogoDecodeError,
            ),
            decodable(logo_bytes@) && !ratio_ok(self.width_px as int, ratio_pm as int) ==> r
                == Err::<VectorDocument, QrError>(QrError::InvalidRatio),
            r is Ok ==> ({
                let d = r->Ok_0;
                let ls = logo_size_of(self.width_px as int, ratio_pm as int);
                let off = center_offset(self.width_px as int, ls);
                &&& d.wf()
                &&& d.width_px == self.width_px
                &&& d.height_px == self.height_px
                &&& d.den == self.den
                &&& d.prims@.len() == self.prims@.len() + 1
                &&& d.prims@.take(self.prims@.len() as int) == self.prims@
                &&& d.prims@.last() matches Primitive::ImageRef { x, y, w, h, data } && x == off
                    * self.den && y == off * self.den && w == ls * self.den && h == ls * self.den
                    && data@ == logo_bytes@
            }),
    {
        match decode_image(logo_bytes) {
            Ok(_) => {},
            Err(e) => { return Err(e) },
        };
        let cs: u32 = self.width_px;
        let (ls, off) = match logo_layout(cs, ratio_pm) {
            Ok(t) => t,
            Err(e) => { return Err(e) },
        };
        proof {
            assert((off as int) * (self.den as int) < 0x1_0000_0000_0000_0000 && (ls as int) * (
            self.den as int) < 0x1_0000_0000_0000_0000) by (nonlinear_arith)
                requires
                    0 <= off < 0x1_0000_0000,
                    0 <= ls < 0x1_0000_0000,
                    0 <= self.den < 0x1_0000_0000,
            ;
        }
        let mut d = self;
        let ghost before = d.prims@;
        d.prims.push(
            Primitive::ImageRef {
                x: (off as u64) * (d.den as u64),
                y: (off as u64) * (d.den as u64),
                w: (ls as u64) * (d.den as u64),
                h: (ls as u64) * (d.den as u64),
                data: logo_bytes.clone(),
            },
        );
        proof {
            assert(d.prims@.take(before.len() as int) =~= before);
        }
        Ok(d)
    }
}

} // verus!
