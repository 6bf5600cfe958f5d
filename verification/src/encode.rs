use vstd::prelude::*;
use crate::logo::decoded_rgba;
use crate::QrError;
use image::ImageEncoder;

verus! {

pub uninterp spec fn png_bytes(w: int, h: int, data: Seq<u8>) -> Seq<u8>;

pub uninterp spec fn png_ok(w: int, h: int, data: Seq<u8>) -> bool;

/// Relies on image::codecs::png::PngEncoder: it serializes an RGBA buffer
/// of the given dimensions losslessly, alpha kept; whether it succeeds is
/// a function of the buffer and dimensions alone. Decoding the output
/// gives the buffer back exactly, stated only below the decoder's default
/// 512 MiB allocation cap, since image::load_from_memory refuses larger
/// pixel buffers.
#[verifier::external_body]
fn png_encode_raw(w: u32, h: u32, data: &Vec<u8>) -> (r: Result<Vec<u8>, QrError>)
    requires
        data@.len() == 4 * (w * h),
        w >= 1,
        h >= 1,
    ensures
        match r {
            Ok(out) => png_ok(w as int, h as int, data@) && out@ == png_bytes(
                w as int,
                h as int,
                data@,
            ) && (4 * ((w as int) * (h as int)) < 0x2000_0000 ==> decoded_rgba(out@) == (
            w as int,
            h as int,
            data@,
            ) && crate::logo::decodable(out@)),
            Err(e) => !png_ok(w as int, h as int, data@) && e == QrError::EncodeError,
        },
{
    let mut out: Vec<u8> = Vec::new();
    let enc = image::codecs::png::PngEncoder::new(&mut out);
    match enc.write_image(data, w, h, image::ExtendedColorType::Rgba8) {
        Ok(()) => Ok(out),
        Err(_) => Err(QrError::EncodeError),
    }
}

pub uninterp spec fn jpeg_bytes(w: int, h: int, rgb: Seq<u8>, quality: int) -> Seq<u8>;

/// Relies on image::codecs::jpeg::JpegEncoder: it serializes an RGB buffer
/// of the given dimensions at the given quality; JPEG has no alpha
/// channel. It succeeds exactly when both sides are at most 65535, the
/// format's limit, which the encoder checks up front; writing into a
/// vector cannot fail otherwise.
#[verifier::external_body]
fn jpeg_encode_raw(w: u32, h: u32, rgb: &Vec<u8>, quality: u8) -> (r: Result<Vec<u8>, QrError>)
    requires
        rgb@.len() == 3 * (w * h),
        w >= 1,
        h >= 1,
        1 <= quality <= 100,
    ensures
        match r {
            Ok(out) => w <= 65535 && h <= 65535 && out@ == jpeg_bytes(
                w as int,
                h as int,
                rgb@,
                quality as int,
            ),
            Err(e) => !(w <= 65535 && h <= 65535) && e == QrError::EncodeError,
        },
{
    let mut out: Vec<u8> = Vec::new();
    let enc = image::codecs::jpeg::JpegEncoder::new_with_quality(&mut out, quality);
    match enc.write_image(rgb, w, h, image::ExtendedColorType::Rgb8) {
        Ok(()) => Ok(out),
        Err(_) => Err(QrError::EncodeError),
    }
}

pub uninterp spec fn webp_bytes(w: int, h: int, data: Seq<u8>) -> Seq<u8>;

/// Relies on image::codecs::webp::WebPEncoder::new_lossless: it serializes
/// an RGBA buffer of the given dimensions losslessly, alpha kept. It
/// succeeds exactly when both sides are at most 16384, the limit the
/// encoder checks up front; writing into a vector cannot fail otherwise.
/// Decoding the output gives the buffer back exactly, stated only below
/// the decoder's default 512 MiB allocation cap.
#[verifier::external_body]
fn webp_encode_raw(w: u32, h: u32, data: &Vec<u8>) -> (r: Result<Vec<u8>, QrError>)
    requires
        data@.len() == 4 * (w * h),
        w >= 1,
        h >= 1,
    ensures
        match r {
            Ok(out) => w <= 16384 && h <= 16384 && out@ == webp_bytes(
                w as int,
                h as int,
                data@,
            ) && (4 * ((w as int) * (h as int)) < 0x2000_0000 ==> decoded_rgba(out@) == (
            w as int,
            h as int,
            data@,
            ) && crate::logo::decodable(out@)),
            Err(e) => !(w <= 16384 && h <= 16384) && e == QrError::EncodeError,
        },
{
    let mut out: Vec<u8> = Vec::new();
    let enc = image::codecs::webp::WebPEncoder::new_lossless(&mut out);
    match enc.write_image(data, w, h, image::ExtendedColorType::Rgba8) {
        Ok(()) => Ok(out),
        Err(_) => Err(QrError::EncodeError),
    }
}

/// An interleaved RGBA buffer fits the declared dimensions.
pub open spec fn rgba_len_ok(w: int, h: int, data: Seq<u8>) -> bool {
    data.len() == 4 * (w * h) && w >= 1 && h >= 1
}

fn check_rgba_len(w: u32, h: u32, data: &Vec<u8>) -> (ok: bool)
    ensures
        ok == rgba_len_ok(w as int, h as int, data@),
{
    let len: usize = data.len();
    proof {
        assert((w as int) * (h as int) < 0x1_0000_0000_0000_0000) by (nonlinear_arith)
            requires
                w < 0x1_0000_0000,
                h < 0x1_0000_0000,
        ;
    }
    w >= 1 && h >= 1 && len % 4 == 0 && (len / 4) as u64 == (w as u64) * (h as u64)
}

/// Serializes an RGBA canvas buffer as lossless PNG. Fails with
/// `EncodeError` when the byte count does not match the dimensions, and on
/// an encoder failure.
pub fn encode_png(width: u32, height: u32, rgba: &Vec<u8>) -> (r: Result<Vec<u8>, QrError>)
    ensures
        r is Ok <==> rgba_len_ok(width as int, height as int, rgba@) && png_ok(
            width as int,
            height as int,
            rgba@,
        ),
        r is Err ==> r == Err::<Vec<u8>, QrError>(QrError::EncodeError),
        r is Ok ==> r->Ok_0@ == png_bytes(width as int, height as int, rgba@) && (4 * ((
        width as int) * (height as int)) < 0x2000_0000 ==> decoded_rgba(r->Ok_0@) == (
            width as int,
            height as int,
            rgba@,
        )),
{
    if !check_rgba_len(width, height, rgba) {
        return Err(QrError::EncodeError);
    }
    png_encode_raw(width, height, rgba)
}

/// Serializes an RGBA canvas buffer as lossless WebP. Fails with
/// `EncodeError` when the byte count does not match the dimensions, and on
/// an encoder failure.
pub fn encode_webp(width: u32, height: u32, rgba: &Vec<u8>) -> (r: Result<Vec<u8>, QrError>)
    ensures
        r is Ok <==> rgba_len_ok(width as int, height as int, rgba@) && width <= 16384 && height
            <= 16384,
        r is Err ==> r == Err::<Vec<u8>, QrError>(QrError::EncodeError),
        r is Ok ==> r->Ok_0@ == webp_bytes(width as int, height as int, rgba@) && (4 * ((
        width as int) * (height as int)) < 0x2000_0000 ==> decoded_rgba(r->Ok_0@) == (
            width as int,
            height as int,
            rgba@,
        )),
{
    if !check_rgba_len(width, height, rgba) {
        return Err(QrError::EncodeError);
    }
    webp_encode_raw(width, height, rgba)
}

/// A quality forced into the valid `1..=100` range.
pub open spec fn clamp_quality(q: int) -> int {
    if q < 1 {
        1
    } else if q > 100 {
        100
    } else {
        q
    }
}

/// The RGB bytes of an interleaved RGBA buffer: every fourth byte, the
/// alpha, is dropped.
pub open spec fn rgb_of(data: Seq<u8>) -> Seq<u8>
    decreases data.len(),
{
    if data.len() < 4 {
        Seq::<u8>::empty()
    } else {
        data.take(3) + rgb_of(data.skip(4))
    }
}

/// Copies the R, G and B byte of each pixel, discarding the alpha channel.
pub fn strip_alpha(data: &Vec<u8>) -> (r: Vec<u8>)
    requires
        data@.len() % 4 == 0,
    ensures
        r@ == rgb_of(data@),
        r@.len() == 3 * (data@.len() / 4),
{
    let len = data.len();
    let mut out: Vec<u8> = Vec::new();
    let mut i: usize = 0;
    proof {
        assert(data@.skip(0) =~= data@);
    }
    while len - i >= 4
        invariant
            i <= len,
            i % 4 == 0,
            len == data@.len(),
            len % 4 == 0,
            out@.len() == 3 * (i / 4),
            rgb_of(data@) == out@ + rgb_of(data@.skip(i as int)),
        decreases len - i,
    {
        let ghost pre = out@;
        let ghost t = data@.skip(i as int);
        out.push(data[i]);
        out.push(data[i + 1]);
        out.push(data[i + 2]);
        proof {
            assert(t.len() >= 4);
            assert(t[0] == data@[i as int] && t[1] == data@[i + 1] && t[2] == data@[i + 2]);
            assert(out@ =~= pre + t.take(3));
            assert(t.skip(4) =~= data@.skip(i + 4));
            assert(rgb_of(data@) =~= out@ + rgb_of(data@.skip(i + 4)));
        }
        i = i + 4;
    }
    proof {
        assert(data@.skip(len as int).len() == 0);
        assert(rgb_of(data@.skip(len as int)) =~= Seq::<u8>::empty());
        assert(rgb_of(data@) =~= out@);
    }
    out
}

/// Serializes an RGBA canvas buffer as JPEG at the clamped quality,
/// dropping the alpha channel byte-wise. Fails with `EncodeError` when the
/// byte count does not match the dimensions, and on an encoder failure.
pub fn encode_jpeg(width: u32, height: u32, rgba: &Vec<u8>, quality: u32) -> (r: Result<
    Vec<u8>,
    QrError,
>)
    ensures
        r is Ok <==> rgba_len_ok(width as int, height as int, rgba@) && width <= 65535 && height
            <= 65535,
        r is Err ==> r == Err::<Vec<u8>, QrError>(QrError::EncodeError),
        r is Ok ==> r->Ok_0@ == jpeg_bytes(
            width as int,
            height as int,
            rgb_of(rgba@),
            clamp_quality(quality as int),
        ),
{
    if !check_rgba_len(width, height, rgba) {
        return Err(QrError::EncodeError);
    }
    let q: u8 = if quality < 1 {
        1
    } else if quality > 100 {
        100
    } else {
        quality as u8
    };
    let rgb = strip_alpha(rgba);
    proof {
        assert(rgb@.len() == 3 * ((width as int) * (height as int))) by (nonlinear_arith)
            requires
                rgb@.len() == 3 * (rgba@.len() / 4),
                rgba@.len() == 4 * ((width as int) * (height as int)),
        ;
    }
    jpeg_encode_raw(width, height, &rgb, q)
}

} // verus!
