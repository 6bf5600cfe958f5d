use vstd::prelude::*;
use vstd::string::StrSliceExecFns;
use crate::color::Rgba;
use crate::vector::{Primitive, VectorDocument};
use crate::QrError;

verus! {

/// Scale used while numbers are read: six decimal places.
const MICRO: u64 = 1_000_000;

/// One million million: the largest whole part a coordinate may have.
const MAX_WHOLE: u64 = 1_000_000_000_000;

fn is_ws(c: u8) -> (b: bool)
    ensures
        b == (c == 32 || c == 9 || c == 10 || c == 13),
{
    c == 32 || c == 9 || c == 10 || c == 13
}

fn skip_ws(b: &Vec<u8>, i: &mut usize)
    requires
        *old(i) <= b@.len(),
    ensures
        *old(i) <= *final(i) <= b@.len(),
{
    while *i < b.len() && is_ws(b[*i])
        invariant
            *old(i) <= *i <= b@.len(),
        decreases b@.len() - *i,
    {
        *i = *i + 1;
    }
}

fn eat(b: &Vec<u8>, i: &mut usize, c: u8) -> (ok: bool)
    requires
        *old(i) <= b@.len(),
    ensures
        *old(i) <= *final(i) <= b@.len(),
        ok ==> *final(i) == *old(i) + 1,
{
    if *i < b.len() && b[*i] == c {
        *i = *i + 1;
        true
    } else {
        false
    }
}

/// Whether the bytes starting at `i` spell the ASCII word, advancing past
/// it when they do.
fn eat_word(b: &Vec<u8>, i: &mut usize, word: &str) -> (ok: bool)
    requires
        *old(i) <= b@.len(),
    ensures
        *old(i) <= *final(i) <= b@.len(),
        ok ==> *final(i) == *old(i) + word@.len(),
        !ok ==> *final(i) == *old(i),
{
    let n = word.unicode_len();
    let start: usize = *i;
    let mut j: usize = 0;
    while j < n
        invariant
            j <= n,
            n == word@.len(),
            *i <= b@.len(),
            start == *old(i),
            start <= *i,
            *i == start + j,
        decreases n - j,
    {
        if *i >= b.len() {
            *i = start;
            return false;
        }
        let c = word.get_char(j);
        if (b[*i] as u32) != (c as u32) {
            *i = start;
            return false;
        }
        *i = *i + 1;
        j = j + 1;
    }
    true
}

/// An unsigned decimal with up to six fractional digits, as a value in
/// millionths.
fn parse_number_micro(b: &Vec<u8>, i: &mut usize) -> (r: Option<u64>)
    requires
        *old(i) <= b@.len(),
    ensures
        *old(i) <= *final(i) <= b@.len(),
        r matches Some(v) ==> v <= 2_000_000_000_000_000_000,
{
    let mut whole: u64 = 0;
    let mut saw_digit = false;
    while *i < b.len() && 48 <= b[*i] && b[*i] <= 57
        invariant
            *i <= b@.len(),
            *old(i) <= *i,
            whole <= MAX_WHOLE,
        decreases b@.len() - *i,
    {
        if whole > MAX_WHOLE / 10 {
            return None;
        }
        whole = whole * 10 + ((b[*i] - 48) as u64);
        if whole > MAX_WHOLE {
            return None;
        }
        *i = *i + 1;
        saw_digit = true;
    }
    if !saw_digit {
        return None;
    }
    let mut frac: u64 = 0;
    let mut flen: u64 = 0;
    if *i < b.len() && b[*i] == 46 {
        *i = *i + 1;
        while *i < b.len() && 48 <= b[*i] && b[*i] <= 57
            invariant
                *i <= b@.len(),
                *old(i) <= *i,
                (flen == 0 && frac == 0) || (flen == 1 && frac <= 9) || (flen == 2 && frac <= 99)
                    || (flen == 3 && frac <= 999) || (flen == 4 && frac <= 9999) || (flen == 5
                    && frac <= 99999) || (flen == 6 && frac <= 999999),
            decreases b@.len() - *i,
        {
            if flen < 6 {
                frac = frac * 10 + ((b[*i] - 48) as u64);
                flen = flen + 1;
            }
            *i = *i + 1;
        }
        if flen == 0 {
            return None;
        }
    }
    let scale: u64 = if flen == 0 {
        1_000_000
    } else if flen == 1 {
        100_000
    } else if flen == 2 {
        10_000
    } else if flen == 3 {
        1_000
    } else if flen == 4 {
        100
    } else if flen == 5 {
        10
    } else {
        1
    };
    proof {
        assert(whole * MICRO <= MAX_WHOLE * MICRO) by (nonlinear_arith)
            requires
                0 <= whole <= MAX_WHOLE,
        ;
        assert(frac * scale < MICRO * MICRO) by (nonlinear_arith)
            requires
                0 <= frac < MICRO,
                0 <= scale <= MICRO,
        ;
    }
    Some(whole * MICRO + frac * scale)
}

/// The value between two double quotes, returned as its byte range.
fn parse_quoted(b: &Vec<u8>, i: &mut usize) -> (r: Option<(usize, usize)>)
    requires
        *old(i) <= b@.len(),
    ensures
        *old(i) <= *final(i) <= b@.len(),
        r is Some ==> *final(i) > *old(i),
        r matches Some(t) ==> t.0 <= t.1 <= b@.len(),
{
    if !eat(b, i, 34) {
        return None;
    }
    let start: usize = *i;
    while *i < b.len() && b[*i] != 34
        invariant
            start <= *i <= b@.len(),
        decreases b@.len() - *i,
    {
        *i = *i + 1;
    }
    if *i >= b.len() {
        return None;
    }
    let end: usize = *i;
    *i = *i + 1;
    Some((start, end))
}

/// An attribute name: letters and a few punctuation bytes.
fn parse_name(b: &Vec<u8>, i: &mut usize) -> (r: (usize, usize))
    requires
        *old(i) <= b@.len(),
    ensures
        *old(i) <= *final(i) <= b@.len(),
        r.0 == *old(i) && r.1 == *final(i) && r.0 <= r.1 <= b@.len(),
{
    let start: usize = *i;
    while *i < b.len() && ((65 <= b[*i] && b[*i] <= 90) || (97 <= b[*i] && b[*i] <= 122) || b[*i]
        == 58 || b[*i] == 45)
        invariant
            start == *old(i),
            start <= *i <= b@.len(),
        decreases b@.len() - *i,
    {
        *i = *i + 1;
    }
    (start, *i)
}

fn range_matches(b: &Vec<u8>, start: usize, end: usize, word: &str) -> (ok: bool)
    requires
        start <= end <= b@.len(),
{
    let n = word.unicode_len();
    if end - start != n {
        return false;
    }
    let mut j: usize = 0;
    while j < n
        invariant
            j <= n,
            n == word@.len(),
            start + n <= b@.len(),
            end - start == n,
        decreases n - j,
    {
        if (b[start + j] as u32) != (word.get_char(j) as u32) {
            return false;
        }
        j = j + 1;
    }
    true
}

/// A fill value: `rgb(r,g,b)` or `#RRGGBB`, always fully opaque.
fn parse_fill(b: &Vec<u8>, start: usize, end: usize) -> (r: Option<Rgba>)
    requires
        start <= end <= b@.len(),
{
    let mut i: usize = start;
    if eat_word(b, &mut i, "rgb(") {
        let rv = match parse_channel(b, &mut i, end) {
            Some(v) => v,
            None => { return None },
        };
        if !(i < end && eat(b, &mut i, 44)) {
            return None;
        }
        let gv = match parse_channel(b, &mut i, end) {
            Some(v) => v,
            None => { return None },
        };
        if !(i < end && eat(b, &mut i, 44)) {
            return None;
        }
        let bv = match parse_channel(b, &mut i, end) {
            Some(v) => v,
            None => { return None },
        };
        if !(i < end && eat(b, &mut i, 41)) {
            return None;
        }
        if i != end {
            return None;
        }
        Some(Rgba { r: rv, g: gv, b: bv, a: 255 })
    } else if i < end && b[i] == 35 && end - i == 7 {
        let h1 = hex_pair(b, i + 1);
        let h2 = hex_pair(b, i + 3);
        let h3 = hex_pair(b, i + 5);
        match (h1, h2, h3) {
            (Some(rv), Some(gv), Some(bv)) => Some(Rgba { r: rv, g: gv, b: bv, a: 255 }),
            _ => None,
        }
    } else {
        None
    }
}

fn hex_digit_val(c: u8) -> (r: Option<u8>)
    ensures
        r is Some ==> r->0 < 16,
{
    if 48 <= c && c <= 57 {
        Some(c - 48)
    } else if 97 <= c && c <= 102 {
        Some(c - 97 + 10)
    } else if 65 <= c && c <= 70 {
        Some(c - 65 + 10)
    } else {
        None
    }
}

fn hex_pair(b: &Vec<u8>, i: usize) -> (r: Option<u8>)
    requires
        i + 2 <= b@.len(),
{
    let l = b.len();
    proof {
        assert(i + 1 < l);
    }
    match (hex_digit_val(b[i]), hex_digit_val(b[i + 1])) {
        (Some(hi), Some(lo)) => Some(16 * hi + lo),
        _ => None,
    }
}

/// A color channel: up to three digits, at most 255.
fn parse_channel(b: &Vec<u8>, i: &mut usize, end: usize) -> (r: Option<u8>)
    requires
        *old(i) <= b@.len(),
        end <= b@.len(),
    ensures
        *old(i) <= *final(i) <= b@.len(),
{
    let mut v: u32 = 0;
    let mut digits: usize = 0;
    while *i < end && 48 <= b[*i] && b[*i] <= 57 && digits < 3
        invariant
            *old(i) <= *i <= b@.len(),
            end <= b@.len(),
            (digits == 0 && v == 0) || (digits == 1 && v <= 9) || (digits == 2 && v <= 99) || (
            digits == 3 && v <= 999),
        decreases end - *i,
    {
        v = v * 10 + ((b[*i] - 48) as u32);
        *i = *i + 1;
        digits = digits + 1;
    }
    if digits == 0 || v > 255 {
        None
    } else {
        Some(v as u8)
    }
}

/// Decodes standard base64 with optional `=` padding.
fn base64_decode(b: &Vec<u8>, start: usize, end: usize) -> (r: Option<Vec<u8>>)
    requires
        start <= end <= b@.len(),
{
    let mut out: Vec<u8> = Vec::new();
    let mut acc: u32 = 0;
    let mut nbits: u32 = 0;
    let mut i: usize = start;
    while i < end
        invariant
            start <= i <= end,
            end <= b@.len(),
            nbits <= 24,
            acc < 0x1000000,
        decreases end - i,
    {
        let c = b[i];
        let v: u32 = if 65 <= c && c <= 90 {
            (c - 65) as u32
        } else if 97 <= c && c <= 122 {
            (c - 97 + 26) as u32
        } else if 48 <= c && c <= 57 {
            (c - 48 + 52) as u32
        } else if c == 43 {
            62
        } else if c == 47 {
            63
        } else if c == 61 {
            i = i + 1;
            continue ;
        } else {
            return None;
        };
        acc = ((acc % 0x40000) * 64) + v;
        nbits = if nbits >= 18 {
            24
        } else {
            nbits + 6
        };
        if nbits == 24 {
            out.push(((acc / 65536) % 256) as u8);
            out.push(((acc / 256) % 256) as u8);
            out.push((acc % 256) as u8);
            acc = 0;
            nbits = 0;
        }
        i = i + 1;
    }
    if nbits == 12 {
        out.push(((acc / 16) % 256) as u8);
    } else if nbits == 18 {
        out.push(((acc / 1024) % 256) as u8);
        out.push(((acc / 4) % 256) as u8);
    }
    Some(out)
}

/// Reads a vector document back from its markup. The accepted form is the
/// one this library writes: an `svg` element with integer pixel width and
/// height and an optional `0 0 w h` view box, holding self-closing `rect`
/// and `image` elements whose coordinates are unsigned decimals, fills are
/// `rgb(r,g,b)` or `#RRGGBB`, and images are base64 data references.
/// Anything else fails with `RasterizeError`.
pub fn parse_svg(text: &str) -> (r: Result<VectorDocument, QrError>)
    ensures
        r is Ok ==> r->Ok_0.wf() && r->Ok_0.width_px >= 1 && r->Ok_0.height_px >= 1,
        r is Err ==> r == Err::<VectorDocument, QrError>(QrError::RasterizeError),
{
    if !text.is_ascii() {
        return Err(QrError::RasterizeError);
    }
    let b: Vec<u8> = text.as_bytes_vec();
    let mut i: usize = 0;
    skip_ws(&b, &mut i);
    if eat_word(&b, &mut i, "<?xml") {
        while i < b.len() && b[i] != 62
            invariant
                i <= b@.len(),
            decreases b@.len() - i,
        {
            i = i + 1;
        }
        if !eat(&b, &mut i, 62) {
            return Err(QrError::RasterizeError);
        }
        skip_ws(&b, &mut i);
    }
    if !eat_word(&b, &mut i, "<svg") {
        return Err(QrError::RasterizeError);
    }
    let mut width_px: u64 = 0;
    let mut height_px: u64 = 0;
    let mut vb: Option<(u64, u64)> = None;
    loop
        invariant
            i <= b@.len(),
            width_px <= 2_000_000_000_000,
            height_px <= 2_000_000_000_000,
        decreases b@.len() - i,
    {
        skip_ws(&b, &mut i);
        if eat(&b, &mut i, 62) {
            break ;
        }
        if i >= b.len() {
            return Err(QrError::RasterizeError);
        }
        let (ns, ne) = parse_name(&b, &mut i);
        if ns == ne {
            return Err(QrError::RasterizeError);
        }
        if !eat(&b, &mut i, 61) {
            return Err(QrError::RasterizeError);
        }
        let (vs, ve) = match parse_quoted(&b, &mut i) {
            Some(t) => t,
            None => { return Err(QrError::RasterizeError) },
        };
        if range_matches(&b, ns, ne, "width") {
            let mut j: usize = vs;
            match parse_number_micro(&b, &mut j) {
                Some(v) => {
                    if v % MICRO != 0 {
                        return Err(QrError::RasterizeError);
                    }
                    width_px = v / MICRO;
                },
                None => { return Err(QrError::RasterizeError) },
            }
        } else if range_matches(&b, ns, ne, "height") {
            let mut j: usize = vs;
            match parse_number_micro(&b, &mut j) {
                Some(v) => {
                    if v % MICRO != 0 {
                        return Err(QrError::RasterizeError);
                    }
                    height_px = v / MICRO;
                },
                None => { return Err(QrError::RasterizeError) },
            }
        } else if range_matches(&b, ns, ne, "viewBox") {
            let mut j: usize = vs;
            skip_ws(&b, &mut j);
            let v0 = match parse_number_micro(&b, &mut j) {
                Some(v) => v,
                None => { return Err(QrError::RasterizeError) },
            };
            skip_ws(&b, &mut j);
            let v1 = match parse_number_micro(&b, &mut j) {
                Some(v) => v,
                None => { return Err(QrError::RasterizeError) },
            };
            skip_ws(&b, &mut j);
            let v2 = match parse_number_micro(&b, &mut j) {
                Some(v) => v,
                None => { return Err(QrError::RasterizeError) },
            };
            skip_ws(&b, &mut j);
            let v3 = match parse_number_micro(&b, &mut j) {
                Some(v) => v,
                None => { return Err(QrError::RasterizeError) },
            };
            if v0 != 0 || v1 != 0 || v2 % MICRO != 0 || v3 % MICRO != 0 || v2 == 0 || v3 == 0 {
                return Err(QrError::RasterizeError);
            }
            vb = Some((v2 / MICRO, v3 / MICRO));
        }
    }
    if width_px == 0 || height_px == 0 || width_px > 0xffff_ffff || height_px > 0xffff_ffff {
        return Err(QrError::RasterizeError);
    }
    let den_vb: u64 = match vb {
        Some((vw, vh)) => {
            if vw % width_px != 0 || vh % height_px != 0 {
                return Err(QrError::RasterizeError);
            }
            let d = vw / width_px;
            if d == 0 || vh / height_px != d {
                return Err(QrError::RasterizeError);
            }
            d
        },
        None => 1,
    };
    // Collect primitives with coordinates still in millionths of a user
    // unit.
    proof {
        reveal_strlit("</svg>");
        reveal_strlit("<rect");
        reveal_strlit("<image");
    }
    let mut prims: Vec<Primitive> = Vec::new();
    loop
        invariant
            i <= b@.len(),
        decreases b@.len() - i,
    {
        proof {
            reveal_strlit("</svg>");
            reveal_strlit("<rect");
            reveal_strlit("<image");
        }
        skip_ws(&b, &mut i);
        if eat_word(&b, &mut i, "</svg>") {
            break ;
        }
        if i >= b.len() {
            return Err(QrError::RasterizeError);
        }
        if eat_word(&b, &mut i, "<rect") {
            let mut x: u64 = 0;
            let mut y: u64 = 0;
            let mut w: Option<u64> = None;
            let mut h: Option<u64> = None;
            let mut full_w = false;
            let mut full_h = false;
            let mut fill = Rgba { r: 0, g: 0, b: 0, a: 255 };
            let ghost anchor_rect: int = i as int;
            loop
                invariant
                    anchor_rect <= i <= b@.len(),
                decreases b@.len() - i,
            {
                skip_ws(&b, &mut i);
                if eat(&b, &mut i, 47) {
                    if !eat(&b, &mut i, 62) {
                        return Err(QrError::RasterizeError);
                    }
                    break ;
                }
                if i >= b.len() {
                    return Err(QrError::RasterizeError);
                }
                let (ns, ne) = parse_name(&b, &mut i);
                if ns == ne || !eat(&b, &mut i, 61) {
                    return Err(QrError::RasterizeError);
                }
                let (vs, ve) = match parse_quoted(&b, &mut i) {
                    Some(t) => t,
                    None => { return Err(QrError::RasterizeError) },
                };
                if range_matches(&b, ns, ne, "x") {
                    let mut j: usize = vs;
                    x = match parse_number_micro(&b, &mut j) {
                        Some(v) => v,
                        None => { return Err(QrError::RasterizeError) },
                    };
                } else if range_matches(&b, ns, ne, "y") {
                    let mut j: usize = vs;
                    y = match parse_number_micro(&b, &mut j) {
                        Some(v) => v,
                        None => { return Err(QrError::RasterizeError) },
                    };
                } else if range_matches(&b, ns, ne, "width") {
                    if range_matches(&b, vs, ve, "100%") {
                        full_w = true;
                    } else {
                        let mut j: usize = vs;
                        w = match parse_number_micro(&b, &mut j) {
                            Some(v) => Some(v),
                            None => { return Err(QrError::RasterizeError) },
                        };
                    }
                } else if range_matches(&b, ns, ne, "height") {
                    if range_matches(&b, vs, ve, "100%") {
                        full_h = true;
                    } else {
                        let mut j: usize = vs;
                        h = match parse_number_micro(&b, &mut j) {
                            Some(v) => Some(v),
                            None => { return Err(QrError::RasterizeError) },
                        };
                    }
                } else if range_matches(&b, ns, ne, "fill") {
                    fill = match parse_fill(&b, vs, ve) {
                        Some(c) => c,
                        None => { return Err(QrError::RasterizeError) },
                    };
                }
            }
            if full_w && full_h {
                prims.push(Primitive::Background { fill });
            } else {
                let wv = match w {
                    Some(v) => v,
                    None => { return Err(QrError::RasterizeError) },
                };
                let hv = match h {
                    Some(v) => v,
                    None => { return Err(QrError::RasterizeError) },
                };
                prims.push(Primitive::Rect { x, y, w: wv, h: hv, fill });
            }
        } else if eat_word(&b, &mut i, "<image") {
            let mut x: u64 = 0;
            let mut y: u64 = 0;
            let mut w: u64 = 0;
            let mut h: u64 = 0;
            let mut data: Option<Vec<u8>> = None;
            let ghost anchor_img: int = i as int;
            loop
                invariant
                    anchor_img <= i <= b@.len(),
                decreases b@.len() - i,
            {
                skip_ws(&b, &mut i);
                if eat(&b, &mut i, 47) {
                    if !eat(&b, &mut i, 62) {
                        return Err(QrError::RasterizeError);
                    }
                    break ;
                }
                if i >= b.len() {
                    return Err(QrError::RasterizeError);
                }
                let (ns, ne) = parse_name(&b, &mut i);
                if ns == ne || !eat(&b, &mut i, 61) {
                    return Err(QrError::RasterizeError);
                }
                let (vs, ve) = match parse_quoted(&b, &mut i) {
                    Some(t) => t,
                    None => { return Err(QrError::RasterizeError) },
                };
                if range_matches(&b, ns, ne, "x") {
                    let mut j: usize = vs;
                    x = match parse_number_micro(&b, &mut j) {
                        Some(v) => v,
                        None => { return Err(QrError::RasterizeError) },
                    };
                } else if range_matches(&b, ns, ne, "y") {
                    let mut j: usize = vs;
                    y = match parse_number_micro(&b, &mut j) {
                        Some(v) => v,
                        None => { return Err(QrError::RasterizeError) },
                    };
                } else if range_matches(&b, ns, ne, "width") {
                    let mut j: usize = vs;
                    w = match parse_number_micro(&b, &mut j) {
                        Some(v) => v,
                        None => { return Err(QrError::RasterizeError) },
                    };
                } else if range_matches(&b, ns, ne, "height") {
                    let mut j: usize = vs;
                    h = match parse_number_micro(&b, &mut j) {
                        Some(v) => v,
                        None => { return Err(QrError::RasterizeError) },
                    };
                } else if range_matches(&b, ns, ne, "href") {
                    let mut j: usize = vs;
                    if !eat_word(&b, &mut j, "data:") {
                        return Err(QrError::RasterizeError);
                    }
                    while j < ve && b[j] != 44
                        invariant
                            j <= b@.len(),
                            ve <= b@.len(),
                        decreases ve - j,
                    {
                        j = j + 1;
                    }
                    if j >= ve || !eat(&b, &mut j, 44) {
                        return Err(QrError::RasterizeError);
                    }
                    data = match base64_decode(&b, j, ve) {
                        Some(d) => Some(d),
                        None => { return Err(QrError::RasterizeError) },
                    };
                }
            }
            let dv = match data {
                Some(d) => d,
                None => { return Err(QrError::RasterizeError) },
            };
            prims.push(Primitive::ImageRef { x, y, w, h, data: dv });
        } else {
            return Err(QrError::RasterizeError);
        }
    }
    // Find the coarsest power of ten that divides every coordinate, so that
    // whole-number documents keep a small denominator.
    let mut gscale: u64 = MICRO;
    let mut k: usize = 0;
    while k < prims.len()
        invariant
            k <= prims@.len(),
            1 <= gscale <= MICRO,
        decreases prims@.len() - k,
    {
        match &prims[k] {
            Primitive::Background { .. } => {},
            Primitive::Rect { x, y, w, h, .. } | Primitive::ImageRef { x, y, w, h, .. } => {
                while gscale > 1 && (*x % gscale != 0 || *y % gscale != 0 || *w % gscale != 0 || *h
                    % gscale != 0)
                    invariant
                        1 <= gscale <= MICRO,
                    decreases gscale,
                {
                    gscale = gscale / 10;
                    if gscale == 0 {
                        gscale = 1;
                    }
                }
            },
        }
        k = k + 1;
    }
    if den_vb > 0xffff_ffff {
        return Err(QrError::RasterizeError);
    }
    proof {
        assert(den_vb * (MICRO / gscale) <= 0xffff_ffff * 1_000_000) by (nonlinear_arith)
            requires
                0 <= den_vb <= 0xffff_ffff,
                0 <= MICRO / gscale <= 1_000_000,
        ;
    }
    let den64: u64 = den_vb * (MICRO / gscale);
    if den64 == 0 || den64 > 0xffff_ffff {
        return Err(QrError::RasterizeError);
    }
    let mut scaled: Vec<Primitive> = Vec::new();
    let mut k2: usize = 0;
    while k2 < prims.len()
        invariant
            k2 <= prims@.len(),
            1 <= gscale,
        decreases prims@.len() - k2,
    {
        let p = &prims[k2];
        match p {
            Primitive::Background { fill } => {
                scaled.push(Primitive::Background { fill: *fill });
            },
            Primitive::Rect { x, y, w, h, fill } => {
                scaled.push(
                    Primitive::Rect {
                        x: *x / gscale,
                        y: *y / gscale,
                        w: *w / gscale,
                        h: *h / gscale,
                        fill: *fill,
                    },
                );
            },
            Primitive::ImageRef { x, y, w, h, data } => {
                scaled.push(
                    Primitive::ImageRef {
                        x: *x / gscale,
                        y: *y / gscale,
                        w: *w / gscale,
                        h: *h / gscale,
                        data: data.clone(),
                    },
                );
            },
        }
        k2 = k2 + 1;
    }
    Ok(
        VectorDocument {
            width_px: width_px as u32,
            height_px: height_px as u32,
            den: den64 as u32,
            prims: scaled,
        },
    )
}

} // verus!
