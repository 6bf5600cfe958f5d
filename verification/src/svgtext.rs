use vstd::prelude::*;
use crate::color::Rgba;
use crate::vector::{Primitive, VectorDocument};

verus! {

/// The decimal digit character for one digit value.
pub open spec fn digit_char(d: int) -> char {
    if d == 0 {
        '0'
    } else if d == 1 {
        '1'
    } else if d == 2 {
        '2'
    } else if d == 3 {
        '3'
    } else if d == 4 {
        '4'
    } else if d == 5 {
        '5'
    } else if d == 6 {
        '6'
    } else if d == 7 {
        '7'
    } else if d == 8 {
        '8'
    } else {
        '9'
    }
}

/// The usual decimal writing of a nonnegative integer, most significant
/// digit first.
pub open spec fn dec_digits(n: int) -> Seq<char>
    decreases n,
{
    if n < 10 {
        seq![digit_char(n)]
    } else {
        dec_digits(n / 10) + seq![digit_char(n % 10)]
    }
}

/// Appends the decimal writing of `n`.
pub fn push_dec(s: &mut String, n: u64)
    ensures
        final(s)@ == old(s)@ + dec_digits(n as int),
    decreases n,
{
    if n >= 10 {
        push_dec(s, n / 10);
    }
    let d: u64 = n % 10;
    if d == 0 {
        s.append("0");
        proof {
            reveal_strlit("0");
        }
    } else if d == 1 {
        s.append("1");
        proof {
            reveal_strlit("1");
        }
    } else if d == 2 {
        s.append("2");
        proof {
            reveal_strlit("2");
        }
    } else if d == 3 {
        s.append("3");
        proof {
            reveal_strlit("3");
        }
    } else if d == 4 {
        s.append("4");
        proof {
            reveal_strlit("4");
        }
    } else if d == 5 {
        s.append("5");
        proof {
            reveal_strlit("5");
        }
    } else if d == 6 {
        s.append("6");
        proof {
            reveal_strlit("6");
        }
    } else if d == 7 {
        s.append("7");
        proof {
            reveal_strlit("7");
        }
    } else if d == 8 {
        s.append("8");
        proof {
            reveal_strlit("8");
        }
    } else {
        s.append("9");
        proof {
            reveal_strlit("9");
        }
    }
    proof {
        assert(s@ =~= old(s)@ + dec_digits(n as int));
    }
}

/// The text `rgb(r,g,b)` of a color; the alpha channel has no place in it.
pub open spec fn rgb_text(c: Rgba) -> Seq<char> {
    "rgb("@ + dec_digits(c.r as int) + ","@ + dec_digits(c.g as int) + ","@ + dec_digits(
        c.b as int,
    ) + ")"@
}

/// Appends `rgb(r,g,b)`.
pub fn push_rgb(s: &mut String, c: Rgba)
    ensures
        final(s)@ == old(s)@ + rgb_text(c),
{
    s.append("rgb(");
    push_dec(s, c.r as u64);
    s.append(",");
    push_dec(s, c.g as u64);
    s.append(",");
    push_dec(s, c.b as u64);
    s.append(")");
    proof {
        assert(s@ =~= old(s)@ + rgb_text(c));
    }
}

/// The base64 alphabet, indexed by a six-bit value.
pub open spec fn b64_char(v: int) -> char {
    "ABCDEFGHIJKLMNOPQRSTUVWXYZabcdefghijklmnopqrstuvwxyz0123456789+/"@[v]
}

/// Standard base64 with `=` padding, read three input bytes at a time.
pub open spec fn base64_text(s: Seq<u8>) -> Seq<char>
    decreases s.len(),
{
    if s.len() == 0 {
        Seq::<char>::empty()
    } else if s.len() == 1 {
        seq![b64_char(s[0] as int / 4), b64_char((s[0] as int % 4) * 16)] + "=="@
    } else if s.len() == 2 {
        seq![
            b64_char(s[0] as int / 4),
            b64_char((s[0] as int % 4) * 16 + s[1] as int / 16),
            b64_char((s[1] as int % 16) * 4),
        ] + "="@
    } else {
        seq![
            b64_char(s[0] as int / 4),
            b64_char((s[0] as int % 4) * 16 + s[1] as int / 16),
            b64_char((s[1] as int % 16) * 4 + s[2] as int / 64),
            b64_char(s[2] as int % 64),
        ] + base64_text(s.skip(3))
    }
}

fn push_b64_char(s: &mut String, v: u8)
    requires
        v < 64,
    ensures
        final(s)@ == old(s)@ + seq![b64_char(v as int)],
{
    let table = "ABCDEFGHIJKLMNOPQRSTUVWXYZabcdefghijklmnopqrstuvwxyz0123456789+/";
    proof {
        reveal_strlit("ABCDEFGHIJKLMNOPQRSTUVWXYZabcdefghijklmnopqrstuvwxyz0123456789+/");
        assert(table.is_ascii());
        assert(table@.len() == 64);
    }
    let piece = table.substring_ascii(v as usize, v as usize + 1);
    proof {
        assert(piece@ =~= seq![b64_char(v as int)]);
    }
    s.append(piece);
}

/// Appends the base64 writing of the bytes.
pub fn push_base64(s: &mut String, bytes: &Vec<u8>)
    ensures
        final(s)@ == old(s)@ + base64_text(bytes@),
{
    let len = bytes.len();
    let mut i: usize = 0;
    proof {
        assert(bytes@.skip(0) =~= bytes@);
    }
    while len - i >= 3
        invariant
            i <= len,
            i % 3 == 0,
            len == bytes@.len(),
            old(s)@ + base64_text(bytes@) == s@ + base64_text(bytes@.skip(i as int)),
        decreases len - i,
    {
        let b0 = bytes[i];
        let b1 = bytes[i + 1];
        let b2 = bytes[i + 2];
        let ghost pre = s@;
        push_b64_char(s, b0 / 4);
        push_b64_char(s, (b0 % 4) * 16 + b1 / 16);
        push_b64_char(s, (b1 % 16) * 4 + b2 / 64);
        push_b64_char(s, b2 % 64);
        proof {
            let t = bytes@.skip(i as int);
            assert(t[0] == b0 && t[1] == b1 && t[2] == b2);
            assert(t.skip(3) =~= bytes@.skip(i + 3));
            assert(s@ =~= pre + seq![
                b64_char(t[0] as int / 4),
                b64_char((t[0] as int % 4) * 16 + t[1] as int / 16),
                b64_char((t[1] as int % 16) * 4 + t[2] as int / 64),
                b64_char(t[2] as int % 64),
            ]);
            assert(base64_text(t) == seq![
                b64_char(t[0] as int / 4),
                b64_char((t[0] as int % 4) * 16 + t[1] as int / 16),
                b64_char((t[1] as int % 16) * 4 + t[2] as int / 64),
                b64_char(t[2] as int % 64),
            ] + base64_text(t.skip(3)));
            assert(old(s)@ + base64_text(bytes@) =~= s@ + base64_text(bytes@.skip(i + 3)));
        }
        i = i + 3;
    }
    let ghost tail = bytes@.skip(i as int);
    if len - i == 1 {
        let b0 = bytes[i];
        let ghost pre = s@;
        push_b64_char(s, b0 / 4);
        push_b64_char(s, (b0 % 4) * 16);
        s.append("==");
        proof {
            reveal_strlit("==");
            assert(tail.len() == 1 && tail[0] == b0);
            assert(s@ =~= pre + base64_text(tail));
            assert(s@ =~= old(s)@ + base64_text(bytes@));
        }
    } else if len - i == 2 {
        let b0 = bytes[i];
        let b1 = bytes[i + 1];
        let ghost pre = s@;
        push_b64_char(s, b0 / 4);
        push_b64_char(s, (b0 % 4) * 16 + b1 / 16);
        push_b64_char(s, (b1 % 16) * 4);
        s.append("=");
        proof {
            reveal_strlit("=");
            assert(tail.len() == 2 && tail[0] == b0 && tail[1] == b1);
            assert(s@ =~= pre + base64_text(tail));
            assert(s@ =~= old(s)@ + base64_text(bytes@));
        }
    } else {
        proof {
            assert(tail.len() == 0);
            assert(base64_text(tail) =~= Seq::<char>::empty());
            assert(s@ =~= old(s)@ + base64_text(bytes@));
        }
    }
}

/// The media type written into a data reference, recognized from the byte
/// stream's magic number.
pub open spec fn mime_text(d: Seq<u8>) -> Seq<char> {
    if d.len() >= 4 && d[0] == 0x89 && d[1] == 0x50 && d[2] == 0x4e && d[3] == 0x47 {
        "image/png"@
    } else if d.len() >= 3 && d[0] == 0xff && d[1] == 0xd8 && d[2] == 0xff {
        "image/jpeg"@
    } else if d.len() >= 12 && d[0] == 0x52 && d[1] == 0x49 && d[2] == 0x46 && d[3] == 0x46 && d[8]
        == 0x57 && d[9] == 0x45 && d[10] == 0x42 && d[11] == 0x50 {
        "image/webp"@
    } else {
        "application/octet-stream"@
    }
}

fn push_mime(s: &mut String, d: &Vec<u8>)
    ensures
        final(s)@ == old(s)@ + mime_text(d@),
{
    let len = d.len();
    if len >= 4 && d[0] == 0x89 && d[1] == 0x50 && d[2] == 0x4e && d[3] == 0x47 {
        s.append("image/png");
    } else if len >= 3 && d[0] == 0xff && d[1] == 0xd8 && d[2] == 0xff {
        s.append("image/jpeg");
    } else if len >= 12 && d[0] == 0x52 && d[1] == 0x49 && d[2] == 0x46 && d[3] == 0x46 && d[8]
        == 0x57 && d[9] == 0x45 && d[10] == 0x42 && d[11] == 0x50 {
        s.append("image/webp");
    } else {
        s.append("application/octet-stream");
    }
}

/// The markup of an embedded image reference.
pub open spec fn image_ref_text(x: int, y: int, w: int, h: int, data: Seq<u8>) -> Seq<char> {
    "<image x=\""@ + dec_digits(x) + "\" y=\""@ + dec_digits(y) + "\" width=\""@ + dec_digits(w)
        + "\" height=\""@ + dec_digits(h) + "\" href=\"data:"@ + mime_text(data) + ";base64,"@
        + base64_text(data) + "\"/>"@
}

/// The markup of one primitive.
pub open spec fn prim_text(p: Primitive) -> Seq<char> {
    match p {
        Primitive::Background { fill } => "<rect width=\"100%\" height=\"100%\" fill=\""@
            + rgb_text(fill) + "\"/>"@,
        Primitive::Rect { x, y, w, h, fill } => "<rect x=\""@ + dec_digits(x as int) + "\" y=\""@
            + dec_digits(y as int) + "\" width=\""@ + dec_digits(w as int) + "\" height=\""@
            + dec_digits(h as int) + "\" fill=\""@ + rgb_text(fill) + "\"/>"@,
        Primitive::ImageRef { x, y, w, h, data } => image_ref_text(
            x as int,
            y as int,
            w as int,
            h as int,
            data@,
        ),
    }
}

fn push_prim(s: &mut String, p: &Primitive)
    ensures
        final(s)@ == old(s)@ + prim_text(*p),
{
    match p {
        Primitive::Background { fill } => {
            s.append("<rect width=\"100%\" height=\"100%\" fill=\"");
            push_rgb(s, *fill);
            s.append("\"/>");
        },
        Primitive::Rect { x, y, w, h, fill } => {
            s.append("<rect x=\"");
            push_dec(s, *x);
            s.append("\" y=\"");
            push_dec(s, *y);
            s.append("\" width=\"");
            push_dec(s, *w);
            s.append("\" height=\"");
            push_dec(s, *h);
            s.append("\" fill=\"");
            push_rgb(s, *fill);
            s.append("\"/>");
        },
        Primitive::ImageRef { x, y, w, h, data } => {
            s.append("<image x=\"");
            push_dec(s, *x);
            s.append("\" y=\"");
            push_dec(s, *y);
            s.append("\" width=\"");
            push_dec(s, *w);
            s.append("\" height=\"");
            push_dec(s, *h);
            s.append("\" href=\"data:");
            push_mime(s, data);
            s.append(";base64,");
            push_base64(s, data);
            s.append("\"/>");
        },
    }
    proof {
        assert(s@ =~= old(s)@ + prim_text(*p));
    }
}

/// The markup of a primitive list, in order.
pub open spec fn prims_text(ps: Seq<Primitive>) -> Seq<char>
    decreases ps.len(),
{
    if ps.len() == 0 {
        Seq::<char>::empty()
    } else {
        prim_text(ps[0]) + prims_text(ps.skip(1))
    }
}

/// Splitting one primitive off the end splits its markup off the end.
pub proof fn lemma_prims_text_snoc(ps: Seq<Primitive>, p: Primitive)
    ensures
        prims_text(ps.push(p)) == prims_text(ps) + prim_text(p),
    decreases ps.len(),
{
    if ps.len() == 0 {
        let q = ps.push(p);
        assert(q.len() == 1);
        assert(q[0] == p);
        assert(prims_text(q) == prim_text(q[0]) + prims_text(q.skip(1)));
        assert(q.skip(1) =~= Seq::<Primitive>::empty());
        assert(prims_text(q.skip(1)) == prims_text(Seq::<Primitive>::empty()));
        assert(prims_text(Seq::<Primitive>::empty()) == Seq::<char>::empty());
        assert(prims_text(q) =~= prim_text(p));
        assert(prims_text(ps) == Seq::<char>::empty());
        assert(prims_text(ps) + prim_text(p) =~= prim_text(p));
    } else {
        assert(ps.push(p)[0] == ps[0]);
        assert(ps.push(p).skip(1) =~= ps.skip(1).push(p));
        lemma_prims_text_snoc(ps.skip(1), p);
        assert(prims_text(ps.push(p)) =~= prims_text(ps) + prim_text(p));
    }
}

/// The markup of a document given by its parts: an `svg` element whose
/// declared size is the pixel size and whose view box is scaled by the
/// coordinate denominator, holding every primitive in order.
pub open spec fn svg_open_text(width_px: int, height_px: int, den: int) -> Seq<char> {
    "<svg xmlns=\"http://www.w3.org/2000/svg\" width=\""@ + dec_digits(width_px) + "\" height=\""@
        + dec_digits(height_px) + "\" viewBox=\"0 0 "@ + dec_digits(width_px * den) + " "@
        + dec_digits(height_px * den) + "\">"@
}

pub open spec fn svg_text_of(width_px: int, height_px: int, den: int, prims: Seq<Primitive>) -> Seq<
    char,
> {
    svg_open_text(width_px, height_px, den) + prims_text(prims) + "</svg>"@
}

/// The whole markup of a document.
pub open spec fn svg_text(doc: VectorDocument) -> Seq<char> {
    svg_text_of(doc.width_px as int, doc.height_px as int, doc.den as int, doc.prims@)
}

/// Serializes a vector document to its exact markup.
pub fn doc_to_svg(doc: &VectorDocument) -> (s: String)
    ensures
        s@ == svg_text(*doc),
{
    let mut s = String::new();
    s.append("<svg xmlns=\"http://www.w3.org/2000/svg\" width=\"");
    push_dec(&mut s, doc.width_px as u64);
    s.append("\" height=\"");
    push_dec(&mut s, doc.height_px as u64);
    s.append("\" viewBox=\"0 0 ");
    proof {
        assert((doc.width_px as int) * (doc.den as int) < 0x1_0000_0000_0000_0000 && (
        doc.height_px as int) * (doc.den as int) < 0x1_0000_0000_0000_0000) by (nonlinear_arith)
            requires
                doc.width_px < 0x1_0000_0000,
                doc.height_px < 0x1_0000_0000,
                doc.den < 0x1_0000_0000,
        ;
    }
    push_dec(&mut s, (doc.width_px as u64) * (doc.den as u64));
    s.append(" ");
    push_dec(&mut s, (doc.height_px as u64) * (doc.den as u64));
    s.append("\">");
    let ghost header = s@;
    let mut k: usize = 0;
    proof {
        assert(doc.prims@.skip(0) =~= doc.prims@);
    }
    while k < doc.prims.len()
        invariant
            k <= doc.prims@.len(),
            header + prims_text(doc.prims@) == s@ + prims_text(doc.prims@.skip(k as int)),
        decreases doc.prims@.len() - k,
    {
        let ghost rest = doc.prims@.skip(k as int);
        push_prim(&mut s, &doc.prims[k]);
        proof {
            assert(rest[0] == doc.prims@[k as int]);
            assert(rest.skip(1) =~= doc.prims@.skip(k + 1));
            assert(prims_text(rest) == prim_text(rest[0]) + prims_text(rest.skip(1)));
            assert(header + prims_text(doc.prims@) =~= s@ + prims_text(doc.prims@.skip(k + 1)));
        }
        k = k + 1;
    }
    proof {
        assert(prims_text(doc.prims@.skip(doc.prims@.len() as int)) =~= Seq::<char>::empty());
    }
    s.append("</svg>");
    proof {
        assert(s@ =~= svg_text(*doc));
    }
    s
}

} // verus!
