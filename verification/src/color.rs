use vstd::prelude::*;
use crate::QrError;

verus! {

/// An RGBA color, eight bits per channel.
#[derive(Clone, Copy, PartialEq, Eq, Structural, Debug)]
pub struct Rgba {
    pub r: u8,
    pub g: u8,
    pub b: u8,
    pub a: u8,
}

/// The default background: fully opaque white.
pub fn white() -> (c: Rgba)
    ensures
        c == (Rgba { r: 255, g: 255, b: 255, a: 255 }),
{
    Rgba { r: 255, g: 255, b: 255, a: 255 }
}

/// The default foreground: fully opaque black.
pub fn black() -> (c: Rgba)
    ensures
        c == (Rgba { r: 0, g: 0, b: 0, a: 255 }),
{
    Rgba { r: 0, g: 0, b: 0, a: 255 }
}

/// Both colors of one render request.
#[derive(Clone, Copy, PartialEq, Eq, Structural, Debug)]
pub struct ColorPair {
    pub background: Rgba,
    pub foreground: Rgba,
}

pub open spec fn is_hex_digit(c: char) -> bool {
    ('0' <= c && c <= '9') || ('a' <= c && c <= 'f') || ('A' <= c && c <= 'F')
}

pub open spec fn hex_value(c: char) -> int {
    if '0' <= c && c <= '9' {
        c as int - '0' as int
    } else if 'a' <= c && c <= 'f' {
        c as int - 'a' as int + 10
    } else {
        c as int - 'A' as int + 10
    }
}

/// A color string is exactly `#` followed by six hex digits.
pub open spec fn is_color_string(s: Seq<char>) -> bool {
    s.len() == 7 && s[0] == '#' && forall|i: int| 1 <= i < 7 ==> is_hex_digit(#[trigger] s[i])
}

/// The color a valid `#RRGGBB` string denotes; alpha is always opaque.
pub open spec fn color_of_string(s: Seq<char>) -> Rgba {
    Rgba {
        r: (16 * hex_value(s[1]) + hex_value(s[2])) as u8,
        g: (16 * hex_value(s[3]) + hex_value(s[4])) as u8,
        b: (16 * hex_value(s[5]) + hex_value(s[6])) as u8,
        a: 255,
    }
}

fn hex_digit(c: char) -> (r: Option<u8>)
    ensures
        r is Some <==> is_hex_digit(c),
        r is Some ==> r->0 == hex_value(c) && hex_value(c) < 16,
{
    if '0' <= c && c <= '9' {
        Some(c as u8 - 48)
    } else if 'a' <= c && c <= 'f' {
        Some(c as u8 - 97 + 10)
    } else if 'A' <= c && c <= 'F' {
        Some(c as u8 - 65 + 10)
    } else {
        None
    }
}

/// Parses a `#RRGGBB` string into an opaque color; every other form is
/// rejected with `InvalidColorFormat`.
pub fn parse_color(s: &str) -> (r: Result<Rgba, QrError>)
    ensures
        is_color_string(s@) ==> r == Ok::<Rgba, QrError>(color_of_string(s@)),
        !is_color_string(s@) ==> r == Err::<Rgba, QrError>(QrError::InvalidColorFormat),
{
    if s.unicode_len() != 7 {
        return Err(QrError::InvalidColorFormat);
    }
    if s.get_char(0) != '#' {
        return Err(QrError::InvalidColorFormat);
    }
    let d1 = match hex_digit(s.get_char(1)) {
        Some(v) => v,
        None => { return Err(QrError::InvalidColorFormat) },
    };
    let d2 = match hex_digit(s.get_char(2)) {
        Some(v) => v,
        None => { return Err(QrError::InvalidColorFormat) },
    };
    let d3 = match hex_digit(s.get_char(3)) {
        Some(v) => v,
        None => { return Err(QrError::InvalidColorFormat) },
    };
    let d4 = match hex_digit(s.get_char(4)) {
        Some(v) => v,
        None => { return Err(QrError::InvalidColorFormat) },
    };
    let d5 = match hex_digit(s.get_char(5)) {
        Some(v) => v,
        None => { return Err(QrError::InvalidColorFormat) },
    };
    let d6 = match hex_digit(s.get_char(6)) {
        Some(v) => v,
        None => { return Err(QrError::InvalidColorFormat) },
    };
    Ok(Rgba { r: 16 * d1 + d2, g: 16 * d3 + d4, b: 16 * d5 + d6, a: 255 })
}

} // verus!
