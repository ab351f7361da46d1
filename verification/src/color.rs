//! RGB colors and parsing of `#RRGGBB` hex color strings.

use vstd::prelude::*;

verus! {

/// A 3-byte RGB color.
#[derive(Clone, Copy, PartialEq, Eq, Structural, Debug)]
pub struct Color {
    pub r: u8,
    pub g: u8,
    pub b: u8,
}

/// A hex digit: `0-9`, `a-f` or `A-F`.
pub open spec fn is_hex_digit(c: char) -> bool {
    (48 <= c as u32 && c as u32 <= 57)      // '0'..'9'
    || (97 <= c as u32 && c as u32 <= 102)  // 'a'..'f'
    || (65 <= c as u32 && c as u32 <= 70)   // 'A'..'F'
}

/// The numeric value of a hex digit.
pub open spec fn hex_digit_val(c: char) -> int
    recommends
        is_hex_digit(c),
{
    if 48 <= c as u32 && c as u32 <= 57 {
        c as int - 48
    } else if 97 <= c as u32 && c as u32 <= 102 {
        c as int - 97 + 10
    } else {
        c as int - 65 + 10
    }
}

/// A color string is valid exactly when it is `#` followed by six hex digits;
/// the parsed bytes pair the digits up as `#RRGGBB`.
pub open spec fn spec_color(s: Seq<char>) -> Option<Color> {
    if s.len() == 7 && s[0] == '#' && is_hex_digit(s[1]) && is_hex_digit(s[2])
        && is_hex_digit(s[3]) && is_hex_digit(s[4]) && is_hex_digit(s[5]) && is_hex_digit(s[6]) {
        Some(Color {
            r: (hex_digit_val(s[1]) * 16 + hex_digit_val(s[2])) as u8,
            g: (hex_digit_val(s[3]) * 16 + hex_digit_val(s[4])) as u8,
            b: (hex_digit_val(s[5]) * 16 + hex_digit_val(s[6])) as u8,
        })
    } else {
        None
    }
}

/// Decode one hex digit.
fn hex_digit(c: char) -> (r: Option<u8>)
    ensures
        r is Some <==> is_hex_digit(c),
        r is Some ==> r->Some_0 == hex_digit_val(c) && r->Some_0 < 16,
{
    let u = c as u32;
    if 48 <= u && u <= 57 {
        Some((u - 48) as u8)
    } else if 97 <= u && u <= 102 {
        Some((u - 97 + 10) as u8)
    } else if 65 <= u && u <= 70 {
        Some((u - 65 + 10) as u8)
    } else {
        None
    }
}

/// Decode the two hex digits of one color channel.
fn hex_byte(hi: char, lo: char) -> (r: Option<u8>)
    ensures
        r is Some <==> is_hex_digit(hi) && is_hex_digit(lo),
        r is Some ==> r->Some_0 == hex_digit_val(hi) * 16 + hex_digit_val(lo),
{
    match (hex_digit(hi), hex_digit(lo)) {
        (Some(h), Some(l)) => Some(h * 16 + l),
        _ => None,
    }
}

/// Parse a `#RRGGBB` color string; `None` on anything else.
pub fn parse_color(s: &str) -> (r: Option<Color>)
    ensures
        r == spec_color(s@),
{
    if s.unicode_len() != 7 {
        return None;
    }
    if s.get_char(0) != '#' {
        return None;
    }
    let red = hex_byte(s.get_char(1), s.get_char(2));
    let green = hex_byte(s.get_char(3), s.get_char(4));
    let blue = hex_byte(s.get_char(5), s.get_char(6));
    match (red, green, blue) {
        (Some(r), Some(g), Some(b)) => Some(Color { r, g, b }),
        _ => None,
    }
}

} // verus!
