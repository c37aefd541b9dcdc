//! Decoding of hex color strings: `#RRGGBB` (alpha implied as 255) or
//! `#RRGGBBAA`. Any other length, a missing `#`, or a non-hex digit is a
//! format error and is rejected, never truncated.

use vstd::prelude::*;

use crate::color::Color;

verus! {

/// Whether a character is a hex digit, upper or lower case.
pub open spec fn is_hex_digit(c: char) -> bool {
    ('0' <= c && c <= '9') || ('a' <= c && c <= 'f') || ('A' <= c && c <= 'F')
}

/// The numeric value of a hex digit.
pub open spec fn hex_val(c: char) -> int
    recommends
        is_hex_digit(c),
{
    if '0' <= c && c <= '9' {
        c as int - 48
    } else if 'a' <= c && c <= 'f' {
        c as int - 87
    } else {
        c as int - 55
    }
}

/// The channel value written by a pair of hex digits.
pub open spec fn hex_pair(hi: char, lo: char) -> int
    recommends
        is_hex_digit(hi),
        is_hex_digit(lo),
{
    16 * hex_val(hi) + hex_val(lo)
}

/// A well-formed hex color string: `#` followed by exactly six or exactly
/// eight hex digits.
pub open spec fn valid_hex_color(s: Seq<char>) -> bool {
    (s.len() == 7 || s.len() == 9) && s[0] == '#' && (forall|i: int|
        1 <= i < s.len() ==> is_hex_digit(#[trigger] s[i]))
}

/// The color a well-formed hex string denotes: six digits give the three
/// color channels with alpha 255; eight digits also give the alpha.
pub open spec fn spec_hex_color(s: Seq<char>) -> Color
    recommends
        valid_hex_color(s),
{
    Color {
        r: hex_pair(s[1], s[2]) as u8,
        g: hex_pair(s[3], s[4]) as u8,
        b: hex_pair(s[5], s[6]) as u8,
        a: if s.len() == 9 {
            hex_pair(s[7], s[8]) as u8
        } else {
            255
        },
    }
}

/// The numeric value of one hex digit, or `None` when the character is not
/// a hex digit.
fn hex_digit_value(c: char) -> (r: Option<u8>)
    ensures
        is_hex_digit(c) ==> r == Some((hex_val(c) as u8)),
        !is_hex_digit(c) ==> r is None,
        r matches Some(v) ==> v < 16,
{
    if '0' <= c && c <= '9' {
        Some(c as u8 - 48)
    } else if 'a' <= c && c <= 'f' {
        Some(c as u8 - 87)
    } else if 'A' <= c && c <= 'F' {
        Some(c as u8 - 55)
    } else {
        None
    }
}

/// The channel value of the pair of hex digits at positions `i` and `i + 1`
/// of `s`, or `None` when either character is not a hex digit.
fn hex_pair_at(s: &str, i: usize) -> (r: Option<u8>)
    requires
        i < usize::MAX,
        i + 1 < s@.len(),
    ensures
        is_hex_digit(s@[i as int]) && is_hex_digit(s@[i as int + 1]) ==> r == Some(
            (hex_pair(s@[i as int], s@[i as int + 1]) as u8),
        ),
        !(is_hex_digit(s@[i as int]) && is_hex_digit(s@[i as int + 1])) ==> r is None,
{
    let hi = hex_digit_value(s.get_char(i));
    let lo = hex_digit_value(s.get_char(i + 1));
    match (hi, lo) {
        (Some(h), Some(l)) => Some(16 * h + l),
        _ => None,
    }
}

/// Decodes a hex color string into a color: `Some` exactly on well-formed
/// strings (`#` and six or eight hex digits), `None` on every other string.
pub fn decode_hex_color(s: &str) -> (r: Option<Color>)
    ensures
        valid_hex_color(s@) ==> r == Some(spec_hex_color(s@)),
        !valid_hex_color(s@) ==> r is None,
{
    let n = s.unicode_len();
    if n != 7 && n != 9 {
        return None;
    }
    if s.get_char(0) != '#' {
        return None;
    }
    let red = hex_pair_at(s, 1);
    let green = hex_pair_at(s, 3);
    let blue = hex_pair_at(s, 5);
    let alpha = if n == 9 {
        hex_pair_at(s, 7)
    } else {
        Some(255)
    };
    match (red, green, blue, alpha) {
        (Some(cr), Some(cg), Some(cb), Some(ca)) => {
            proof {
                assert forall|i: int| 1 <= i < s@.len() implies is_hex_digit(#[trigger] s@[i]) by {
                    if i == 1 || i == 2 {
                        assert(is_hex_digit(s@[1]) && is_hex_digit(s@[2]));
                    } else if i == 3 || i == 4 {
                        assert(is_hex_digit(s@[3]) && is_hex_digit(s@[4]));
                    } else if i == 5 || i == 6 {
                        assert(is_hex_digit(s@[5]) && is_hex_digit(s@[6]));
                    } else {
                        assert(is_hex_digit(s@[7]) && is_hex_digit(s@[8]));
                    }
                }
            }
            Some(Color { r: cr, g: cg, b: cb, a: ca })
        },
        _ => None,
    }
}

} // verus!
