//! The alphabet of the two dimension fields: 74 glyphs, the glyph at
//! position `v` standing for the digit of value `v`.

use crate::error::LevelError;
use vstd::prelude::*;

verus! {

/// The number of digit glyphs, and so the base in which a dimension is written.
pub const RADIX: u32 = 74;

/// The digit glyphs in the order of their values: the ten digits, the lower
/// case letters, the upper case letters, and twelve signs.
pub const DIGIT_GLYPHS: [char; 74] = [
    '0', '1', '2', '3', '4', '5', '6', '7', '8', '9', 'a', 'b', 'c', 'd', 'e', 'f', 'g', 'h', 'i',
    'j', 'k', 'l', 'm', 'n', 'o', 'p', 'q', 'r', 's', 't', 'u', 'v', 'w', 'x', 'y', 'z', 'A', 'B',
    'C', 'D', 'E', 'F', 'G', 'H', 'I', 'J', 'K', 'L', 'M', 'N', 'O', 'P', 'Q', 'R', 'S', 'T', 'U',
    'V', 'W', 'X', 'Y', 'Z', '!', '$', '%', '&', '+', '-', '.', '=', '?', '^', '{', '}',
];

/// The glyph of the digit `value`. It means something for `0 <= value < 74`.
pub open spec fn digit_glyph(value: int) -> char {
    DIGIT_GLYPHS@[value]
}

/// Whether `glyph` is one of the 74 digit glyphs.
pub open spec fn is_digit_glyph(glyph: char) -> bool {
    exists|value: int| 0 <= value < RADIX && #[trigger] digit_glyph(value) == glyph
}

/// The value of the digit that `glyph` stands for: its position in the
/// alphabet. It means something where `is_digit_glyph(glyph)`.
pub open spec fn glyph_digit(glyph: char) -> int {
    choose|value: int| 0 <= value < RADIX && #[trigger] digit_glyph(value) == glyph
}

/// No glyph stands for two digits: different values have different glyphs.
pub proof fn lemma_digit_glyphs_distinct(a: int, b: int)
    requires
        0 <= a < RADIX,
        0 <= b < RADIX,
        a != b,
    ensures
        digit_glyph(a) != digit_glyph(b),
{
}

/// Each of the 74 values has a glyph, and that glyph stands for this value.
pub proof fn lemma_digit_round_trip(value: int)
    requires
        0 <= value < RADIX,
    ensures
        is_digit_glyph(digit_glyph(value)),
        glyph_digit(digit_glyph(value)) == value,
{
    let found = glyph_digit(digit_glyph(value));
    if found != value {
        lemma_digit_glyphs_distinct(found, value);
    }
}

/// Each digit glyph stands for one of the 74 values, whose glyph it is.
pub proof fn lemma_digit_glyph_round_trip(glyph: char)
    requires
        is_digit_glyph(glyph),
    ensures
        0 <= glyph_digit(glyph) < RADIX,
        digit_glyph(glyph_digit(glyph)) == glyph,
{
}

/// The separator of the fields is no digit glyph, so a dimension field never
/// holds it.
pub proof fn lemma_separator_is_no_digit_glyph()
    ensures
        !is_digit_glyph(';'),
{
}

/// The value of the digit that `glyph` stands for, or `InvalidGlyph` where it
/// is none of the 74 digit glyphs.
pub fn decode_digit(glyph: char) -> (r: Result<u8, LevelError>)
    ensures
        r is Ok <==> is_digit_glyph(glyph),
        r matches Ok(value) ==> value == glyph_digit(glyph) && value < RADIX && digit_glyph(
            value as int,
        ) == glyph,
        r matches Err(e) ==> e == LevelError::InvalidGlyph,
{
    let found: Option<u8> = if '0' <= glyph && glyph <= '9' {
        Some(glyph as u8 - '0' as u8)
    } else if 'a' <= glyph && glyph <= 'z' {
        Some(glyph as u8 - 'a' as u8 + 10)
    } else if 'A' <= glyph && glyph <= 'Z' {
        Some(glyph as u8 - 'A' as u8 + 36)
    } else if glyph == '!' {
        Some(62)
    } else if glyph == '$' {
        Some(63)
    } else if glyph == '%' {
        Some(64)
    } else if glyph == '&' {
        Some(65)
    } else if glyph == '+' {
        Some(66)
    } else if glyph == '-' {
        Some(67)
    } else if glyph == '.' {
        Some(68)
    } else if glyph == '=' {
        Some(69)
    } else if glyph == '?' {
        Some(70)
    } else if glyph == '^' {
        Some(71)
    } else if glyph == '{' {
        Some(72)
    } else if glyph == '}' {
        Some(73)
    } else {
        None
    };
    match found {
        Some(value) => {
            proof {
                lemma_digit_round_trip(value as int);
            }
            Ok(value)
        },
        None => Err(LevelError::InvalidGlyph),
    }
}

} // verus!
