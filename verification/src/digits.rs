//! A dimension field of a level code: a number in base 74, most significant
//! digit first, with no leading zero digit. Zero is the empty field, not the
//! field `0`.

use crate::alphabet::{
    decode_digit, digit_glyph, glyph_digit, is_digit_glyph, lemma_digit_glyph_round_trip,
    lemma_digit_glyphs_distinct, lemma_digit_round_trip, DIGIT_GLYPHS, RADIX,
};
use crate::error::LevelError;
use crate::text::chars_of;
use vstd::prelude::*;

verus! {

/// The field that stands for `value`: empty for zero, else the field of
/// `value / 74` followed by the glyph of `value % 74`.
pub open spec fn digits_of(value: nat) -> Seq<char>
    decreases value,
{
    if value == 0 {
        Seq::empty()
    } else {
        digits_of(value / 74).push(digit_glyph((value % 74) as int))
    }
}

/// Whether every character of the field is a digit glyph.
pub open spec fn all_digit_glyphs(field: Seq<char>) -> bool {
    forall|i: int| 0 <= i < field.len() ==> is_digit_glyph(#[trigger] field[i])
}

/// The number that a field stands for: zero for the empty field, else 74
/// times the number of all but the last glyph, plus the digit of the last.
/// It means something where `all_digit_glyphs(field)`.
pub open spec fn value_of(field: Seq<char>) -> nat
    decreases field.len(),
{
    if field.len() == 0 {
        0
    } else {
        (value_of(field.drop_last()) * 74 + glyph_digit(field.last())) as nat
    }
}

/// A number comes back from its field unchanged, and the field holds digit
/// glyphs only.
pub proof fn lemma_value_round_trip(value: nat)
    ensures
        all_digit_glyphs(digits_of(value)),
        value_of(digits_of(value)) == value,
    decreases value,
{
    if value != 0 {
        lemma_value_round_trip(value / 74);
        lemma_digit_round_trip((value % 74) as int);
        assert(digits_of(value).drop_last() =~= digits_of(value / 74));
    }
}

/// The field of a number other than zero is not empty and does not start
/// with the glyph of zero.
pub proof fn lemma_no_leading_zero(value: nat)
    requires
        value > 0,
    ensures
        digits_of(value).len() > 0,
        digits_of(value)[0] != digit_glyph(0),
    decreases value,
{
    if value / 74 > 0 {
        lemma_no_leading_zero(value / 74);
    } else {
        assert(digits_of(0).len() == 0);
        lemma_digit_glyphs_distinct((value % 74) as int, 0);
    }
}

/// A field of digit glyphs that does not start with the glyph of zero is the
/// field of the number it stands for: no other field without a leading zero
/// stands for that number.
pub proof fn lemma_field_round_trip(field: Seq<char>)
    requires
        all_digit_glyphs(field),
        field.len() > 0 ==> field[0] != digit_glyph(0),
    ensures
        digits_of(value_of(field)) == field,
        field.len() > 0 ==> value_of(field) > 0,
    decreases field.len(),
{
    if field.len() > 0 {
        lemma_digit_glyph_round_trip(field.last());
        lemma_field_round_trip(field.drop_last());
    }
}

/// The number of a field does not shrink when a glyph is added at its end.
proof fn lemma_value_grows(field: Seq<char>, glyph: char)
    requires
        is_digit_glyph(glyph),
    ensures
        value_of(field.push(glyph)) == value_of(field) * 74 + glyph_digit(glyph),
        value_of(field.push(glyph)) >= value_of(field),
{
    assert(field.push(glyph).drop_last() =~= field);
}

/// The dimension field of `value`.
pub fn encode_digits(value: u32) -> (field: String)
    ensures
        field@ == digits_of(value as nat),
{
    // The digits come out least significant first.
    let mut low: Vec<char> = Vec::new();
    let mut rest: u32 = value;
    while rest > 0
        invariant
            digits_of(value as nat) == digits_of(rest as nat) + low@.reverse(),
        decreases rest,
    {
        let glyph = DIGIT_GLYPHS[(rest % RADIX) as usize];
        low.push(glyph);
        rest = rest / RADIX;
    }
    let mut field = String::new();
    let mut left: usize = low.len();
    while left > 0
        invariant
            left <= low.len(),
            field@ == low@.reverse().take(low.len() - left),
        decreases left,
    {
        left -= 1;
        field.push(low[left]);
    }
    field
}

/// The number that the glyphs of `field` stand for. It fails with
/// `InvalidGlyph` where one of them is no digit glyph, and else with
/// `MalformedLevelCode` where the number does not fit in 32 bits.
pub fn decode_digit_glyphs(field: &[char]) -> (r: Result<u32, LevelError>)
    ensures
        r is Ok <==> all_digit_glyphs(field@) && value_of(field@) <= u32::MAX,
        r matches Ok(value) ==> value == value_of(field@),
        r matches Err(e) ==> e == if all_digit_glyphs(field@) {
            LevelError::MalformedLevelCode
        } else {
            LevelError::InvalidGlyph
        },
{
    let mut value: u32 = 0;
    let mut fits = true;
    let mut i: usize = 0;
    while i < field.len()
        invariant
            i <= field.len(),
            all_digit_glyphs(field@.take(i as int)),
            fits ==> value == value_of(field@.take(i as int)),
            !fits ==> value_of(field@.take(i as int)) > u32::MAX,
        decreases field.len() - i,
    {
        proof {
            assert(field@.take(i + 1) =~= field@.take(i as int).push(field@[i as int]));
        }
        match decode_digit(field[i]) {
            Ok(digit) => {
                proof {
                    lemma_value_grows(field@.take(i as int), field@[i as int]);
                }
                if fits {
                    let wide: u64 = value as u64 * 74 + digit as u64;
                    if wide > u32::MAX as u64 {
                        fits = false;
                    } else {
                        value = wide as u32;
                    }
                }
            },
            Err(e) => {
                return Err(e);
            },
        }
        i += 1;
    }
    proof {
        assert(field@.take(i as int) =~= field@);
    }
    if fits {
        Ok(value)
    } else {
        Err(LevelError::MalformedLevelCode)
    }
}

/// The number that the dimension field `field` stands for; the empty field
/// stands for zero. It fails with `InvalidGlyph` where a character of the
/// field is no digit glyph, and else with `MalformedLevelCode` where the
/// number does not fit in 32 bits.
pub fn decode_digits(field: &str) -> (r: Result<u32, LevelError>)
    ensures
        r is Ok <==> all_digit_glyphs(field@) && value_of(field@) <= u32::MAX,
        r matches Ok(value) ==> value == value_of(field@),
        r matches Err(e) ==> e == if all_digit_glyphs(field@) {
            LevelError::MalformedLevelCode
        } else {
            LevelError::InvalidGlyph
        },
{
    let glyphs = chars_of(field);
    decode_digit_glyphs(glyphs.as_slice())
}

} // verus!
