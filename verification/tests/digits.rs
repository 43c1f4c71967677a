use level_codec::{decode_digit_glyphs, decode_digits, encode_digits, LevelError};

#[test]
fn zero_is_the_empty_field() {
    assert_eq!(encode_digits(0), "");
    assert_eq!(decode_digits(""), Ok(0));
}

#[test]
fn the_last_single_digit_and_the_first_double_digit() {
    assert_eq!(encode_digits(73), "}");
    assert_eq!(encode_digits(74), "10");
    assert_eq!(decode_digits("}"), Ok(73));
    assert_eq!(decode_digits("10"), Ok(74));
}

#[test]
fn encode_digits_gives_the_expected_fields() {
    assert_eq!(encode_digits(1), "1");
    assert_eq!(encode_digits(9), "9");
    assert_eq!(encode_digits(10), "a");
    assert_eq!(encode_digits(35), "z");
    assert_eq!(encode_digits(36), "A");
    assert_eq!(encode_digits(61), "Z");
    assert_eq!(encode_digits(62), "!");
    assert_eq!(encode_digits(75), "11");
    assert_eq!(encode_digits(100), "1q");
    assert_eq!(encode_digits(147), "1}");
    assert_eq!(encode_digits(5475), "}}");
    assert_eq!(encode_digits(5476), "100");
    assert_eq!(encode_digits(5477), "101");
    assert_eq!(encode_digits(65535), "b^J");
    assert_eq!(encode_digits(405224), "1000");
    assert_eq!(encode_digits(u32::MAX), "1=g}MH");
}

#[test]
fn decode_digits_gives_the_expected_numbers() {
    assert_eq!(decode_digits("1"), Ok(1));
    assert_eq!(decode_digits("a"), Ok(10));
    assert_eq!(decode_digits("1q"), Ok(100));
    assert_eq!(decode_digits("}}"), Ok(5475));
    assert_eq!(decode_digits("100"), Ok(5476));
    assert_eq!(decode_digits("b^J"), Ok(65535));
    assert_eq!(decode_digits("1=g}MH"), Ok(u32::MAX));
}

#[test]
fn digits_round_trip_on_many_numbers() {
    let mut value: u32 = 0;
    loop {
        let field = encode_digits(value);
        assert_eq!(decode_digits(&field), Ok(value));
        if value != 0 {
            assert!(!field.starts_with('0'));
        }
        match value.checked_mul(3).and_then(|v| v.checked_add(7)) {
            Some(next) => value = next,
            None => break,
        }
    }
    for value in 0..20000u32 {
        assert_eq!(decode_digits(&encode_digits(value)), Ok(value));
    }
    for value in (u32::MAX - 2000)..=u32::MAX {
        assert_eq!(decode_digits(&encode_digits(value)), Ok(value));
    }
}

#[test]
fn the_most_significant_digit_comes_first() {
    assert_eq!(encode_digits(74 + 2), "12");
    assert_eq!(encode_digits(2 * 74 + 1), "21");
    assert_eq!(decode_digits("12"), Ok(76));
    assert_eq!(decode_digits("21"), Ok(149));
}

#[test]
fn leading_zero_digits_add_nothing() {
    assert_eq!(decode_digits("0"), Ok(0));
    assert_eq!(decode_digits("000"), Ok(0));
    assert_eq!(decode_digits("01"), Ok(1));
    assert_eq!(decode_digits("0000000000000010"), Ok(74));
}

#[test]
fn a_foreign_character_in_a_dimension_is_an_invalid_glyph() {
    assert_eq!(decode_digits(";"), Err(LevelError::InvalidGlyph));
    assert_eq!(decode_digits("1 2"), Err(LevelError::InvalidGlyph));
    assert_eq!(decode_digits("12~"), Err(LevelError::InvalidGlyph));
    assert_eq!(decode_digits("é"), Err(LevelError::InvalidGlyph));
    assert_eq!(decode_digits("}}}}}}}}}}}}~"), Err(LevelError::InvalidGlyph));
    assert_eq!(decode_digits("~}}}}}}}}}}}}"), Err(LevelError::InvalidGlyph));
}

#[test]
fn a_dimension_beyond_32_bits_is_malformed() {
    assert_eq!(decode_digits("1=g}MI"), Err(LevelError::MalformedLevelCode));
    assert_eq!(decode_digits("}}}}}}"), Err(LevelError::MalformedLevelCode));
    assert_eq!(decode_digits("1000000"), Err(LevelError::MalformedLevelCode));
    assert_eq!(decode_digits("10000000000000000000000000"), Err(LevelError::MalformedLevelCode));
}

#[test]
fn decode_digit_glyphs_reads_a_slice_of_characters() {
    assert_eq!(decode_digit_glyphs(&[]), Ok(0));
    assert_eq!(decode_digit_glyphs(&['1', '0']), Ok(74));
    assert_eq!(decode_digit_glyphs(&['1', ';']), Err(LevelError::InvalidGlyph));
}
