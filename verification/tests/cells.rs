use level_codec::{decode_cell_glyphs, decode_cells, encode_cells, LevelError};

#[test]
fn encode_cells_writes_one_glyph_for_each_cell() {
    assert_eq!(encode_cells(&[]), Ok(String::new()));
    assert_eq!(encode_cells(&[0, 10]), Ok("}G".to_string()));
    assert_eq!(
        encode_cells(&[0, 1, 2, 3, 4, 5, 6, 7, 8, 9, 10]),
        Ok("}{42e0c6aIG".to_string())
    );
    assert_eq!(encode_cells(&[5, 5, 5]), Ok("000".to_string()));
}

#[test]
fn encode_cells_refuses_a_cell_that_is_no_cell_type() {
    assert_eq!(encode_cells(&[11]), Err(LevelError::InvalidCellType));
    assert_eq!(encode_cells(&[0, 1, 255]), Err(LevelError::InvalidCellType));
    assert_eq!(encode_cells(&[12, 0, 1]), Err(LevelError::InvalidCellType));
}

#[test]
fn decode_cells_reads_one_cell_for_each_glyph() {
    assert_eq!(decode_cells(""), Ok(vec![]));
    assert_eq!(decode_cells("}G"), Ok(vec![0, 10]));
    assert_eq!(decode_cells("}{42e0c6aIG"), Ok(vec![0, 1, 2, 3, 4, 5, 6, 7, 8, 9, 10]));
    assert_eq!(decode_cell_glyphs(&['G', '}']), Ok(vec![10, 0]));
}

#[test]
fn decode_cells_refuses_a_glyph_outside_the_table() {
    assert_eq!(decode_cells("}x"), Err(LevelError::InvalidGlyph));
    assert_eq!(decode_cells("1"), Err(LevelError::InvalidGlyph));
    assert_eq!(decode_cells("}{;"), Err(LevelError::InvalidGlyph));
    assert_eq!(decode_cell_glyphs(&['g']), Err(LevelError::InvalidGlyph));
}

#[test]
fn cells_round_trip() {
    let mut cells: Vec<u8> = Vec::new();
    for i in 0..1000u32 {
        cells.push(((i * 7 + i / 11) % 11) as u8);
    }
    let field = encode_cells(&cells).unwrap();
    assert_eq!(field.chars().count(), 1000);
    assert_eq!(decode_cells(&field), Ok(cells));
}
