//! Level codes: from a width, a height and a grid of cells to the text
//! `V3;<width>;<height>;<cells>;`, and back.

use crate::alphabet::lemma_separator_is_no_digit_glyph;
use crate::cells::{
    all_cell_glyphs, cell_glyphs, decode_cell_glyphs, encode_cells, glyph_cells,
    lemma_cells_round_trip, lemma_separator_is_no_cell_glyph, valid_cells,
};
use crate::digits::{
    all_digit_glyphs, decode_digit_glyphs, digits_of, encode_digits, lemma_value_round_trip,
    value_of,
};
use crate::error::LevelError;
use crate::frame::{fields_of, frame, lemma_fields_of_frame, split_fields};
use crate::text::chars_of;
use vstd::prelude::*;

verus! {

/// The level code of a grid: the tag, the width and the height in base 74,
/// and the glyph of each cell. The number of cells is written nowhere: the
/// reader takes it to be width times height.
pub open spec fn level_code(width: nat, height: nat, cells: Seq<u8>) -> Seq<char> {
    frame(digits_of(width), digits_of(height), cell_glyphs(cells))
}

/// What a text stands for as a level code: the width, the height and the
/// grid, or the reason why it stands for none. The text is read from its
/// start: first its shape, then the width, the height and the cells, and at
/// last the number of cells.
pub open spec fn level_of(code: Seq<char>) -> Result<(nat, nat, Seq<u8>), LevelError> {
    match fields_of(code) {
        None => Err(LevelError::MalformedLevelCode),
        Some((width, height, cells)) => {
            if !all_digit_glyphs(width) {
                Err(LevelError::InvalidGlyph)
            } else if value_of(width) > u32::MAX {
                Err(LevelError::MalformedLevelCode)
            } else if !all_digit_glyphs(height) {
                Err(LevelError::InvalidGlyph)
            } else if value_of(height) > u32::MAX {
                Err(LevelError::MalformedLevelCode)
            } else if !all_cell_glyphs(cells) {
                Err(LevelError::InvalidGlyph)
            } else if cells.len() != value_of(width) * value_of(height) {
                Err(LevelError::SizeMismatch)
            } else {
                Ok((value_of(width), value_of(height), glyph_cells(cells)))
            }
        },
    }
}

/// The fields of the level code of a grid are the fields of its width, of its
/// height and of its cells, and the first two stand for the width and the
/// height.
proof fn lemma_fields_of_level_code(width: nat, height: nat, cells: Seq<u8>)
    requires
        valid_cells(cells),
    ensures
        fields_of(level_code(width, height, cells)) == Some(
            (digits_of(width), digits_of(height), cell_glyphs(cells)),
        ),
        all_digit_glyphs(digits_of(width)),
        all_digit_glyphs(digits_of(height)),
        all_cell_glyphs(cell_glyphs(cells)),
        value_of(digits_of(width)) == width,
        value_of(digits_of(height)) == height,
        glyph_cells(cell_glyphs(cells)) == cells,
        cell_glyphs(cells).len() == cells.len(),
{
    lemma_value_round_trip(width);
    lemma_value_round_trip(height);
    lemma_cells_round_trip(cells);
    lemma_separator_is_no_digit_glyph();
    lemma_separator_is_no_cell_glyph();
    lemma_fields_of_frame(digits_of(width), digits_of(height), cell_glyphs(cells));
}

/// Decoding undoes encoding: the level code of a grid of `width * height`
/// cell types stands for that width, that height and that grid.
pub proof fn lemma_level_round_trip(width: u32, height: u32, cells: Seq<u8>)
    requires
        valid_cells(cells),
        cells.len() == width * height,
    ensures
        level_of(level_code(width as nat, height as nat, cells)) == Ok::<
            (nat, nat, Seq<u8>),
            LevelError,
        >((width as nat, height as nat, cells)),
{
    lemma_fields_of_level_code(width as nat, height as nat, cells);
}

/// The number of cells is enforced: a text of the right shape, whose fields
/// hold glyphs of their alphabets and whose dimensions fit in 32 bits, stands
/// for no level where the number of its cell glyphs is not width times
/// height. The reason given is `SizeMismatch`.
pub proof fn lemma_size_is_enforced(width: Seq<char>, height: Seq<char>, cells: Seq<char>)
    requires
        all_digit_glyphs(width),
        all_digit_glyphs(height),
        all_cell_glyphs(cells),
        value_of(width) <= u32::MAX,
        value_of(height) <= u32::MAX,
        cells.len() != value_of(width) * value_of(height),
    ensures
        level_of(frame(width, height, cells)) == Err::<(nat, nat, Seq<u8>), LevelError>(
            LevelError::SizeMismatch,
        ),
{
    lemma_separator_is_no_digit_glyph();
    lemma_separator_is_no_cell_glyph();
    lemma_fields_of_frame(width, height, cells);
}

/// The level code of the grid `data`, which holds the cells row by row.
///
/// It fails with `InvalidCellType`, and hands out no text, where a cell is
/// not below 11. The number of cells is not held against `width` and
/// `height`: a code made of another number of cells is text that
/// [`decode_v3_code`] refuses.
pub fn encode_v3_code(width: u32, height: u32, data: Vec<u8>) -> (r: Result<String, LevelError>)
    ensures
        r is Ok <==> valid_cells(data@),
        r matches Ok(code) ==> code@ == level_code(width as nat, height as nat, data@),
        r matches Err(e) ==> e == LevelError::InvalidCellType,
{
    let cells = match encode_cells(data.as_slice()) {
        Ok(cells) => cells,
        Err(e) => {
            return Err(e);
        },
    };
    let mut code = "V3;".to_owned();
    proof {
        reveal_strlit("V3;");
    }
    let width_field = encode_digits(width);
    code.append(width_field.as_str());
    code.push(';');
    let height_field = encode_digits(height);
    code.append(height_field.as_str());
    code.push(';');
    code.append(cells.as_str());
    code.push(';');
    Ok(code)
}

/// The width, the height and the grid that the level code `code` stands for.
///
/// It fails with what [`level_of`] gives: `MalformedLevelCode` where the text
/// has not the shape `V3;<width>;<height>;<cells>;` or a dimension does not
/// fit in 32 bits, `InvalidGlyph` where a field holds a glyph outside its
/// alphabet, `SizeMismatch` where the number of cells is not width times
/// height.
pub fn decode_v3_code(code: &str) -> (r: Result<(u32, u32, Vec<u8>), LevelError>)
    ensures
        r matches Ok((width, height, cells)) ==> level_of(code@) == Ok::<
            (nat, nat, Seq<u8>),
            LevelError,
        >((width as nat, height as nat, cells@)),
        r matches Ok((width, height, cells)) ==> cells@.len() == width * height && valid_cells(
            cells@,
        ),
        r matches Err(e) ==> level_of(code@) == Err::<(nat, nat, Seq<u8>), LevelError>(e),
{
    let glyphs = chars_of(code);
    let (width_field, height_field, cells_field) = match split_fields(glyphs.as_slice()) {
        Some(fields) => fields,
        None => {
            return Err(LevelError::MalformedLevelCode);
        },
    };
    let width: u32 = match decode_digit_glyphs(width_field) {
        Ok(width) => width,
        Err(e) => {
            return Err(e);
        },
    };
    let height: u32 = match decode_digit_glyphs(height_field) {
        Ok(height) => height,
        Err(e) => {
            return Err(e);
        },
    };
    let cells = match decode_cell_glyphs(cells_field) {
        Ok(cells) => cells,
        Err(e) => {
            return Err(e);
        },
    };
    assert(width as u64 * height as u64 <= 0xFFFF_FFFE_0000_0001) by (nonlinear_arith)
        requires
            width <= 0xFFFF_FFFF,
            height <= 0xFFFF_FFFF,
    ;
    if cells.len() as u64 != width as u64 * height as u64 {
        return Err(LevelError::SizeMismatch);
    }
    Ok((width, height, cells))
}

} // verus!
