//! The cell types and their glyphs, and the cell field of a level code: one
//! glyph for each cell, row by row, with nothing between them.

use crate::error::LevelError;
use crate::text::chars_of;
use vstd::prelude::*;

verus! {

/// The number of cell types. A cell is a number below it.
pub const CELL_TYPES: u8 = 11;

/// The glyph of each cell type, at the position of the cell type's number.
pub const CELL_GLYPHS: [char; 11] = ['}', '{', '4', '2', 'e', '0', 'c', '6', 'a', 'I', 'G'];

/// The glyph of the cell type `cell`. It means something for `0 <= cell < 11`.
pub open spec fn cell_glyph(cell: int) -> char {
    CELL_GLYPHS@[cell]
}

/// Whether `glyph` is the glyph of one of the cell types.
pub open spec fn is_cell_glyph(glyph: char) -> bool {
    exists|cell: int| 0 <= cell < CELL_TYPES && #[trigger] cell_glyph(cell) == glyph
}

/// The cell type that `glyph` stands for: its position in the table. It means
/// something where `is_cell_glyph(glyph)`.
pub open spec fn glyph_cell(glyph: char) -> int {
    choose|cell: int| 0 <= cell < CELL_TYPES && #[trigger] cell_glyph(cell) == glyph
}

/// Whether every cell of the grid is a cell type.
pub open spec fn valid_cells(cells: Seq<u8>) -> bool {
    forall|i: int| 0 <= i < cells.len() ==> #[trigger] cells[i] < CELL_TYPES
}

/// The cell field of a grid: the glyph of each cell, in the grid's order.
pub open spec fn cell_glyphs(cells: Seq<u8>) -> Seq<char> {
    Seq::new(cells.len(), |i: int| cell_glyph(cells[i] as int))
}

/// Whether every character of the field is the glyph of a cell type.
pub open spec fn all_cell_glyphs(field: Seq<char>) -> bool {
    forall|i: int| 0 <= i < field.len() ==> is_cell_glyph(#[trigger] field[i])
}

/// The grid that a cell field stands for: the cell type of each glyph, in the
/// field's order. It means something where `all_cell_glyphs(field)`.
pub open spec fn glyph_cells(field: Seq<char>) -> Seq<u8> {
    Seq::new(field.len(), |i: int| glyph_cell(field[i]) as u8)
}

/// No glyph stands for two cell types: different cell types have different
/// glyphs.
pub proof fn lemma_cell_glyphs_distinct(a: int, b: int)
    requires
        0 <= a < CELL_TYPES,
        0 <= b < CELL_TYPES,
        a != b,
    ensures
        cell_glyph(a) != cell_glyph(b),
{
}

/// Each cell type has a glyph, and that glyph stands for this cell type.
pub proof fn lemma_cell_round_trip(cell: int)
    requires
        0 <= cell < CELL_TYPES,
    ensures
        is_cell_glyph(cell_glyph(cell)),
        glyph_cell(cell_glyph(cell)) == cell,
{
    let found = glyph_cell(cell_glyph(cell));
    if found != cell {
        lemma_cell_glyphs_distinct(found, cell);
    }
}

/// Each cell glyph stands for one of the cell types, whose glyph it is.
pub proof fn lemma_cell_glyph_round_trip(glyph: char)
    requires
        is_cell_glyph(glyph),
    ensures
        0 <= glyph_cell(glyph) < CELL_TYPES,
        cell_glyph(glyph_cell(glyph)) == glyph,
{
}

/// The separator of the fields is the glyph of no cell type, so a cell field
/// never holds it.
pub proof fn lemma_separator_is_no_cell_glyph()
    ensures
        !is_cell_glyph(';'),
{
}

/// A grid of cell types comes back from its cell field unchanged, and the
/// field holds cell glyphs only.
pub proof fn lemma_cells_round_trip(cells: Seq<u8>)
    requires
        valid_cells(cells),
    ensures
        cell_glyphs(cells).len() == cells.len(),
        all_cell_glyphs(cell_glyphs(cells)),
        glyph_cells(cell_glyphs(cells)) == cells,
{
    let field = cell_glyphs(cells);
    assert forall|i: int| 0 <= i < field.len() implies is_cell_glyph(#[trigger] field[i])
        && glyph_cell(field[i]) == cells[i] by {
        lemma_cell_round_trip(cells[i] as int);
    }
}

/// The glyph of the cell type `cell`, or `InvalidCellType` where `cell` is
/// not below 11.
pub fn encode_cell(cell: u8) -> (r: Result<char, LevelError>)
    ensures
        r is Ok <==> cell < CELL_TYPES,
        r matches Ok(glyph) ==> glyph == cell_glyph(cell as int),
        r matches Err(e) ==> e == LevelError::InvalidCellType,
{
    if cell < CELL_TYPES {
        Ok(CELL_GLYPHS[cell as usize])
    } else {
        Err(LevelError::InvalidCellType)
    }
}

/// The cell type that `glyph` stands for, or `InvalidGlyph` where it is the
/// glyph of none.
pub fn decode_cell(glyph: char) -> (r: Result<u8, LevelError>)
    ensures
        r is Ok <==> is_cell_glyph(glyph),
        r matches Ok(cell) ==> cell == glyph_cell(glyph) && cell < CELL_TYPES && cell_glyph(
            cell as int,
        ) == glyph,
        r matches Err(e) ==> e == LevelError::InvalidGlyph,
{
    let found: Option<u8> = if glyph == '}' {
        Some(0)
    } else if glyph == '{' {
        Some(1)
    } else if glyph == '4' {
        Some(2)
    } else if glyph == '2' {
        Some(3)
    } else if glyph == 'e' {
        Some(4)
    } else if glyph == '0' {
        Some(5)
    } else if glyph == 'c' {
        Some(6)
    } else if glyph == '6' {
        Some(7)
    } else if glyph == 'a' {
        Some(8)
    } else if glyph == 'I' {
        Some(9)
    } else if glyph == 'G' {
        Some(10)
    } else {
        None
    };
    match found {
        Some(cell) => {
            proof {
                lemma_cell_round_trip(cell as int);
            }
            Ok(cell)
        },
        None => Err(LevelError::InvalidGlyph),
    }
}

/// The cell field of the grid `cells`, or `InvalidCellType` where one of the
/// cells is not a cell type.
pub fn encode_cells(cells: &[u8]) -> (r: Result<String, LevelError>)
    ensures
        r is Ok <==> valid_cells(cells@),
        r matches Ok(field) ==> field@ == cell_glyphs(cells@),
        r matches Err(e) ==> e == LevelError::InvalidCellType,
{
    let mut field = String::new();
    let mut i: usize = 0;
    while i < cells.len()
        invariant
            i <= cells.len(),
            valid_cells(cells@.take(i as int)),
            field@ == cell_glyphs(cells@.take(i as int)),
        decreases cells.len() - i,
    {
        match encode_cell(cells[i]) {
            Ok(glyph) => {
                field.push(glyph);
            },
            Err(e) => {
                return Err(e);
            },
        }
        i += 1;
    }
    proof {
        assert(cells@.take(i as int) =~= cells@);
    }
    Ok(field)
}

/// The grid that the glyphs of `field` stand for, or `InvalidGlyph` where one
/// of them is the glyph of no cell type.
pub fn decode_cell_glyphs(field: &[char]) -> (r: Result<Vec<u8>, LevelError>)
    ensures
        r is Ok <==> all_cell_glyphs(field@),
        r matches Ok(cells) ==> cells@ == glyph_cells(field@) && valid_cells(cells@),
        r matches Err(e) ==> e == LevelError::InvalidGlyph,
{
    let mut cells: Vec<u8> = Vec::new();
    let mut i: usize = 0;
    while i < field.len()
        invariant
            i <= field.len(),
            all_cell_glyphs(field@.take(i as int)),
            cells@ == glyph_cells(field@.take(i as int)),
            valid_cells(cells@),
        decreases field.len() - i,
    {
        match decode_cell(field[i]) {
            Ok(cell) => {
                cells.push(cell);
            },
            Err(e) => {
                return Err(e);
            },
        }
        i += 1;
    }
    proof {
        assert(field@.take(i as int) =~= field@);
    }
    Ok(cells)
}

/// The grid that the cell field `field` stands for, or `InvalidGlyph` where
/// one of its characters is the glyph of no cell type.
pub fn decode_cells(field: &str) -> (r: Result<Vec<u8>, LevelError>)
    ensures
        r is Ok <==> all_cell_glyphs(field@),
        r matches Ok(cells) ==> cells@ == glyph_cells(field@) && valid_cells(cells@),
        r matches Err(e) ==> e == LevelError::InvalidGlyph,
{
    let glyphs = chars_of(field);
    decode_cell_glyphs(glyphs.as_slice())
}

} // verus!
