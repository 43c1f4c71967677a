//! The ways in which a conversion can fail.

use vstd::prelude::*;

verus! {

/// Why a level could not be encoded or a level code could not be decoded.
/// Each failure ends the conversion: no partial result is handed out.
#[derive(Clone, Copy, Debug, PartialEq, Eq, Structural)]
pub enum LevelError {
    /// The quantised image names more palette slots than there are cell types.
    TooManyCellTypes,
    /// A cell to encode is not one of the cell types.
    InvalidCellType,
    /// The text does not have the shape `V3;<width>;<height>;<cells>;`, or a
    /// dimension in it is too large for 32 bits.
    MalformedLevelCode,
    /// A glyph in a field is not in that field's alphabet.
    InvalidGlyph,
    /// The number of cells is not width times height.
    SizeMismatch,
}

impl LevelError {
    /// The text of [`LevelError::message`], as a sequence of characters.
    pub open spec fn message_text(self) -> Seq<char> {
        match self {
            LevelError::TooManyCellTypes => "the image was quantised to more than 11 colours"@,
            LevelError::InvalidCellType => "a cell is not one of the 11 cell types"@,
            LevelError::MalformedLevelCode => "the level code is malformed"@,
            LevelError::InvalidGlyph => "the level code holds a glyph outside its alphabet"@,
            LevelError::SizeMismatch => "the number of cells is not width times height"@,
        }
    }

    /// A sentence for the user that says what went wrong.
    pub fn message(&self) -> (text: &'static str)
        ensures
            text@ == self.message_text(),
    {
        match self {
            LevelError::TooManyCellTypes => "the image was quantised to more than 11 colours",
            LevelError::InvalidCellType => "a cell is not one of the 11 cell types",
            LevelError::MalformedLevelCode => "the level code is malformed",
            LevelError::InvalidGlyph => "the level code holds a glyph outside its alphabet",
            LevelError::SizeMismatch => "the number of cells is not width times height",
        }
    }
}

} // verus!
