//! A codec for `V3` level codes: the text form of a grid of cells, as a
//! puzzle game reads it, and the rules that bind the slots of a quantised
//! image's palette to the game's cell types.
//!
//! A level code is `V3;<width>;<height>;<cells>;`. The two dimensions are
//! written in base 74, most significant digit first, with zero written as
//! the empty string. The cells follow row by row, one glyph each.

pub mod alphabet;
pub mod cells;
pub mod codec;
pub mod digits;
pub mod error;
pub mod frame;
pub mod palette;
pub mod text;

pub use alphabet::{decode_digit, DIGIT_GLYPHS, RADIX};
pub use cells::{
    decode_cell, decode_cell_glyphs, decode_cells, encode_cell, encode_cells, CELL_GLYPHS,
    CELL_TYPES,
};
pub use codec::{decode_v3_code, encode_v3_code};
pub use digits::{decode_digit_glyphs, decode_digits, encode_digits};
pub use error::LevelError;
pub use frame::{split_fields, SEPARATOR};
pub use palette::{resolve_palette, texture_name, TEXTURE_NAMES};
