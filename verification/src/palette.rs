//! From a quantised image to a grid of cells. The quantiser hands out a
//! palette and, for each pixel, the slot of its colour in the palette. The
//! slot is the cell type: slot 0 is cell type 0, and so on, whatever the
//! colours are. Each cell type has a texture, which the game draws in the
//! colour of its slot.

use crate::cells::{valid_cells, CELL_TYPES};
use crate::error::LevelError;
use vstd::prelude::*;

verus! {

/// The file name of the texture of each cell type, at the position of the
/// cell type's number.
pub const TEXTURE_NAMES: [&'static str; 11] = [
    "0.png",
    "BGDefault.png",
    "CCWspinner_alt.png",
    "CWspinner_alt.png",
    "enemy.png",
    "generator.png",
    "immobile.png",
    "mover.png",
    "push.png",
    "slide.png",
    "trash.png",
];

/// The file name of the texture that takes the colour of the palette's slot
/// `slot`, or `None` where the slot is not below 11 and so is no cell type.
pub fn texture_name(slot: usize) -> (name: Option<&'static str>)
    ensures
        name is Some <==> slot < CELL_TYPES,
        name matches Some(text) ==> text@ == TEXTURE_NAMES@[slot as int]@,
{
    if slot < CELL_TYPES as usize {
        Some(TEXTURE_NAMES[slot])
    } else {
        None
    }
}

/// The grid of cells of a quantised image: each pixel's slot, taken as its
/// cell type. The colours are not looked at, only counted.
///
/// It fails with `TooManyCellTypes` where the palette has more than 11
/// colours or a pixel names a slot that is not below 11. A slot below 11 that
/// the palette does not have is kept as it is.
pub fn resolve_palette<C>(palette: &[C], indices: Vec<u8>) -> (r: Result<Vec<u8>, LevelError>)
    ensures
        r is Ok <==> palette@.len() <= CELL_TYPES && valid_cells(indices@),
        r matches Ok(cells) ==> cells@ == indices@,
        r matches Err(e) ==> e == LevelError::TooManyCellTypes,
{
    if palette.len() > CELL_TYPES as usize {
        return Err(LevelError::TooManyCellTypes);
    }
    let mut i: usize = 0;
    while i < indices.len()
        invariant
            i <= indices.len(),
            valid_cells(indices@.take(i as int)),
        decreases indices.len() - i,
    {
        if indices[i] >= CELL_TYPES {
            return Err(LevelError::TooManyCellTypes);
        }
        i += 1;
    }
    proof {
        assert(indices@.take(i as int) =~= indices@);
    }
    Ok(indices)
}

} // verus!
