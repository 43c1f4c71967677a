use level_codec::{encode_v3_code, resolve_palette, texture_name, LevelError, TEXTURE_NAMES};

#[test]
fn each_slot_is_its_cell_type() {
    let palette = [(255u8, 0u8, 0u8, 255u8), (0, 255, 0, 255), (0, 0, 255, 255)];
    assert_eq!(resolve_palette(&palette, vec![0, 1, 2, 2, 1, 0]), Ok(vec![0, 1, 2, 2, 1, 0]));
    let none: [u8; 0] = [];
    assert_eq!(resolve_palette(&none, vec![]), Ok(vec![]));
}

#[test]
fn the_colours_do_not_matter() {
    let dark = [0u32; 11];
    let light = [0xFFFF_FFFFu32; 11];
    let indices: Vec<u8> = (0..11).rev().collect();
    assert_eq!(resolve_palette(&dark, indices.clone()), Ok(indices.clone()));
    assert_eq!(resolve_palette(&light, indices.clone()), Ok(indices));
}

#[test]
fn a_slot_of_eleven_is_too_many_cell_types() {
    let palette = [0u8; 11];
    assert_eq!(resolve_palette(&palette, vec![0, 11]), Err(LevelError::TooManyCellTypes));
    assert_eq!(resolve_palette(&palette, vec![255]), Err(LevelError::TooManyCellTypes));
    assert_eq!(resolve_palette(&palette, vec![10]), Ok(vec![10]));
}

#[test]
fn a_palette_of_twelve_colours_is_too_many_cell_types() {
    let palette = [0u8; 12];
    assert_eq!(resolve_palette(&palette, vec![0, 1]), Err(LevelError::TooManyCellTypes));
    assert_eq!(resolve_palette(&palette, vec![]), Err(LevelError::TooManyCellTypes));
}

#[test]
fn a_slot_that_the_palette_lacks_is_kept() {
    let palette = [0u8; 2];
    assert_eq!(resolve_palette(&palette, vec![0, 5]), Ok(vec![0, 5]));
}

#[test]
fn a_resolved_grid_can_be_encoded() {
    let palette = [0u8; 3];
    let cells = resolve_palette(&palette, vec![2, 0, 1, 1]).unwrap();
    assert_eq!(encode_v3_code(2, 2, cells), Ok("V3;2;2;4}{{;".to_string()));
}

#[test]
fn each_cell_type_has_its_texture() {
    let names = [
        "0.png",
        "BGDefault.png",
        "CCWspinner_alt.png",
        "CWspinner_alt.png",
        "enemy.png",
        "generator.png",
        "immobile.png",
        "mover.png",
        "push.png",
        "slide.png",
        "trash.png",
    ];
    assert_eq!(TEXTURE_NAMES, names);
    for slot in 0..11usize {
        assert_eq!(texture_name(slot), Some(names[slot]));
    }
    assert_eq!(texture_name(11), None);
    assert_eq!(texture_name(usize::MAX), None);
}

#[test]
fn each_error_has_its_message() {
    let all = [
        LevelError::TooManyCellTypes,
        LevelError::InvalidCellType,
        LevelError::MalformedLevelCode,
        LevelError::InvalidGlyph,
        LevelError::SizeMismatch,
    ];
    for (i, a) in all.iter().enumerate() {
        assert!(!a.message().is_empty());
        for (j, b) in all.iter().enumerate() {
            assert_eq!(i == j, a.message() == b.message());
        }
    }
    assert_eq!(LevelError::MalformedLevelCode.message(), "the level code is malformed");
}
