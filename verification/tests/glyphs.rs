use greek_wordle::glyphs::{edge_glyph, letter_row, paint_halves, run_rows, Glyph, NO_COLOR};

#[test]
fn a_scored_tile_covers_the_outline_rows() {
    // Half-rows 1..5: the lower half of row 0, all of row 1, the upper half of row 2.
    assert_eq!(run_rows(1, 5), vec![(0, false, true), (1, true, true), (2, true, false)]);
    assert_eq!(letter_row(1, 5), Some(1));
}

#[test]
fn a_turning_tile_narrows_to_an_edge() {
    assert_eq!(run_rows(3, 4), vec![(1, false, true)]);
    assert_eq!(letter_row(3, 4), None, "no room for the letter on an edge");
    assert!(run_rows(4, 4).is_empty());
    assert!(run_rows(5, 2).is_empty());
}

#[test]
fn a_hopping_tile_rises_with_its_letter() {
    assert_eq!(run_rows(-1, 3), vec![(-1, false, true), (0, true, true), (1, true, false)]);
    assert_eq!(letter_row(-1, 3), Some(0), "letter rides up with the tile");
    assert_eq!(letter_row(0, 4), Some(0));
}

#[test]
fn edge_columns_pick_their_quarter() {
    let g = ['▐', '▝', '▗'];
    assert_eq!(edge_glyph(true, true, g), Some('▐'));
    assert_eq!(edge_glyph(true, false, g), Some('▝'));
    assert_eq!(edge_glyph(false, true, g), Some('▗'));
    assert_eq!(edge_glyph(false, false, g), None);
}

#[test]
fn a_hopping_tile_merges_with_the_one_above() {
    let (absent, correct) = (0x3a3a3c, 0x538d4e);
    // The tile above left its bottom edge as a lower half; the hop paints the upper half.
    let above = paint_halves(Glyph::Other, NO_COLOR, NO_COLOR, true, false, absent).unwrap();
    assert_eq!(above, (Glyph::Upper, absent, NO_COLOR));
    let merged = paint_halves(above.0, above.1, above.2, false, true, correct).unwrap();
    assert_eq!(merged, (Glyph::Upper, absent, correct));
    // Both halves in one colour become a filled blank.
    assert_eq!(
        paint_halves(Glyph::Blank, NO_COLOR, correct, true, false, correct),
        Some((Glyph::Blank, NO_COLOR, correct))
    );
    assert_eq!(paint_halves(Glyph::Other, 7, 9, false, false, correct), None);
}
