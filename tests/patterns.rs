use benediction::{on_odd_tile, spiral_glyph};

#[test]
fn spiral_glyphs_cycle_every_eight_rings() {
    assert_eq!(spiral_glyph(0), '▮');
    assert_eq!(spiral_glyph(3), '█');
    assert_eq!(spiral_glyph(7), '■');
    assert_eq!(spiral_glyph(8), '▮');
    assert_eq!(spiral_glyph(13), '╍');
    assert_eq!(spiral_glyph(usize::MAX), '■');
}

#[test]
fn checkerboard_tiles_are_five_by_three() {
    assert!(!on_odd_tile(0, 0));
    assert!(!on_odd_tile(4, 2));
    assert!(on_odd_tile(5, 0));
    assert!(on_odd_tile(0, 3));
    assert!(!on_odd_tile(5, 3));
    assert!(!on_odd_tile(9, 5));
    assert!(on_odd_tile(9, 6));
    assert!(!on_odd_tile(10, 0));
}
