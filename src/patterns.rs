use vstd::prelude::*;

verus! {

/// Width of a checkerboard tile, in cells.
pub const TILE_WIDTH: u32 = 5;

/// Height of a checkerboard tile, in cells.
pub const TILE_HEIGHT: u32 = 3;

/// The glyphs of the spiral's rings, innermost first; they repeat outwards.
pub open spec fn spiral_glyphs() -> Seq<char> {
    seq!['▮', '─', '━', '█', '╌', '╍', '═', '■']
}

/// The glyph of the spiral ring at rounded distance `ring` from the center.
pub fn spiral_glyph(ring: usize) -> (c: char)
    ensures
        c == spiral_glyphs()[ring as int % 8],
{
    let glyphs: [char; 8] = ['▮', '─', '━', '█', '╌', '╍', '═', '■'];
    proof {
        assert(glyphs@ =~= spiral_glyphs());
    }
    glyphs[ring % 8]
}

/// Whether cell `(x, y)` lies on an odd checkerboard tile: one whose column
/// and row of tiles differ in parity.
pub open spec fn odd_tile(x: int, y: int) -> bool {
    (x / TILE_WIDTH as int) % 2 != (y / TILE_HEIGHT as int) % 2
}

/// Whether cell `(x, y)` lies on an odd checkerboard tile.
pub fn on_odd_tile(x: u32, y: u32) -> (odd: bool)
    ensures
        odd == odd_tile(x as int, y as int),
{
    (x / TILE_WIDTH) % 2 != (y / TILE_HEIGHT) % 2
}

} // verus!
