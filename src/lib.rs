//! Procedural pixel effects for text-cell canvases: the integer core of the
//! effect generators (cells, colors, palettes and the fire automaton).

pub mod cells;
pub mod fire;
pub mod palette;
pub mod patterns;
pub mod pixel;
pub mod plasma;

pub use cells::Cells;
pub use fire::{Fire, FUEL_THRESHOLD};
pub use palette::{blobs_palette, new_palette, Palette, PALETTE_LEN};
pub use pixel::{Color, Pixel};
pub use plasma::Plasma;
pub use patterns::{on_odd_tile, spiral_glyph};
