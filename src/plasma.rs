use vstd::prelude::*;
use crate::palette::{clamp_level, Palette, PALETTE_LEN};
use crate::pixel::{filled_cell, Pixel};

verus! {

/// One period of the plasma palette's red channel, `max(0, floor(255 cos(v pi)))`
/// with `v = 6 i / 255 - 3` evaluated in single precision; the channel repeats
/// every 85 entries.
pub open spec fn red_wave() -> Seq<u8> {
    seq![
        0, 0, 0, 0, 0, 0, 0, 0, 0, 0, 0, 0,
        0, 0, 0, 0, 0, 0, 0, 0, 0, 0, 14, 32,
        51, 69, 87, 105, 122, 138, 153, 168, 181, 194, 206, 216,
        226, 234, 241, 246, 250, 253, 254, 254, 253, 250, 246, 241,
        234, 226, 216, 206, 194, 181, 168, 153, 138, 122, 105, 87,
        69, 51, 32, 14, 0, 0, 0, 0, 0, 0, 0, 0,
        0, 0, 0, 0, 0, 0, 0, 0, 0, 0, 0, 0,
        0,
    ]
}

/// One period of the plasma palette's blue channel, `max(0, floor(255 sin(v pi)))`
/// with `v = 6 i / 255 - 3` evaluated in single precision; the channel repeats
/// every 85 entries.
pub open spec fn blue_wave() -> Seq<u8> {
    seq![
        0, 0, 0, 0, 0, 0, 0, 0, 0, 0, 0, 0,
        0, 0, 0, 0, 0, 0, 0, 0, 0, 0, 0, 0,
        0, 0, 0, 0, 0, 0, 0, 0, 0, 0, 0, 0,
        0, 0, 0, 0, 0, 0, 0, 9, 28, 46, 65, 83,
        100, 117, 134, 149, 164, 178, 191, 203, 214, 223, 232, 239,
        245, 249, 252, 254, 254, 253, 251, 247, 242, 236, 228, 219,
        209, 197, 185, 171, 157, 142, 126, 109, 92, 74, 56, 37,
        18,
    ]
}

/// The plasma palette's green channel: `v = 6 i / 255 - 3` cast to a byte,
/// which saturates negative values to 0 and truncates the rest.
pub open spec fn plasma_green(i: int) -> u8 {
    if i < 170 {
        0
    } else if i < 213 {
        1
    } else {
        2
    }
}

/// The plasma palette; the last entry stays black.
pub open spec fn plasma_color(i: int) -> [u8; 3] {
    if i < 255 {
        [red_wave()[i % 85], plasma_green(i), blue_wave()[i % 85]]
    } else {
        [0u8, 0u8, 0u8]
    }
}

fn red_at(k: usize) -> (r: u8)
    requires
        k < 85,
    ensures
        r == red_wave()[k as int],
{
    let t: [u8; 85] = [
        0, 0, 0, 0, 0, 0, 0, 0, 0, 0, 0, 0,
        0, 0, 0, 0, 0, 0, 0, 0, 0, 0, 14, 32,
        51, 69, 87, 105, 122, 138, 153, 168, 181, 194, 206, 216,
        226, 234, 241, 246, 250, 253, 254, 254, 253, 250, 246, 241,
        234, 226, 216, 206, 194, 181, 168, 153, 138, 122, 105, 87,
        69, 51, 32, 14, 0, 0, 0, 0, 0, 0, 0, 0,
        0, 0, 0, 0, 0, 0, 0, 0, 0, 0, 0, 0,
        0,
    ];
    proof {
        assert(t@ =~= red_wave());
    }
    t[k]
}

fn blue_at(k: usize) -> (r: u8)
    requires
        k < 85,
    ensures
        r == blue_wave()[k as int],
{
    let t: [u8; 85] = [
        0, 0, 0, 0, 0, 0, 0, 0, 0, 0, 0, 0,
        0, 0, 0, 0, 0, 0, 0, 0, 0, 0, 0, 0,
        0, 0, 0, 0, 0, 0, 0, 0, 0, 0, 0, 0,
        0, 0, 0, 0, 0, 0, 0, 9, 28, 46, 65, 83,
        100, 117, 134, 149, 164, 178, 191, 203, 214, 223, 232, 239,
        245, 249, 252, 254, 254, 253, 251, 247, 242, 236, 228, 219,
        209, 197, 185, 171, 157, 142, 126, 109, 92, 74, 56, 37,
        18,
    ];
    proof {
        assert(t@ =~= blue_wave());
    }
    t[k]
}

/// A plasma field: sinusoids of the cell position and time, colored through
/// a cyclic red and blue palette.
pub struct Plasma {
    palette: Palette,
}

impl Plasma {
    /// The palette that maps field values to colors.
    pub closed spec fn colors(&self) -> Seq<[u8; 3]> {
        self.palette@
    }

    /// A plasma with its palette built; the field needs no other state.
    pub fn new(_width: u32, _height: u32) -> (p: Plasma)
        ensures
            p.colors() == Seq::new(256, |i: int| plasma_color(i)),
    {
        let mut entries: Vec<[u8; 3]> = Vec::new();
        let mut i: usize = 0;
        while i < PALETTE_LEN
            invariant
                i <= PALETTE_LEN,
                entries@ == Seq::new(i as nat, |j: int| plasma_color(j)),
            decreases PALETTE_LEN - i,
        {
            let rgb: [u8; 3] = if i < 255 {
                let green: u8 = if i < 170 {
                    0
                } else if i < 213 {
                    1
                } else {
                    2
                };
                [red_at(i % 85), green, blue_at(i % 85)]
            } else {
                [0, 0, 0]
            };
            entries.push(rgb);
            i = i + 1;
            proof {
                assert(entries@ =~= Seq::new(i as nat, |j: int| plasma_color(j)));
            }
        }
        Plasma { palette: Palette::from_entries(entries) }
    }

    /// The field is recomputed from the canvas size on every frame, so a
    /// resize changes nothing.
    pub fn update(&mut self, _width: u32, _height: u32)
        ensures
            final(self).colors() == old(self).colors(),
    {
    }

    /// The cell for field value `level`: a space over the palette color of
    /// `level` clamped to `0..=255`.
    pub fn pixel(&self, level: i64) -> (p: Pixel)
        ensures
            p == filled_cell(self.colors()[clamp_level(level as int)]),
    {
        Pixel::filled(self.palette.lookup(level))
    }
}

} // verus!
