use vstd::prelude::*;

verus! {

/// Number of entries of a palette: one per 8-bit intensity.
pub const PALETTE_LEN: usize = 256;

/// The intensity that a level stands for: the level clamped to `0..=255`.
pub open spec fn clamp_level(level: int) -> int {
    if level < 0 {
        0
    } else if level > 255 {
        255
    } else {
        level
    }
}

/// An intensity-to-color lookup table of 256 entries.
pub struct Palette {
    entries: Vec<[u8; 3]>,
}

impl View for Palette {
    type V = Seq<[u8; 3]>;

    closed spec fn view(&self) -> Seq<[u8; 3]> {
        self.entries@
    }
}

/// A palette whose every entry is black.
pub fn new_palette() -> (p: Palette)
    ensures
        p@ == Seq::new(256, |i: int| [0u8, 0u8, 0u8]),
{
    let mut entries: Vec<[u8; 3]> = Vec::new();
    let mut i: usize = 0;
    while i < PALETTE_LEN
        invariant
            i <= PALETTE_LEN,
            entries@ == Seq::new(i as nat, |j: int| [0u8, 0u8, 0u8]),
        decreases PALETTE_LEN - i,
    {
        entries.push([0, 0, 0]);
        i = i + 1;
        proof {
            assert(entries@ =~= Seq::new(i as nat, |j: int| [0u8, 0u8, 0u8]));
        }
    }
    Palette::from_entries(entries)
}

impl Palette {
    #[verifier::type_invariant]
    spec fn inv(&self) -> bool {
        self.entries.len() == PALETTE_LEN
    }

    /// The palette whose entry for intensity `i` is `entries[i]`.
    pub fn from_entries(entries: Vec<[u8; 3]>) -> (p: Palette)
        requires
            entries@.len() == 256,
        ensures
            p@ == entries@,
    {
        Palette { entries }
    }

    /// Every palette holds exactly 256 entries.
    pub fn len(&self) -> (n: usize)
        ensures
            n == self@.len(),
            n == 256,
    {
        proof {
            use_type_invariant(self);
        }
        self.entries.len()
    }

    /// The entry for intensity `i`.
    pub fn get(&self, i: u8) -> (rgb: [u8; 3])
        ensures
            rgb == self@[i as int],
    {
        proof {
            use_type_invariant(self);
        }
        self.entries[i as usize]
    }

    /// The entry for `level` clamped to the palette's domain: a level below 0
    /// reads entry 0, one above 255 reads entry 255.
    pub fn lookup(&self, level: i64) -> (rgb: [u8; 3])
        ensures
            rgb == self@[clamp_level(level as int)],
    {
        let i: u8 = if level < 0 {
            0
        } else if level > 255 {
            255
        } else {
            level as u8
        };
        self.get(i)
    }
}

/// The metaball palette: a dim red ramp under equal green and blue ramps;
/// the last entry stays black.
pub open spec fn blob_color(i: int) -> [u8; 3] {
    if i < 255 {
        [(i / 8) as u8, (i / 2) as u8, (i / 2) as u8]
    } else {
        [0u8, 0u8, 0u8]
    }
}

/// The palette of the metaball effect.
pub fn blobs_palette() -> (p: Palette)
    ensures
        p@ == Seq::new(256, |i: int| blob_color(i)),
{
    let mut entries: Vec<[u8; 3]> = Vec::new();
    let mut i: usize = 0;
    while i < PALETTE_LEN
        invariant
            i <= PALETTE_LEN,
            entries@ == Seq::new(i as nat, |j: int| blob_color(j)),
        decreases PALETTE_LEN - i,
    {
        let rgb: [u8; 3] = if i < 255 {
            let t = i as u8;
            [t / 8, t / 2, t / 2]
        } else {
            [0, 0, 0]
        };
        entries.push(rgb);
        i = i + 1;
        proof {
            assert(entries@ =~= Seq::new(i as nat, |j: int| blob_color(j)));
        }
    }
    Palette::from_entries(entries)
}

} // verus!
