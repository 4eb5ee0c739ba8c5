use vstd::prelude::*;

verus! {

broadcast use vstd::array::group_array_axioms;

/// The color of one side of a cell.
#[derive(Copy, Clone, Debug, Eq)]
pub enum Color {
    /// No explicit color: the canvas keeps its own.
    Default,
    /// Explicitly no fill.
    Transparent,
    /// An explicit red, green, blue triple.
    Rgb([u8; 3]),
}

impl PartialEq for Color {
    fn eq(&self, o: &Color) -> (r: bool) {
        match (self, o) {
            (Color::Default, Color::Default) => true,
            (Color::Transparent, Color::Transparent) => true,
            (Color::Rgb(a), Color::Rgb(b)) => {
                let r = a[0] == b[0] && a[1] == b[1] && a[2] == b[2];
                proof {
                    if r {
                        assert(*a =~= *b);
                    }
                }
                r
            },
            _ => false,
        }
    }
}

impl vstd::std_specs::cmp::PartialEqSpecImpl for Color {
    open spec fn obeys_eq_spec() -> bool {
        true
    }

    open spec fn eq_spec(&self, o: &Color) -> bool {
        *self == *o
    }
}

impl Default for Color {
    fn default() -> (c: Color)
        ensures
            c == Color::Default,
    {
        Color::Default
    }
}

/// One rendered cell: a character with its foreground and background colors.
#[derive(Copy, Clone, Debug, Eq)]
pub struct Pixel {
    pub ch: char,
    pub fg: Color,
    pub bg: Color,
}

/// A blank cell whose background is `rgb`.
pub open spec fn filled_cell(rgb: [u8; 3]) -> Pixel {
    Pixel { ch: ' ', fg: Color::Default, bg: Color::Rgb(rgb) }
}

impl PartialEq for Pixel {
    fn eq(&self, o: &Pixel) -> (r: bool) {
        self.ch == o.ch && self.fg.eq(&o.fg) && self.bg.eq(&o.bg)
    }
}

impl vstd::std_specs::cmp::PartialEqSpecImpl for Pixel {
    open spec fn obeys_eq_spec() -> bool {
        true
    }

    open spec fn eq_spec(&self, o: &Pixel) -> bool {
        *self == *o
    }
}

impl Pixel {
    /// A space with the default foreground over the background `rgb`.
    pub fn filled(rgb: [u8; 3]) -> (p: Pixel)
        ensures
            p == filled_cell(rgb),
    {
        Pixel { ch: ' ', fg: Color::Default, bg: Color::Rgb(rgb) }
    }
}

} // verus!
