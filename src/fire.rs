use vstd::prelude::*;
use crate::cells::Cells;
use crate::palette::{Palette, PALETTE_LEN};
use crate::pixel::{filled_cell, Pixel};

verus! {

/// Length of the heat grid behind a `width` by `height` canvas: one extra
/// column and one extra row on each side.
pub open spec fn grid_len(width: int, height: int) -> int {
    (width + 2) * (height + 2)
}

/// The grid of a `width` by `height` canvas can be sized and indexed in `u32`.
pub open spec fn grid_fits(width: u32, height: u32) -> bool {
    grid_len(width as int, height as int) <= u32::MAX
}

proof fn lemma_sides_fit(width: u32, height: u32)
    requires
        grid_fits(width, height),
    ensures
        width + 2 <= grid_len(width as int, height as int),
        height + 2 <= grid_len(width as int, height as int),
{
    let (a, b) = (width + 2, height + 2);
    assert(a <= a * b && b <= a * b) by (nonlinear_arith)
        requires a >= 2, b >= 2;
}

/// The fire palette: red at full intensity, green a quarter of it and blue a
/// sixteenth; the last entry stays black.
pub open spec fn fire_color(i: int) -> [u8; 3] {
    if i < 255 {
        [i as u8, (i / 4) as u8, (i / 16) as u8]
    } else {
        [0u8, 0u8, 0u8]
    }
}

/// A random draw above this value lights a fuel cell: about 3 draws in 10.
pub const FUEL_THRESHOLD: u32 = 3006477107;

/// The heat that a draw puts into a fuel cell.
pub open spec fn fuel(draw: u32) -> u8 {
    if draw > FUEL_THRESHOLD {
        255
    } else {
        0
    }
}

/// The new heat at offset `o` of grid `g`, in rows `width` cells apart: the
/// mean of four cells below it (one row down and one column left, one row
/// down, two rows down, two rows down and one column right), less 2, taken
/// as an absolute value.
pub open spec fn cooled(g: Seq<u8>, width: int, o: int) -> u8 {
    let sum = g[o + width - 1] + g[o + width] + g[o + 2 * width] + g[o + 2 * width + 1];
    let d = sum / 4 - 2;
    (if d < 0 {
        -d
    } else {
        d
    }) as u8
}

/// The grid that a step starts from: `g` where it fits the canvas, else a
/// zeroed grid of the canvas's size.
pub open spec fn start_grid(g: Seq<u8>, width: int, height: int) -> Seq<u8> {
    if g.len() == grid_len(width, height) {
        g
    } else {
        Seq::new(grid_len(width, height) as nat, |i: int| 0u8)
    }
}

/// One step of the automaton on grid `g` of a `width` by `height` canvas:
/// every canvas cell cools from the cells below it, the fuel row under the
/// canvas takes the heat of `draws`, and the rest of the grid is kept.
pub open spec fn next_grid(g: Seq<u8>, width: int, height: int, draws: Seq<u32>) -> Seq<u8> {
    Seq::new(
        g.len(),
        |i: int|
            if i < width * height {
                cooled(g, width, i)
            } else if i < width * height + width {
                fuel(draws[i - width * height])
            } else {
                g[i]
            },
    )
}

/// `n` steps of the automaton from grid `g` with no fuel lit.
pub open spec fn unlit_steps(g: Seq<u8>, width: int, height: int, n: nat) -> Seq<u8>
    decreases n,
{
    if n == 0 {
        g
    } else {
        next_grid(
            unlit_steps(g, width, height, (n - 1) as nat),
            width,
            height,
            Seq::new(width as nat, |i: int| 0u32),
        )
    }
}

/// A step without fuel keeps every cell of a grid at most 2 if it was so.
proof fn lemma_unlit_step_stays_dim(g: Seq<u8>, width: int, height: int)
    requires
        0 <= width,
        0 <= height,
        g.len() == grid_len(width, height),
        forall|i: int| 0 <= i < g.len() ==> g[i] <= 2,
    ensures
        ({
            let g1 = next_grid(g, width, height, Seq::new(width as nat, |i: int| 0u32));
            &&& g1.len() == g.len()
            &&& forall|i: int| 0 <= i < g1.len() ==> g1[i] <= 2
        }),
{
    let g1 = next_grid(g, width, height, Seq::new(width as nat, |i: int| 0u32));
    assert forall|i: int| 0 <= i < g1.len() implies g1[i] <= 2 by {
        if i < width * height {
            assert(i + 2 * width + 1 < grid_len(width, height) && width > 0) by (nonlinear_arith)
                requires 0 <= i < width * height, width >= 0, height >= 0;
        }
    }
}

/// A fire that starts cold and is never fed stays dim: after any number of
/// steps without fuel, no cell of the grid holds more heat than 2.
pub proof fn lemma_unlit_fire_stays_dim(width: nat, height: nat, n: nat)
    ensures
        ({
            let g = unlit_steps(
                Seq::new(grid_len(width as int, height as int) as nat, |i: int| 0u8),
                width as int,
                height as int,
                n,
            );
            &&& g.len() == grid_len(width as int, height as int)
            &&& forall|i: int| 0 <= i < g.len() ==> g[i] <= 2
        }),
    decreases n,
{
    let z = Seq::new(grid_len(width as int, height as int) as nat, |i: int| 0u8);
    assert(grid_len(width as int, height as int) >= 0) by (nonlinear_arith)
        requires width >= 0, height >= 0;
    if n > 0 {
        lemma_unlit_fire_stays_dim(width, height, (n - 1) as nat);
        lemma_unlit_step_stays_dim(
            unlit_steps(z, width as int, height as int, (n - 1) as nat),
            width as int,
            height as int,
        );
    }
}

/// A fire simulation: a diffusing, cooling heat field fed from a random fuel row.
pub struct Fire {
    palette: Palette,
    particles: Vec<u8>,
}

/// Relies on fastrand::u32 over the full range: a uniformly drawn `u32`
/// from the thread-local generator; any value may come back.
#[verifier::external_body]
fn random_u32() -> (r: u32) {
    fastrand::u32(..)
}

impl Fire {
    /// The heat grid, row-major.
    pub closed spec fn grid(&self) -> Seq<u8> {
        self.particles@
    }

    /// The palette that maps heat to color.
    pub closed spec fn colors(&self) -> Seq<[u8; 3]> {
        self.palette@
    }

    /// The heat grid, row-major.
    pub fn heat_grid(&self) -> (g: &Vec<u8>)
        ensures
            g@ == self.grid(),
    {
        &self.particles
    }

    fn fire_palette() -> (p: Palette)
        ensures
            p@ == Seq::new(256, |i: int| fire_color(i)),
    {
        let mut entries: Vec<[u8; 3]> = Vec::new();
        let mut i: usize = 0;
        while i < PALETTE_LEN
            invariant
                i <= PALETTE_LEN,
                entries@ == Seq::new(i as nat, |j: int| fire_color(j)),
            decreases PALETTE_LEN - i,
        {
            let rgb: [u8; 3] = if i < 255 {
                let t = i as u8;
                [t, t / 4, t / 16]
            } else {
                [0, 0, 0]
            };
            entries.push(rgb);
            i = i + 1;
            proof {
                assert(entries@ =~= Seq::new(i as nat, |j: int| fire_color(j)));
            }
        }
        Palette::from_entries(entries)
    }

    fn zero_grid(width: u32, height: u32) -> (g: Vec<u8>)
        requires
            grid_fits(width, height),
        ensures
            g@ == Seq::new(grid_len(width as int, height as int) as nat, |i: int| 0u8),
    {
        proof {
            lemma_sides_fit(width, height);
        }
        let n = ((width + 2) * (height + 2)) as usize;
        let mut g: Vec<u8> = Vec::new();
        let mut i: usize = 0;
        while i < n
            invariant
                i <= n,
                n == grid_len(width as int, height as int),
                g@ == Seq::new(i as nat, |j: int| 0u8),
            decreases n - i,
        {
            g.push(0);
            i = i + 1;
            proof {
                assert(g@ =~= Seq::new(i as nat, |j: int| 0u8));
            }
        }
        g
    }

    /// A cold fire for a `width` by `height` canvas: a zeroed grid of
    /// `(width + 2) * (height + 2)` cells.
    pub fn new(width: u32, height: u32) -> (f: Fire)
        requires
            grid_fits(width, height),
        ensures
            f.grid() == Seq::new(grid_len(width as int, height as int) as nat, |i: int| 0u8),
            f.colors() == Seq::new(256, |i: int| fire_color(i)),
    {
        let palette = Fire::fire_palette();
        let particles = Fire::zero_grid(width, height);
        Fire { palette, particles }
    }

    /// Restarts the fire for a `width` by `height` canvas: the grid is
    /// resized to `(width + 2) * (height + 2)` cells and zeroed.
    pub fn update(&mut self, width: u32, height: u32)
        requires
            grid_fits(width, height),
        ensures
            final(self).grid() == Seq::new(
                grid_len(width as int, height as int) as nat,
                |i: int| 0u8,
            ),
            final(self).colors() == old(self).colors(),
    {
        self.particles = Fire::zero_grid(width, height);
    }

    /// One step of the automaton on a `width` by `height` canvas, with the
    /// fuel row drawn as `draws`: cells are cooled in row-major order, each
    /// from cells that the step has not yet overwritten, then the fuel row
    /// is lit.
    pub fn step(&mut self, width: u32, height: u32, draws: &Vec<u32>)
        requires
            grid_fits(width, height),
            old(self).grid().len() == grid_len(width as int, height as int),
            draws@.len() == width,
        ensures
            final(self).grid() == next_grid(
                old(self).grid(),
                width as int,
                height as int,
                draws@,
            ),
            final(self).colors() == old(self).colors(),
    {
        let ghost g0 = self.particles@;
        let ghost len = grid_len(width as int, height as int);
        proof {
            let (w, h) = (width as int, height as int);
            assert(w * h + 2 * w + 1 <= len && 0 <= w * h && (w * h > 0 ==> w > 0))
                by (nonlinear_arith)
                requires len == (w + 2) * (h + 2), w >= 0, h >= 0;
            assert(len <= usize::MAX) by {
                assert(self.particles.len() == len);
            }
        }
        let w = width as usize;
        let n = (width * height) as usize;
        let mut o: usize = 0;
        while o < n
            invariant
                w == width,
                n == width * height,
                self.palette@ == old(self).palette@,
                n + 2 * w + 1 <= len,
                n > 0 ==> w > 0,
                len <= usize::MAX,
                len == g0.len(),
                o <= n,
                self.particles@.len() == len,
                forall|j: int| 0 <= j < o ==> self.particles@[j] == cooled(g0, w as int, j),
                forall|j: int| o <= j < len ==> self.particles@[j] == g0[j],
            decreases n - o,
        {
            let sum: u16 = self.particles[o + w - 1] as u16 + self.particles[o + w] as u16
                + self.particles[o + 2 * w] as u16 + self.particles[o + 2 * w + 1] as u16;
            let mean: u16 = sum / 4;
            let heat: u16 = if mean >= 2 {
                mean - 2
            } else {
                2 - mean
            };
            self.particles.set(o, heat as u8);
            o = o + 1;
        }
        let mut x: usize = 0;
        while x < w
            invariant
                w == width,
                n == width * height,
                self.palette@ == old(self).palette@,
                n + 2 * w + 1 <= len,
                len <= usize::MAX,
                len == g0.len(),
                x <= w,
                draws@.len() == w,
                self.particles@.len() == len,
                forall|j: int| 0 <= j < n ==> self.particles@[j] == cooled(g0, w as int, j),
                forall|j: int|
                    n <= j < n + x ==> self.particles@[j] == fuel(draws@[j - n]),
                forall|j: int| n + x <= j < len ==> self.particles@[j] == g0[j],
            decreases w - x,
        {
            let heat: u8 = if draws[x] > FUEL_THRESHOLD {
                255
            } else {
                0
            };
            self.particles.set(n + x, heat);
            x = x + 1;
        }
        proof {
            assert(self.particles@ =~= next_grid(g0, width as int, height as int, draws@));
        }
    }

    /// The cell at `(x, y)` of a `width` by `height` canvas: a space over the
    /// palette color of its heat.
    pub fn pixel(&self, width: u32, height: u32, x: u32, y: u32) -> (p: Pixel)
        requires
            grid_fits(width, height),
            self.grid().len() == grid_len(width as int, height as int),
            x < width,
            y < height,
        ensures
            p == filled_cell(self.colors()[self.grid()[y * width + x] as int]),
    {
        proof {
            let (w, h, xi, yi) = (width as int, height as int, x as int, y as int);
            assert(yi * w + xi < (w + 2) * (h + 2)) by (nonlinear_arith)
                requires 0 <= xi < w, 0 <= yi < h;
            assert(self.particles.len() == self.grid().len());
        }
        let heat = self.particles[(y * width + x) as usize];
        Pixel::filled(self.palette.get(heat))
    }

    /// Renders one frame of a `width` by `height` canvas: restarts the grid
    /// if it does not fit the canvas, advances the automaton by one step with
    /// a freshly drawn fuel row, then hands `put` every cell of the canvas in
    /// row-major order.
    pub fn render(&mut self, width: u32, height: u32, put: impl FnMut(u32, u32, Pixel))
        requires
            grid_fits(width, height),
            forall|x: u32, y: u32, p: Pixel| call_requires(put, (x, y, p)),
        ensures
            final(self).colors() == old(self).colors(),
            exists|draws: Seq<u32>|
                draws.len() == width && final(self).grid() == next_grid(
                    start_grid(old(self).grid(), width as int, height as int),
                    width as int,
                    height as int,
                    draws,
                ),
    {
        proof {
            lemma_sides_fit(width, height);
        }
        if self.particles.len() != ((width + 2) * (height + 2)) as usize {
            self.update(width, height);
        }
        let mut draws: Vec<u32> = Vec::new();
        let mut i: u32 = 0;
        while i < width
            invariant
                i <= width,
                draws@.len() == i,
            decreases width - i,
        {
            draws.push(random_u32());
            i = i + 1;
        }
        let ghost before = self.grid();
        self.step(width, height, &draws);
        let mut put = put;
        let mut cells = Cells::new(width, height);
        loop
            invariant
                cells.wf(),
                cells.width() == width,
                cells.height() == height,
                grid_fits(width, height),
                self.grid().len() == grid_len(width as int, height as int),
                self.grid() == next_grid(before, width as int, height as int, draws@),
                forall|x: u32, y: u32, p: Pixel| call_requires(put, (x, y, p)),
            decreases width * height - cells.position(),
        {
            match cells.next_cell() {
                Some((x, y)) => {
                    proof {
                        crate::cells::lemma_row_major_walk(width as int, height as int);
                    }
                    let p = self.pixel(width, height, x, y);
                    put(x, y, p);
                },
                None => break,
            }
        }
    }
}

} // verus!
