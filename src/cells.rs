use vstd::prelude::*;

verus! {

/// The cell at position `k` of the row-major walk over a grid `width` cells wide.
pub open spec fn cell_at(width: int, k: int) -> (int, int) {
    (k % width, k / width)
}

/// The position of cell `(x, y)` in the row-major walk over a grid `width` cells wide.
pub open spec fn position_of(width: int, x: int, y: int) -> int {
    y * width + x
}

proof fn lemma_cell_in_grid(width: int, height: int, x: int, y: int)
    requires
        0 <= x < width,
        0 <= y < height,
    ensures
        0 <= y * width + x < width * height,
        cell_at(width, y * width + x) == (x, y),
{
    assert(0 <= y * width + x < width * height) by (nonlinear_arith)
        requires 0 <= x < width, 0 <= y < height;
    vstd::arithmetic::div_mod::lemma_fundamental_div_mod_converse(y * width + x, width, y, x);
}

/// Row-major order on cells `(x, y)`: rows ascending, then columns ascending.
pub open spec fn row_major_before(a: (int, int), b: (int, int)) -> bool {
    a.1 < b.1 || (a.1 == b.1 && a.0 < b.0)
}

/// A cursor over the cells of a `width` by `height` grid, one cell at a time,
/// rows outer and columns inner.
pub struct Cells {
    width: u32,
    height: u32,
    x: u32,
    y: u32,
}

impl Cells {
    /// Number of cells handed out so far.
    pub closed spec fn position(&self) -> nat {
        if self.y < self.height {
            (self.y * self.width + self.x) as nat
        } else {
            (self.width * self.height) as nat
        }
    }

    pub closed spec fn width(&self) -> int {
        self.width as int
    }

    pub closed spec fn height(&self) -> int {
        self.height as int
    }

    pub closed spec fn wf(&self) -> bool {
        &&& self.x < self.width || (self.x == 0 && self.width == 0) || self.y == self.height
        &&& self.y <= self.height
        &&& self.y == self.height ==> self.x == 0
        &&& self.width == 0 ==> self.y == self.height
    }

    /// A walk that starts at the first cell.
    pub fn new(width: u32, height: u32) -> (c: Cells)
        ensures
            c.wf(),
            c.width() == width,
            c.height() == height,
            c.position() == 0,
    {
        let y = if width == 0 { height } else { 0 };
        Cells { width, height, x: 0, y }
    }

    /// The next cell of the walk, or `None` once every cell has been handed out.
    pub fn next_cell(&mut self) -> (r: Option<(u32, u32)>)
        requires
            old(self).wf(),
        ensures
            final(self).wf(),
            final(self).width() == old(self).width(),
            final(self).height() == old(self).height(),
            old(self).position() < old(self).width() * old(self).height() ==> {
                &&& final(self).position() == old(self).position() + 1
                &&& r matches Some(c) && (c.0 as int, c.1 as int) == cell_at(
                    old(self).width(),
                    old(self).position() as int,
                )
            },
            old(self).position() >= old(self).width() * old(self).height() ==> {
                &&& final(self).position() == old(self).position()
                &&& r is None
            },
    {
        proof {
            self.lemma_position_bound();
        }
        if self.y >= self.height {
            return None;
        }
        let cell = (self.x, self.y);
        proof {
            lemma_cell_in_grid(self.width as int, self.height as int, self.x as int, self.y as int);
        }
        if self.x + 1 < self.width {
            self.x = self.x + 1;
        } else {
            self.x = 0;
            self.y = self.y + 1;
            proof {
                let (w, h, y) = (self.width as int, self.height as int, self.y as int);
                assert((y - 1) * w + w == y * w) by (nonlinear_arith);
                assert(w * h == h * w) by (nonlinear_arith);
            }
        }
        Some(cell)
    }

    proof fn lemma_position_bound(&self)
        requires
            self.wf(),
        ensures
            self.y < self.height ==> self.position() < self.width() * self.height(),
            self.y >= self.height ==> self.position() == self.width() * self.height(),
    {
        if self.y < self.height {
            let (w, h, x, y) = (self.width as int, self.height as int, self.x as int, self.y as int);
            assert(y * w + x < (y + 1) * w) by (nonlinear_arith)
                requires x < w;
            assert((y + 1) * w <= h * w) by (nonlinear_arith)
                requires y + 1 <= h, w >= 0;
        }
    }
}

/// The row-major walk over a `width` by `height` grid visits every cell of the
/// grid exactly once, and in row-major ascending order: the cell at each
/// position lies inside the grid, each cell `(x, y)` of the grid stands at
/// position `y * width + x`, no two positions hold the same cell, and an
/// earlier position holds an earlier cell.
pub proof fn lemma_row_major_walk(width: int, height: int)
    requires
        0 <= width,
        0 <= height,
    ensures
        forall|k: int|
            0 <= k < width * height ==> {
                let c = #[trigger] cell_at(width, k);
                0 <= c.0 < width && 0 <= c.1 < height
            },
        forall|x: int, y: int|
            0 <= x < width && 0 <= y < height ==> {
                &&& 0 <= #[trigger] position_of(width, x, y) < width * height
                &&& cell_at(width, position_of(width, x, y)) == (x, y)
            },
        forall|j: int, k: int|
            0 <= j < width * height && 0 <= k < width * height && #[trigger] cell_at(width, j) == #[trigger] cell_at(width, k) ==> j == k,
        forall|j: int, k: int|
            0 <= j < k < width * height ==> row_major_before(
                #[trigger] cell_at(width, j),
                #[trigger] cell_at(width, k),
            ),
{
    let w = width as int;
    assert forall|k: int| 0 <= k < width * height implies {
        let c = #[trigger] cell_at(w, k);
        0 <= c.0 < width && 0 <= c.1 < height
    } by {
        vstd::arithmetic::div_mod::lemma_mod_bound(k, w);
        vstd::arithmetic::div_mod::lemma_fundamental_div_mod(k, w);
        vstd::arithmetic::div_mod::lemma_div_pos_is_pos(k, w);
        if k / w >= height {
            assert(w * (k / w) >= w * height) by (nonlinear_arith)
                requires k / w >= height, w > 0;
        }
    }
    assert forall|x: int, y: int| 0 <= x < width && 0 <= y < height implies {
        &&& 0 <= #[trigger] position_of(width, x, y) < width * height
        &&& cell_at(width, position_of(width, x, y)) == (x, y)
    } by {
        lemma_cell_in_grid(w, height as int, x, y);
    }
    assert forall|j: int, k: int|
        0 <= j < width * height && 0 <= k < width * height && #[trigger] cell_at(w, j)
            == #[trigger] cell_at(w, k) implies j == k by {
        vstd::arithmetic::div_mod::lemma_fundamental_div_mod(k, w);
        vstd::arithmetic::div_mod::lemma_fundamental_div_mod(j, w);
    }
    assert forall|j: int, k: int| 0 <= j < k < width * height implies row_major_before(
        #[trigger] cell_at(w, j),
        #[trigger] cell_at(w, k),
    ) by {
        vstd::arithmetic::div_mod::lemma_fundamental_div_mod(k, w);
        vstd::arithmetic::div_mod::lemma_fundamental_div_mod(j, w);
        vstd::arithmetic::div_mod::lemma_div_is_ordered(j, k, w);
        vstd::arithmetic::div_mod::lemma_mod_bound(k, w);
        vstd::arithmetic::div_mod::lemma_mod_bound(j, w);
    }
}

} // verus!
