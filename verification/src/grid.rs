//! The mathematical picture of one generation: a torus of cells, stored row
//! by row, and the rule that takes it to the next generation.

use vstd::arithmetic::div_mod::{
    lemma_fundamental_div_mod, lemma_fundamental_div_mod_converse, lemma_mod_bound,
};
use vstd::prelude::*;

verus! {

/// One generation of the automaton. Cell `(row, col)` is entry
/// `row * width + col` of `cells`, `true` where the cell is alive.
pub struct Grid {
    pub width: nat,
    pub height: nat,
    pub cells: Seq<bool>,
}

/// The classic rule, B3/S23: a cell is alive in the next generation exactly
/// when it has three live neighbours, or is alive and has two.
pub open spec fn next_state(alive: bool, live_neighbors: nat) -> bool {
    live_neighbors == 3 || (alive && live_neighbors == 2)
}

/// The coordinate before `i` on a ring of `n` places.
pub open spec fn wrap_prev(i: int, n: int) -> int {
    if i == 0 {
        n - 1
    } else {
        i - 1
    }
}

/// The coordinate after `i` on a ring of `n` places.
pub open spec fn wrap_next(i: int, n: int) -> int {
    if i == n - 1 {
        0
    } else {
        i + 1
    }
}

impl Grid {
    /// Both extents are positive and there is one entry per cell.
    pub open spec fn wf(self) -> bool {
        &&& self.width > 0
        &&& self.height > 0
        &&& self.cells.len() == self.width * self.height
    }

    /// The grid of the given extents in which every cell is dead.
    pub open spec fn dead(width: nat, height: nat) -> Grid {
        Grid { width, height, cells: Seq::new(width * height, |i: int| false) }
    }

    /// Whether `(row, col)` names a cell of the grid.
    pub open spec fn in_bounds(self, row: int, col: int) -> bool {
        0 <= row < self.height && 0 <= col < self.width
    }

    /// The place of cell `(row, col)` in `cells`.
    pub open spec fn index(self, row: int, col: int) -> int {
        row * self.width + col
    }

    /// Whether cell `(row, col)` is alive.
    pub open spec fn alive(self, row: int, col: int) -> bool {
        self.cells[self.index(row, col)]
    }

    /// 1 if cell `(row, col)` is alive, else 0.
    pub open spec fn population(self, row: int, col: int) -> nat {
        if self.alive(row, col) {
            1
        } else {
            0
        }
    }

    /// How many of the eight cells around `(row, col)` are alive. Each axis
    /// wraps on its own, so the last row lies above the first and the last
    /// column lies left of the first. On a grid of fewer than three rows or
    /// columns one cell may stand in several of the eight places and is then
    /// counted once for each.
    pub open spec fn live_neighbors(self, row: int, col: int) -> nat {
        let north = wrap_prev(row, self.height as int);
        let south = wrap_next(row, self.height as int);
        let west = wrap_prev(col, self.width as int);
        let east = wrap_next(col, self.width as int);
        self.population(north, west) + self.population(north, col) + self.population(north, east)
            + self.population(row, west) + self.population(row, east)
            + self.population(south, west) + self.population(south, col)
            + self.population(south, east)
    }

    /// Whether `(r, c)` is one of the eight places around `(row, col)`: in the
    /// row before, the same row or the row after, and in the column before,
    /// the same column or the column after, but not `(row, col)` itself.
    /// Before the first row lies the last, and so for the columns.
    pub open spec fn around(self, row: int, col: int, r: int, c: int) -> bool {
        let h = self.height as int;
        let w = self.width as int;
        &&& r == wrap_prev(row, h) || r == row || r == wrap_next(row, h)
        &&& c == wrap_prev(col, w) || c == col || c == wrap_next(col, w)
        &&& !(r == row && c == col)
    }

    /// The next generation: every cell follows `next_state` on the
    /// neighbours it has in `self`.
    pub open spec fn step(self) -> Grid {
        Grid {
            width: self.width,
            height: self.height,
            cells: Seq::new(
                self.cells.len(),
                |i: int|
                    next_state(
                        self.cells[i],
                        self.live_neighbors(i / (self.width as int), i % (self.width as int)),
                    ),
            ),
        }
    }

    /// The grid with cell `(row, col)` flipped.
    pub open spec fn toggled(self, row: int, col: int) -> Grid {
        Grid {
            width: self.width,
            height: self.height,
            cells: self.cells.update(self.index(row, col), !self.alive(row, col)),
        }
    }

    /// Whether entry `i` of `cells` is the place of one of `points`.
    pub open spec fn listed(self, points: Seq<(u32, u32)>, i: int) -> bool {
        exists|k: int|
            0 <= k < points.len() && #[trigger] self.index(points[k].0 as int, points[k].1 as int)
                == i
    }

    /// Whether every one of `points` names a cell of the grid.
    pub open spec fn all_in_bounds(self, points: Seq<(u32, u32)>) -> bool {
        forall|k: int|
            0 <= k < points.len() ==> #[trigger] self.in_bounds(
                points[k].0 as int,
                points[k].1 as int,
            )
    }

    /// The grid with every cell of `points` alive and the others as they were.
    pub open spec fn with_alive(self, points: Seq<(u32, u32)>) -> Grid {
        Grid {
            width: self.width,
            height: self.height,
            cells: Seq::new(self.cells.len(), |i: int| self.cells[i] || self.listed(points, i)),
        }
    }
}

/// A cell of the grid has a place among its entries.
pub proof fn lemma_index_in_range(grid: Grid, row: int, col: int)
    requires
        grid.wf(),
        grid.in_bounds(row, col),
    ensures
        0 <= grid.index(row, col) < grid.cells.len(),
{
    let w = grid.width as int;
    let h = grid.height as int;
    assert(0 <= row * w + col < w * h) by (nonlinear_arith)
        requires
            0 <= row < h,
            0 <= col < w,
    ;
}

/// A place among the entries belongs to one cell only, the one in row
/// `index / width` and column `index % width`.
pub proof fn lemma_index_unique(grid: Grid, row: int, col: int)
    requires
        grid.in_bounds(row, col),
    ensures
        grid.index(row, col) / (grid.width as int) == row,
        grid.index(row, col) % (grid.width as int) == col,
{
    lemma_fundamental_div_mod_converse(grid.index(row, col), grid.width as int, row, col);
}

/// An entry of a well-formed grid is the place of a cell of the grid.
pub proof fn lemma_index_onto(grid: Grid, i: int)
    requires
        grid.wf(),
        0 <= i < grid.cells.len(),
    ensures
        grid.in_bounds(i / (grid.width as int), i % (grid.width as int)),
        grid.index(i / (grid.width as int), i % (grid.width as int)) == i,
{
    let w = grid.width as int;
    let h = grid.height as int;
    lemma_fundamental_div_mod(i, w);
    lemma_mod_bound(i, w);
    let q = i / w;
    let r = i % w;
    assert(i == w * q + r);
    assert(0 <= q < h) by (nonlinear_arith)
        requires
            i == w * q + r,
            0 <= r < w,
            0 <= i < w * h,
    ;
    assert(w * q == q * w) by (nonlinear_arith);
}

} // verus!
