//! The engine: a torus of cells packed one per bit, and the operations that a
//! host drives it with.
//!
//! No operation acts on a coordinate that names no cell. The operations that
//! change the grid check what they are given and answer
//! [`UniverseError::OutOfRange`], leaving the grid as it was. The two queries
//! on one cell, [`Universe::get_index`] and [`Universe::live_neighbor_count`],
//! are for callers that hold a valid coordinate: it is their precondition.

use crate::bitset::{bits_of, packed_bit};
use crate::grid::{lemma_index_in_range, lemma_index_unique, next_state, Grid};
use fixedbitset::FixedBitSet;
use vstd::prelude::*;

verus! {

/// Why an operation on a [`Universe`] was refused. A refused operation leaves
/// the universe as it was.
#[derive(Clone, Copy, Debug, PartialEq, Eq, Structural)]
pub enum UniverseError {
    /// A width or a height of zero.
    InvalidDimension,
    /// More cells than a `u32` can count.
    TooLarge,
    /// A seed that does not hold one entry per cell.
    SeedLength,
    /// A coordinate that names no cell of the grid.
    OutOfRange,
}

/// A toroidal grid of cells, one bit each, stored row by row.
#[derive(Debug)]
pub struct Universe {
    width: u32,
    height: u32,
    cells: FixedBitSet,
}

impl View for Universe {
    type V = Grid;

    closed spec fn view(&self) -> Grid {
        Grid { width: self.width as nat, height: self.height as nat, cells: bits_of(self.cells) }
    }
}

/// What is wrong with a grid of `width` columns and `height` rows, if
/// anything: both must be positive, and a `u32` must be able to count the
/// cells.
pub open spec fn extent_error(width: nat, height: nat) -> Option<UniverseError> {
    if width == 0 || height == 0 {
        Some(UniverseError::InvalidDimension)
    } else if width * height > u32::MAX {
        Some(UniverseError::TooLarge)
    } else {
        None
    }
}

/// What is wrong with a seed of `seed_len` entries for a grid of `width`
/// columns and `height` rows, if anything: the extents come first, then the
/// seed must hold one entry per cell.
pub open spec fn seed_error(width: nat, height: nat, seed_len: nat) -> Option<UniverseError> {
    if extent_error(width, height) is Some {
        extent_error(width, height)
    } else if seed_len != width * height {
        Some(UniverseError::SeedLength)
    } else {
        None
    }
}

/// Taking one more of `points` lists the place of that point and, besides
/// it, the places that were listed before.
proof fn lemma_listed_push(grid: Grid, points: Seq<(u32, u32)>, k: int)
    requires
        0 <= k < points.len(),
    ensures
        forall|i: int|
            #[trigger] grid.listed(points.take(k + 1), i) <==> (i == grid.index(
                points[k].0 as int,
                points[k].1 as int,
            ) || grid.listed(points.take(k), i)),
{
    let shorter = points.take(k);
    let longer = points.take(k + 1);
    let place = grid.index(points[k].0 as int, points[k].1 as int);
    assert forall|i: int| #[trigger]
        grid.listed(longer, i) <==> (i == place || grid.listed(shorter, i)) by {
        if grid.listed(longer, i) {
            let j = choose|j: int|
                0 <= j < longer.len() && #[trigger] grid.index(
                    longer[j].0 as int,
                    longer[j].1 as int,
                ) == i;
            if j < k {
                assert(grid.index(shorter[j].0 as int, shorter[j].1 as int) == i);
            }
        }
        if i == place {
            assert(grid.index(longer[k].0 as int, longer[k].1 as int) == i);
        }
        if grid.listed(shorter, i) {
            let j = choose|j: int|
                0 <= j < shorter.len() && #[trigger] grid.index(
                    shorter[j].0 as int,
                    shorter[j].1 as int,
                ) == i;
            assert(grid.index(longer[j].0 as int, longer[j].1 as int) == i);
        }
    }
}

impl Universe {
    /// What every universe that this module hands out satisfies: its grid is
    /// well formed and a `u32` can count its cells.
    pub open spec fn wf(&self) -> bool {
        self@.wf() && self@.cells.len() <= u32::MAX
    }

    /// A universe of the given extents whose cells are those of `seed`, row
    /// by row: `seed[row * width + col]` says whether cell `(row, col)` is
    /// alive. Extents that [`extent_error`] faults are refused, and so is a
    /// seed that does not hold one entry per cell.
    pub fn new(width: u32, height: u32, seed: &[bool]) -> (made: Result<Universe, UniverseError>)
        ensures
            match made {
                Ok(universe) => {
                    &&& seed_error(width as nat, height as nat, seed@.len()) is None
                    &&& universe.wf()
                    &&& universe@ == (Grid {
                        width: width as nat,
                        height: height as nat,
                        cells: seed@,
                    })
                },
                Err(error) => seed_error(width as nat, height as nat, seed@.len()) == Some(error),
            },
    {
        if width == 0 || height == 0 {
            return Err(UniverseError::InvalidDimension);
        }
        let size: usize = match width.checked_mul(height) {
            Some(count) => count as usize,
            None => {
                return Err(UniverseError::TooLarge);
            },
        };
        if seed.len() != size {
            return Err(UniverseError::SeedLength);
        }
        let mut cells = FixedBitSet::with_capacity(size);
        for i in 0..size
            invariant
                size == seed@.len(),
                bits_of(cells).len() == size,
                forall|j: int| 0 <= j < i ==> bits_of(cells)[j] == seed@[j],
        {
            cells.set(i, seed[i]);
        }
        assert(bits_of(cells) =~= seed@);
        Ok(Universe { width, height, cells })
    }

    /// The number of rows.
    pub fn height(&self) -> (rows: u32)
        ensures
            rows == self@.height,
    {
        self.height
    }

    /// The number of columns.
    pub fn width(&self) -> (columns: u32)
        ensures
            columns == self@.width,
    {
        self.width
    }

    /// The place of cell `(row, column)` among the cells, which are stored
    /// row by row.
    pub fn get_index(&self, row: u32, column: u32) -> (index: usize)
        requires
            self.wf(),
            self@.in_bounds(row as int, column as int),
        ensures
            index == self@.index(row as int, column as int),
            index < self@.cells.len(),
    {
        proof {
            lemma_index_in_range(self@, row as int, column as int);
        }
        (row * self.width + column) as usize
    }

    /// 1 if cell `(row, col)` is alive, else 0.
    fn population_at(&self, row: u32, col: u32) -> (count: u8)
        requires
            self.wf(),
            self@.in_bounds(row as int, col as int),
        ensures
            count == self@.population(row as int, col as int),
            count <= 1,
    {
        let idx = self.get_index(row, col);
        self.cells.contains(idx) as u8
    }

    /// How many of the eight cells around `(row, col)` are alive, the grid
    /// taken as a torus.
    pub fn live_neighbor_count(&self, row: u32, col: u32) -> (count: u8)
        requires
            self.wf(),
            self@.in_bounds(row as int, col as int),
        ensures
            count == self@.live_neighbors(row as int, col as int),
            count <= 8,
    {
        let mut count: u8 = 0;

        let north = if row == 0 {
            self.height - 1
        } else {
            row - 1
        };

        let south = if row == self.height - 1 {
            0
        } else {
            row + 1
        };

        let west = if col == 0 {
            self.width - 1
        } else {
            col - 1
        };

        let east = if col == self.width - 1 {
            0
        } else {
            col + 1
        };

        count += self.population_at(north, west);
        count += self.population_at(north, col);
        count += self.population_at(north, east);
        count += self.population_at(row, west);
        count += self.population_at(row, east);
        count += self.population_at(south, west);
        count += self.population_at(south, col);
        count += self.population_at(south, east);
        count
    }

    /// Replaces the generation by the next one. Every cell's new state is
    /// computed from the generation before the call.
    pub fn tick(&mut self)
        requires
            old(self).wf(),
        ensures
            final(self).wf(),
            final(self)@ == old(self)@.step(),
    {
        let mut next = self.cells.clone();
        let ghost grid = self@;
        let ghost width = self.width as int;
        // How many cells of `next` hold their new state.
        let ghost mut done: int = 0;

        assert(0 * width == 0) by (nonlinear_arith);
        for row in 0..self.height
            invariant
                self.wf(),
                self@ == grid,
                width == grid.width,
                done == row * width,
                bits_of(next).len() == grid.cells.len(),
                forall|i: int|
                    0 <= i < done ==> bits_of(next)[i] == next_state(
                        grid.cells[i],
                        #[trigger] grid.live_neighbors(i / width, i % width),
                    ),
        {
            for col in 0..self.width
                invariant
                    self.wf(),
                    self@ == grid,
                    width == grid.width,
                    row < grid.height,
                    done == row * width + col,
                    bits_of(next).len() == grid.cells.len(),
                    forall|i: int|
                        0 <= i < done ==> bits_of(next)[i] == next_state(
                            grid.cells[i],
                            #[trigger] grid.live_neighbors(i / width, i % width),
                        ),
            {
                let idx = self.get_index(row, col);
                let cell = self.cells.contains(idx);
                let live_neighbors = self.live_neighbor_count(row, col);

                next.set(
                    idx,
                    match (cell, live_neighbors) {
                        (true, x) if x < 2 => false,
                        (true, 2) | (true, 3) => true,
                        (true, x) if x > 3 => false,
                        (false, 3) => true,
                        (otherwise, _) => otherwise,
                    },
                );
                proof {
                    lemma_index_unique(grid, row as int, col as int);
                    done = done + 1;
                }
            }
            assert((row + 1) * width == row * width + width) by (nonlinear_arith);
        }

        assert(grid.height * width == grid.width * grid.height) by (nonlinear_arith)
            requires
                width == grid.width,
        ;
        assert(bits_of(next) =~= grid.step().cells);
        self.cells = next;
    }

    /// Flips cell `(row, col)` and leaves the others as they were.
    pub fn toggle_cell(&mut self, row: u32, col: u32) -> (done: Result<(), UniverseError>)
        requires
            old(self).wf(),
        ensures
            final(self).wf(),
            done == if old(self)@.in_bounds(row as int, col as int) {
                Ok::<(), UniverseError>(())
            } else {
                Err::<(), UniverseError>(UniverseError::OutOfRange)
            },
            final(self)@ == if old(self)@.in_bounds(row as int, col as int) {
                old(self)@.toggled(row as int, col as int)
            } else {
                old(self)@
            },
    {
        if row >= self.height || col >= self.width {
            return Err(UniverseError::OutOfRange);
        }
        let idx = self.get_index(row, col);
        let alive = self.cells.contains(idx);
        self.cells.set(idx, !alive);
        Ok(())
    }

    /// Makes every cell dead. The extents stay as they are.
    pub fn kill_all(&mut self)
        requires
            old(self).wf(),
        ensures
            final(self).wf(),
            final(self)@ == Grid::dead(old(self)@.width, old(self)@.height),
    {
        let size = self.width * self.height;
        for i in 0..size
            invariant
                self.wf(),
                self@.width == old(self)@.width,
                self@.height == old(self)@.height,
                size == self@.cells.len(),
                forall|j: int| 0 <= j < i ==> !self@.cells[j],
        {
            self.cells.set(i as usize, false);
        }
        assert(self@.cells =~= Grid::dead(self@.width, self@.height).cells);
    }

    /// Gives the grid `width` columns and makes every cell dead. A width of
    /// zero, or one that would give more cells than a `u32` can count, is
    /// refused.
    pub fn set_width(&mut self, width: u32) -> (done: Result<(), UniverseError>)
        requires
            old(self).wf(),
        ensures
            final(self).wf(),
            match done {
                Ok(()) => {
                    &&& extent_error(width as nat, old(self)@.height) is None
                    &&& final(self)@ == Grid::dead(width as nat, old(self)@.height)
                },
                Err(error) => {
                    &&& extent_error(width as nat, old(self)@.height) == Some(error)
                    &&& final(self)@ == old(self)@
                },
            },
    {
        if width == 0 {
            return Err(UniverseError::InvalidDimension);
        }
        match width.checked_mul(self.height) {
            Some(size) => {
                self.width = width;
                self.cells = FixedBitSet::with_capacity(size as usize);
                Ok(())
            },
            None => Err(UniverseError::TooLarge),
        }
    }

    /// Gives the grid `height` rows and makes every cell dead. A height of
    /// zero, or one that would give more cells than a `u32` can count, is
    /// refused.
    pub fn set_height(&mut self, height: u32) -> (done: Result<(), UniverseError>)
        requires
            old(self).wf(),
        ensures
            final(self).wf(),
            match done {
                Ok(()) => {
                    &&& extent_error(old(self)@.width, height as nat) is None
                    &&& final(self)@ == Grid::dead(old(self)@.width, height as nat)
                },
                Err(error) => {
                    &&& extent_error(old(self)@.width, height as nat) == Some(error)
                    &&& final(self)@ == old(self)@
                },
            },
    {
        if height == 0 {
            return Err(UniverseError::InvalidDimension);
        }
        match self.width.checked_mul(height) {
            Some(size) => {
                self.height = height;
                self.cells = FixedBitSet::with_capacity(size as usize);
                Ok(())
            },
            None => Err(UniverseError::TooLarge),
        }
    }

    /// The blocks behind the cells, 32 cells to a block: the cell at place
    /// `i` is bit `i % 32` of block `i / 32`, counted from the least
    /// significant bit.
    pub fn cells(&self) -> (blocks: &[u32])
        ensures
            blocks@.len() == (self@.cells.len() + 31) / 32,
            forall|i: int|
                0 <= i < self@.cells.len() ==> #[trigger] packed_bit(blocks@, i) == self@.cells[i],
    {
        self.cells.as_slice()
    }

    /// The bit set that holds the cells.
    pub fn get_cells(&self) -> (set: &FixedBitSet)
        ensures
            bits_of(*set) == self@.cells,
    {
        &self.cells
    }

    /// Makes every cell of `cells` alive and leaves the others as they were.
    /// Listing a cell twice is the same as listing it once. If one of the
    /// coordinates names no cell, nothing is changed.
    pub fn set_cells(&mut self, cells: &[(u32, u32)]) -> (done: Result<(), UniverseError>)
        requires
            old(self).wf(),
        ensures
            final(self).wf(),
            done == if old(self)@.all_in_bounds(cells@) {
                Ok::<(), UniverseError>(())
            } else {
                Err::<(), UniverseError>(UniverseError::OutOfRange)
            },
            final(self)@ == if old(self)@.all_in_bounds(cells@) {
                old(self)@.with_alive(cells@)
            } else {
                old(self)@
            },
    {
        let ghost before = self@;
        for k in 0..cells.len()
            invariant
                self.wf(),
                self@ == before,
                forall|j: int|
                    0 <= j < k ==> #[trigger] before.in_bounds(
                        cells@[j].0 as int,
                        cells@[j].1 as int,
                    ),
        {
            let (row, col) = cells[k];
            if row >= self.height || col >= self.width {
                assert(!before.in_bounds(cells@[k as int].0 as int, cells@[k as int].1 as int));
                return Err(UniverseError::OutOfRange);
            }
        }
        assert(self@.cells =~= before.with_alive(cells@.take(0)).cells);
        for k in 0..cells.len()
            invariant
                self.wf(),
                before.wf(),
                before.all_in_bounds(cells@),
                self@ == before.with_alive(cells@.take(k as int)),
        {
            let (row, col) = cells[k];
            assert(before.in_bounds(cells@[k as int].0 as int, cells@[k as int].1 as int));
            let idx = self.get_index(row, col);
            self.cells.set(idx, true);
            proof {
                lemma_listed_push(before, cells@, k as int);
                assert(self@.cells =~= before.with_alive(cells@.take(k + 1)).cells);
            }
        }
        assert(cells@.take(cells@.len() as int) =~= cells@);
        Ok(())
    }
}

} // verus!
