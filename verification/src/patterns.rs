//! What the rule does to three small patterns, proved for every grid that is
//! large enough to hold them and for every place they can stand in.

use crate::grid::{lemma_index_in_range, next_state, Grid};
use crate::laws::{lemma_step_cell, lemma_step_unique};
use vstd::prelude::*;

verus! {

/// Where one cell alone is alive, on a grid of at least three rows and three
/// columns, the cells around it count one live neighbour and every other cell
/// counts none. The edges make no difference: the cell in the last row and
/// last column counts the cell in the first row and first column.
pub proof fn lemma_lone_cell_is_counted_once(grid: Grid, row: int, col: int, r: int, c: int)
    requires
        grid.wf(),
        grid.width >= 3,
        grid.height >= 3,
        grid.in_bounds(row, col),
        grid.in_bounds(r, c),
        forall|a: int, b: int|
            grid.in_bounds(a, b) ==> #[trigger] grid.alive(a, b) == (a == row && b == col),
    ensures
        grid.live_neighbors(r, c) == if grid.around(r, c, row, col) {
            1nat
        } else {
            0nat
        },
        row == 0 && col == 0 ==> grid.around(grid.height - 1, grid.width - 1, row, col),
{
}

/// A cell that is alone on a grid of at least two rows and two columns dies,
/// and no cell is born: the next generation is dead. (In a single row or
/// column the cell is its own neighbour twice over and lives on.)
pub proof fn lemma_lone_cell_dies(grid: Grid, row: int, col: int)
    requires
        grid.wf(),
        grid.width >= 2,
        grid.height >= 2,
        grid.in_bounds(row, col),
        forall|r: int, c: int|
            grid.in_bounds(r, c) ==> #[trigger] grid.alive(r, c) == (r == row && c == col),
    ensures
        grid.step() == Grid::dead(grid.width, grid.height),
{
    let dead = Grid::dead(grid.width, grid.height);
    assert forall|r: int, c: int| grid.in_bounds(r, c) implies #[trigger] dead.alive(r, c)
        == next_state(grid.alive(r, c), grid.live_neighbors(r, c)) by {
        lemma_index_in_range(dead, r, c);
        assert(grid.live_neighbors(r, c) != 3);
        assert(grid.alive(r, c) ==> grid.live_neighbors(r, c) == 0);
    }
    lemma_step_unique(grid, dead);
}

/// Whether `(r, c)` is one of the four cells of the block whose upper left
/// cell is `(row, col)`.
pub open spec fn in_block(row: int, col: int, r: int, c: int) -> bool {
    row <= r <= row + 1 && col <= c <= col + 1
}

/// A block of two by two live cells that does not cross an edge, alone on a
/// grid of at least four rows and four columns, stays as it is: each of its
/// cells has three live neighbours, and no dead cell has three.
pub proof fn lemma_block_is_stable(grid: Grid, row: int, col: int)
    requires
        grid.wf(),
        grid.width >= 4,
        grid.height >= 4,
        grid.in_bounds(row, col),
        grid.in_bounds(row + 1, col + 1),
        forall|r: int, c: int|
            grid.in_bounds(r, c) ==> #[trigger] grid.alive(r, c) == in_block(row, col, r, c),
    ensures
        forall|r: int, c: int|
            in_block(row, col, r, c) ==> #[trigger] grid.live_neighbors(r, c) == 3,
        forall|r: int, c: int|
            grid.in_bounds(r, c) && !in_block(row, col, r, c) ==> #[trigger] grid.live_neighbors(
                r,
                c,
            ) < 3,
        grid.step() == grid,
{
    lemma_step_unique(grid, grid);
}

/// Where three cells of a two by two block are alive and nothing else is, on
/// a grid of at least three rows and three columns, the fourth cell of the
/// block has exactly three live neighbours and is born.
pub proof fn lemma_missing_corner_is_born(grid: Grid, row: int, col: int, r: int, c: int)
    requires
        grid.wf(),
        grid.width >= 3,
        grid.height >= 3,
        grid.in_bounds(row, col),
        grid.in_bounds(row + 1, col + 1),
        in_block(row, col, r, c),
        forall|a: int, b: int|
            grid.in_bounds(a, b) ==> #[trigger] grid.alive(a, b) == (in_block(row, col, a, b) && !(a
                == r && b == c)),
    ensures
        !grid.alive(r, c),
        grid.live_neighbors(r, c) == 3,
        grid.step().alive(r, c),
{
    lemma_step_cell(grid, r, c);
}

} // verus!
