//! What holds of every grid, proved once from the definitions in
//! [`crate::grid`]. The contracts of [`crate::universe::Universe`] are stated
//! over the same functions, so each law here is a law of the engine.

use crate::grid::{
    lemma_index_in_range, lemma_index_onto, lemma_index_unique, next_state, Grid,
};
use crate::universe::Universe;
use vstd::prelude::*;

verus! {

/// A cell never has more than eight live neighbours, whatever the grid and
/// the coordinates.
pub proof fn lemma_live_neighbors_bound(grid: Grid, row: int, col: int)
    ensures
        grid.live_neighbors(row, col) <= 8,
{
}

/// The rule, case by case: a live cell with fewer than two live neighbours
/// dies, one with two or three lives on, one with more than three dies; a
/// dead cell with exactly three comes alive and any other dead cell stays
/// dead.
pub proof fn lemma_next_state_cases(alive: bool, live_neighbors: nat)
    ensures
        alive && live_neighbors < 2 ==> !next_state(alive, live_neighbors),
        alive && (live_neighbors == 2 || live_neighbors == 3) ==> next_state(alive, live_neighbors),
        alive && live_neighbors > 3 ==> !next_state(alive, live_neighbors),
        !alive && live_neighbors == 3 ==> next_state(alive, live_neighbors),
        !alive && live_neighbors != 3 ==> !next_state(alive, live_neighbors),
{
}

/// In the next generation a cell is what the rule makes of its own state and
/// of its live neighbours in this generation. The extents stay as they are.
pub proof fn lemma_step_cell(grid: Grid, row: int, col: int)
    requires
        grid.wf(),
        grid.in_bounds(row, col),
    ensures
        grid.step().wf(),
        grid.step().width == grid.width,
        grid.step().height == grid.height,
        grid.step().alive(row, col) == next_state(
            grid.alive(row, col),
            grid.live_neighbors(row, col),
        ),
{
    lemma_index_in_range(grid, row, col);
    lemma_index_unique(grid, row, col);
}

/// The rule settles the next generation: a grid of the same extents in which
/// every cell is what the rule makes of it is the next generation.
pub proof fn lemma_step_unique(grid: Grid, other: Grid)
    requires
        grid.wf(),
        other.wf(),
        other.width == grid.width,
        other.height == grid.height,
        forall|row: int, col: int|
            grid.in_bounds(row, col) ==> #[trigger] other.alive(row, col) == next_state(
                grid.alive(row, col),
                grid.live_neighbors(row, col),
            ),
    ensures
        other == grid.step(),
{
    assert forall|i: int| 0 <= i < grid.cells.len() implies other.cells[i]
        == grid.step().cells[i] by {
        let w = grid.width as int;
        lemma_index_onto(grid, i);
        assert(other.alive(i / w, i % w) == other.cells[i]);
    }
    assert(other.cells =~= grid.step().cells);
}

/// The next generation depends on the cells alone: two universes that hold
/// the same grid hold the same grid again after each has been advanced once.
pub proof fn lemma_tick_deterministic(
    first: Universe,
    second: Universe,
    first_next: Universe,
    second_next: Universe,
)
    requires
        first@ == second@,
        first_next@ == first@.step(),
        second_next@ == second@.step(),
    ensures
        first_next@ == second_next@,
{
}

/// Every cell of a dead grid is dead.
pub proof fn lemma_dead_cell(width: nat, height: nat, row: int, col: int)
    requires
        Grid::dead(width, height).in_bounds(row, col),
    ensures
        Grid::dead(width, height).wf(),
        !Grid::dead(width, height).alive(row, col),
{
    lemma_index_in_range(Grid::dead(width, height), row, col);
}

/// Toggling flips the cell that is named and no other.
pub proof fn lemma_toggled_cell(grid: Grid, row: int, col: int, r: int, c: int)
    requires
        grid.wf(),
        grid.in_bounds(row, col),
        grid.in_bounds(r, c),
    ensures
        grid.toggled(row, col).wf(),
        grid.toggled(row, col).alive(r, c) == if r == row && c == col {
            !grid.alive(r, c)
        } else {
            grid.alive(r, c)
        },
{
    lemma_index_in_range(grid, row, col);
    lemma_index_in_range(grid, r, c);
    lemma_index_unique(grid, row, col);
    lemma_index_unique(grid, r, c);
}

/// After `with_alive` a cell is alive exactly when it was alive before or is
/// one of the points.
pub proof fn lemma_with_alive_cell(grid: Grid, points: Seq<(u32, u32)>, r: u32, c: u32)
    requires
        grid.wf(),
        grid.all_in_bounds(points),
        grid.in_bounds(r as int, c as int),
    ensures
        grid.with_alive(points).wf(),
        grid.with_alive(points).alive(r as int, c as int) == (grid.alive(r as int, c as int)
            || points.contains((r, c))),
{
    let place = grid.index(r as int, c as int);
    lemma_index_in_range(grid, r as int, c as int);
    lemma_index_unique(grid, r as int, c as int);
    if grid.listed(points, place) {
        let k = choose|k: int|
            0 <= k < points.len() && #[trigger] grid.index(points[k].0 as int, points[k].1 as int)
                == place;
        assert(grid.in_bounds(points[k].0 as int, points[k].1 as int));
        lemma_index_unique(grid, points[k].0 as int, points[k].1 as int);
        assert(points[k] == (r, c));
    }
    if points.contains((r, c)) {
        let k = choose|k: int| 0 <= k < points.len() && points[k] == (r, c);
        assert(grid.index(points[k].0 as int, points[k].1 as int) == place);
    }
}

/// Setting the same cells alive a second time changes nothing, and the list
/// is in bounds the second time exactly when it was the first time: a second
/// `set_cells` with the same list is answered as the first was and leaves the
/// grid as the first left it.
pub proof fn lemma_with_alive_idempotent(grid: Grid, points: Seq<(u32, u32)>)
    ensures
        grid.with_alive(points).all_in_bounds(points) == grid.all_in_bounds(points),
        grid.with_alive(points).with_alive(points) == grid.with_alive(points),
{
    let once = grid.with_alive(points);
    let twice = once.with_alive(points);
    assert forall|i: int| once.listed(points, i) == grid.listed(points, i) by {
        if grid.listed(points, i) {
            let k = choose|k: int|
                0 <= k < points.len() && #[trigger] grid.index(
                    points[k].0 as int,
                    points[k].1 as int,
                ) == i;
            assert(once.index(points[k].0 as int, points[k].1 as int) == i);
        }
        if once.listed(points, i) {
            let k = choose|k: int|
                0 <= k < points.len() && #[trigger] once.index(
                    points[k].0 as int,
                    points[k].1 as int,
                ) == i;
            assert(grid.index(points[k].0 as int, points[k].1 as int) == i);
        }
    }
    assert(twice.cells =~= once.cells);
    if grid.all_in_bounds(points) {
        assert forall|k: int| 0 <= k < points.len() implies #[trigger] once.in_bounds(
            points[k].0 as int,
            points[k].1 as int,
        ) by {
            assert(grid.in_bounds(points[k].0 as int, points[k].1 as int));
        }
    }
    if once.all_in_bounds(points) {
        assert forall|k: int| 0 <= k < points.len() implies #[trigger] grid.in_bounds(
            points[k].0 as int,
            points[k].1 as int,
        ) by {
            assert(once.in_bounds(points[k].0 as int, points[k].1 as int));
        }
    }
}

} // verus!
