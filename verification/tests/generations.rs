use game_of_life::Universe;

fn universe_with(width: u32, height: u32, alive: &[(u32, u32)]) -> Universe {
    let mut seed = vec![false; (width * height) as usize];
    for &(row, col) in alive {
        seed[(row * width + col) as usize] = true;
    }
    Universe::new(width, height, &seed).unwrap()
}

fn live_cells(universe: &Universe) -> Vec<(u32, u32)> {
    let mut found = Vec::new();
    for row in 0..universe.height() {
        for col in 0..universe.width() {
            if universe.get_cells().contains(universe.get_index(row, col)) {
                found.push((row, col));
            }
        }
    }
    found
}

#[test]
fn lone_cell_dies_and_nothing_is_born() {
    for row in 0..3 {
        for col in 0..3 {
            let mut universe = universe_with(3, 3, &[(row, col)]);
            assert_eq!(universe.live_neighbor_count(row, col), 0);
            universe.tick();
            assert_eq!(live_cells(&universe), vec![]);
        }
    }

    let mut wide = universe_with(6, 5, &[(2, 3)]);
    wide.tick();
    assert_eq!(live_cells(&wide), vec![]);

    let mut small = universe_with(2, 2, &[(1, 0)]);
    small.tick();
    assert_eq!(live_cells(&small), vec![]);
}

#[test]
fn block_is_stable() {
    let block = [(1, 1), (1, 2), (2, 1), (2, 2)];
    let mut universe = universe_with(4, 4, &block);
    universe.tick();
    assert_eq!(live_cells(&universe), block.to_vec());
    universe.tick();
    assert_eq!(live_cells(&universe), block.to_vec());

    let mut roomy = universe_with(7, 6, &[(2, 3), (2, 4), (3, 3), (3, 4)]);
    roomy.tick();
    assert_eq!(live_cells(&roomy), vec![(2, 3), (2, 4), (3, 3), (3, 4)]);
}

#[test]
fn block_cells_have_three_neighbours_each() {
    let block = [(1, 1), (1, 2), (2, 1), (2, 2)];
    let universe = universe_with(4, 4, &block);
    for &(row, col) in &block {
        assert_eq!(universe.live_neighbor_count(row, col), 3);
    }
    for row in 0..4 {
        for col in 0..4 {
            if !block.contains(&(row, col)) {
                assert!(universe.live_neighbor_count(row, col) < 3);
            }
        }
    }
}

#[test]
fn block_next_to_the_edges_is_stable() {
    let block = [(3, 2), (3, 3), (4, 2), (4, 3)];
    let mut universe = universe_with(4, 5, &block);
    universe.tick();
    assert_eq!(live_cells(&universe), block.to_vec());
}

#[test]
fn any_missing_corner_is_born() {
    let block = [(2, 1), (2, 2), (3, 1), (3, 2)];
    for missing in 0..4 {
        let mut rest = block.to_vec();
        let (row, col) = rest.remove(missing);
        let mut universe = universe_with(4, 5, &rest);
        assert_eq!(universe.live_neighbor_count(row, col), 3);
        universe.tick();
        assert_eq!(live_cells(&universe), block.to_vec());
    }
}

#[test]
fn corner_of_an_l_is_born() {
    let mut universe = universe_with(5, 5, &[(1, 0), (1, 1), (0, 1)]);
    assert_eq!(universe.live_neighbor_count(0, 0), 3);
    universe.tick();
    assert_eq!(live_cells(&universe), vec![(0, 0), (0, 1), (1, 0), (1, 1)]);
}

#[test]
fn l_on_three_by_three_fills_the_grid() {
    // Every cell of a 3x3 torus touches all the others: the six dead cells
    // see three live ones and are born, the three live cells see two and stay.
    let mut universe = universe_with(3, 3, &[(1, 0), (1, 1), (0, 1)]);
    universe.tick();
    assert!(universe.get_cells().contains(universe.get_index(0, 0)));
    assert_eq!(live_cells(&universe).len(), 9);
    // Now each cell has eight live neighbours and dies.
    universe.tick();
    assert_eq!(live_cells(&universe), vec![]);
}

#[test]
fn blinker_turns_and_turns_back() {
    let mut universe = universe_with(5, 5, &[(2, 1), (2, 2), (2, 3)]);
    universe.tick();
    assert_eq!(live_cells(&universe), vec![(1, 2), (2, 2), (3, 2)]);
    universe.tick();
    assert_eq!(live_cells(&universe), vec![(2, 1), (2, 2), (2, 3)]);
}

#[test]
fn crowded_cell_dies() {
    // The centre of a plus has four live neighbours.
    let mut universe = universe_with(5, 5, &[(1, 2), (2, 1), (2, 2), (2, 3), (3, 2)]);
    assert_eq!(universe.live_neighbor_count(2, 2), 4);
    universe.tick();
    assert_eq!(
        live_cells(&universe),
        vec![(1, 1), (1, 2), (1, 3), (2, 1), (2, 3), (3, 1), (3, 2), (3, 3)]
    );
}

#[test]
fn glider_crosses_the_edges() {
    let mut universe = universe_with(6, 6, &[(0, 1), (1, 2), (2, 0), (2, 1), (2, 2)]);
    universe.tick();
    assert_eq!(live_cells(&universe), vec![(1, 0), (1, 2), (2, 1), (2, 2), (3, 1)]);
    for _ in 0..3 {
        universe.tick();
    }
    // Four generations move a glider one cell down and one to the right.
    assert_eq!(live_cells(&universe), vec![(1, 2), (2, 3), (3, 1), (3, 2), (3, 3)]);
    for _ in 0..20 {
        universe.tick();
    }
    // Twenty more make it six each way, which on six rows and six columns is
    // once around.
    assert_eq!(live_cells(&universe), vec![(0, 1), (1, 2), (2, 0), (2, 1), (2, 2)]);
}

#[test]
fn every_cell_follows_the_old_generation() {
    let start = [(0, 0), (0, 3), (1, 1), (1, 2), (2, 2), (3, 0), (3, 3), (4, 1), (4, 2)];
    let before = universe_with(4, 5, &start);
    let mut after = universe_with(4, 5, &start);
    after.tick();
    for row in 0..5 {
        for col in 0..4 {
            let was = before.get_cells().contains(before.get_index(row, col));
            let count = before.live_neighbor_count(row, col);
            let is = after.get_cells().contains(after.get_index(row, col));
            assert_eq!(is, count == 3 || (was && count == 2));
        }
    }
    assert_eq!(after.width(), 4);
    assert_eq!(after.height(), 5);
}

#[test]
fn same_start_gives_same_generations() {
    let start = [(0, 0), (0, 3), (1, 1), (1, 2), (2, 2), (3, 0), (3, 3), (4, 1), (4, 2)];
    let mut first = universe_with(4, 5, &start);
    let mut second = universe_with(4, 5, &start);
    for _ in 0..10 {
        first.tick();
        second.tick();
        assert_eq!(first.get_cells(), second.get_cells());
        assert_eq!(first.cells(), second.cells());
    }
}

#[test]
fn single_cell_grid_dies_of_itself() {
    let mut universe = universe_with(1, 1, &[(0, 0)]);
    universe.tick();
    assert_eq!(live_cells(&universe), vec![]);
    universe.tick();
    assert_eq!(live_cells(&universe), vec![]);
}

#[test]
fn lone_cell_in_a_single_row_lives_on_and_spreads() {
    // In one row a cell is above and below itself, so it counts itself twice
    // and survives, and each of its two neighbours in the row counts it
    // three times and is born.
    let mut universe = universe_with(5, 1, &[(0, 2)]);
    universe.tick();
    assert_eq!(live_cells(&universe), vec![(0, 1), (0, 2), (0, 3)]);
}
