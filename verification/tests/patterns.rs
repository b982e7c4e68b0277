use game_of_life::grid::Grid;

fn grid_with(width: usize, height: usize, live: &[(i32, i32)]) -> Grid {
    let mut grid = Grid::new(width, height).unwrap();
    for &(x, y) in live {
        grid.set_cell_alive(x, y, true);
    }
    grid
}

fn live_cells(grid: &Grid) -> Vec<(i32, i32)> {
    let mut live = Vec::new();
    for cell in &grid.cells {
        if cell.alive {
            live.push((cell.x, cell.y));
        }
    }
    live
}

fn sorted(mut cells: Vec<(i32, i32)>) -> Vec<(i32, i32)> {
    cells.sort_by_key(|&(x, y)| (y, x));
    cells
}

#[test]
fn lone_centre_of_three_by_three_dies() {
    let grid = grid_with(3, 3, &[(1, 1)]);
    for cell in &grid.cells {
        let expected = if (cell.x, cell.y) == (1, 1) { 0 } else { 1 };
        assert_eq!(grid.get_alive_neighbors(cell), expected);
    }
    let next = grid.next_iter();
    assert_eq!(live_cells(&next), vec![]);
    assert_eq!(next.cells.len(), 9);
}

#[test]
fn block_is_a_still_life() {
    for &(width, height) in &[(4usize, 4usize), (4, 7), (6, 5), (9, 9)] {
        let grid = grid_with(width, height, &[(1, 1), (2, 1), (1, 2), (2, 2)]);
        for cell in &grid.cells {
            if cell.alive {
                assert_eq!(grid.get_alive_neighbors(cell), 3);
            } else {
                assert!(grid.get_alive_neighbors(cell) != 3);
            }
        }
        let next = grid.next_iter();
        assert_eq!(next.cells, grid.cells);
        assert_eq!((next.width, next.height), (width, height));
        let later = next.next_iter().next_iter();
        assert_eq!(later.cells, grid.cells);
    }
}

#[test]
fn block_across_the_corner_is_a_still_life() {
    let grid = grid_with(5, 4, &[(4, 3), (0, 3), (4, 0), (0, 0)]);
    let next = grid.next_iter();
    assert_eq!(next.cells, grid.cells);
    assert_eq!(live_cells(&next), vec![(0, 0), (4, 0), (0, 3), (4, 3)]);
}

#[test]
fn glider_returns_displaced_after_four_generations() {
    let start = [(1, 0), (2, 1), (0, 2), (1, 2), (2, 2)];
    let mut grid = grid_with(8, 8, &start);
    let phases = [
        vec![(0, 1), (2, 1), (1, 2), (2, 2), (1, 3)],
        vec![(2, 1), (0, 2), (2, 2), (1, 3), (2, 3)],
        vec![(1, 1), (2, 2), (3, 2), (1, 3), (2, 3)],
        vec![(2, 1), (3, 2), (1, 3), (2, 3), (3, 3)],
    ];
    for phase in &phases {
        grid = grid.next_iter();
        assert_eq!(live_cells(&grid), sorted(phase.clone()));
    }
    let moved: Vec<(i32, i32)> = start.iter().map(|&(x, y)| (x + 1, y + 1)).collect();
    assert_eq!(live_cells(&grid), sorted(moved));
}

#[test]
fn glider_travels_round_the_torus() {
    let start = [(1, 0), (2, 1), (0, 2), (1, 2), (2, 2)];
    for &(width, height) in &[(5usize, 5usize), (6, 9), (8, 8)] {
        let mut grid = grid_with(width, height, &start);
        let rounds = width.max(height) + 3;
        for round in 1..=rounds {
            for _ in 0..4 {
                grid = grid.next_iter();
            }
            let shift = round as i32;
            let moved: Vec<(i32, i32)> = start.iter().map(|&(x, y)| (x + shift, y + shift)).collect();
            let expected = grid_with(width, height, &moved);
            assert_eq!(grid.cells, expected.cells);
        }
    }
}

#[test]
fn blinker_turns_as_a_whole() {
    let grid = grid_with(5, 5, &[(1, 2), (2, 2), (3, 2)]);
    let next = grid.next_iter();
    // Each cell is decided from the row as it was: the row's ends die and
    // the cells above and below its middle are born.
    assert_eq!(live_cells(&next), vec![(2, 1), (2, 2), (2, 3)]);
    // Updating the one buffer cell by cell lets a cell see its neighbours'
    // new states, and gives another result.
    let mut in_place = grid.clone();
    for i in 0..in_place.cells.len() {
        let cell = in_place.cells[i];
        let n = in_place.get_alive_neighbors(&cell);
        let alive = if cell.alive { n == 2 || n == 3 } else { n == 3 };
        in_place.set_state(i, alive);
    }
    assert!(in_place.cells != next.cells);
    let back = next.next_iter();
    assert_eq!(back.cells, grid.cells);
}

#[test]
fn edit_and_advance_in_either_order_keep_the_lattice() {
    let grid = grid_with(6, 6, &[(1, 2), (2, 2), (3, 2)]);

    let mut edited_first = grid.clone();
    edited_first.set_cell_alive(2, 3, true);
    let edited_first = edited_first.next_iter();
    assert_eq!(edited_first.cells.len(), 36);
    assert_eq!(
        live_cells(&edited_first),
        vec![(2, 1), (1, 2), (2, 2), (3, 2), (1, 3), (2, 3), (3, 3)]
    );

    let mut advanced_first = grid.next_iter();
    advanced_first.set_cell_alive(2, 3, true);
    assert_eq!(advanced_first.cells.len(), 36);
    assert_eq!(live_cells(&advanced_first), vec![(2, 1), (2, 2), (2, 3)]);

    for result in [&edited_first, &advanced_first] {
        assert_eq!((result.width, result.height), (6, 6));
        for (i, cell) in result.cells.iter().enumerate() {
            assert_eq!((cell.x, cell.y), ((i % 6) as i32, (i / 6) as i32));
        }
    }
}
