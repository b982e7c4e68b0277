use game_of_life::cell::Cell;
use game_of_life::game::Adjustment;
use game_of_life::game::Game;
use game_of_life::game::Input;
use game_of_life::game::KeyPresses;
use game_of_life::game::CELL_SIZE;
use game_of_life::game::MAX_GRID_SIDE;
use game_of_life::game::MIN_GRID_SIDE;
use game_of_life::grid::Grid;
use game_of_life::grid::GridError;

const NO_KEYS: KeyPresses =
    KeyPresses { pause: false, clear: false, randomize: false, grid_lines: false };

const IDLE: Input = Input {
    keys: NO_KEYS,
    wheel_moved: false,
    wheel: 0,
    wheel_tenfold: 0,
    control: false,
    shift: false,
    alt: false,
};

fn live_cells(grid: &Grid) -> Vec<(i32, i32)> {
    let mut live = Vec::new();
    for cell in &grid.cells {
        if cell.alive {
            live.push((cell.x, cell.y));
        }
    }
    live
}

fn settings(game: &Game) -> (bool, i32, i32, bool, i32, i32) {
    (
        game.paused,
        game.iterations_second,
        game.brush_size,
        game.draw_grid,
        game.width,
        game.height,
    )
}

#[test]
fn constants_have_their_values() {
    assert_eq!(CELL_SIZE, 10);
    assert_eq!(MIN_GRID_SIDE, 10);
    assert_eq!(MAX_GRID_SIDE, 100000);
}

#[test]
fn init_starts_paused_on_a_dead_grid() {
    let game = Game::init(800, 600);
    assert_eq!(settings(&game), (true, 10, 1, true, 800, 600));
    assert_eq!((game.grid.width, game.grid.height), (100, 100));
    assert_eq!(game.grid.cells.len(), 10000);
    assert!(game.grid.cells.iter().all(|cell| !cell.alive));
    assert_eq!(game.grid.cells[205], Cell { alive: false, x: 5, y: 2 });
}

#[test]
fn pause_key_toggles_pause() {
    let mut game = Game::init(800, 800);
    game.handle_keys(&KeyPresses { pause: true, ..NO_KEYS });
    assert_eq!(settings(&game), (false, 10, 1, true, 800, 800));
    game.handle_keys(&KeyPresses { pause: true, ..NO_KEYS });
    assert_eq!(settings(&game), (true, 10, 1, true, 800, 800));
}

#[test]
fn clear_key_kills_every_cell() {
    let mut game = Game::init(800, 800);
    game.grid.set_cell_alive(3, 4, true);
    game.grid.set_cell_alive(50, 60, true);
    game.handle_keys(&KeyPresses { clear: true, ..NO_KEYS });
    assert_eq!(live_cells(&game.grid), vec![]);
    assert_eq!(settings(&game), (true, 10, 1, true, 800, 800));
    assert_eq!(game.grid.cells.len(), 10000);
}

#[test]
fn randomize_key_keeps_the_lattice() {
    let mut game = Game::init(800, 800);
    game.handle_keys(&KeyPresses { randomize: true, ..NO_KEYS });
    assert_eq!(settings(&game), (true, 10, 1, true, 800, 800));
    assert_eq!((game.grid.width, game.grid.height), (100, 100));
    assert_eq!(game.grid.cells.len(), 10000);
    assert!(game.grid.cells.iter().any(|cell| cell.alive));
    assert!(game.grid.cells.iter().any(|cell| !cell.alive));
}

#[test]
fn grid_lines_key_toggles_the_gaps() {
    let mut game = Game::init(800, 800);
    game.handle_keys(&KeyPresses { grid_lines: true, ..NO_KEYS });
    assert_eq!(settings(&game), (true, 10, 1, false, 800, 800));
    game.handle_keys(&KeyPresses { grid_lines: true, ..NO_KEYS });
    assert_eq!(settings(&game), (true, 10, 1, true, 800, 800));
}

#[test]
fn no_key_changes_nothing() {
    let mut game = Game::init(800, 800);
    game.grid.set_cell_alive(1, 1, true);
    game.handle_keys(&NO_KEYS);
    assert_eq!(settings(&game), (true, 10, 1, true, 800, 800));
    assert_eq!(live_cells(&game.grid), vec![(1, 1)]);
}

#[test]
fn only_the_first_command_is_carried_out() {
    let all = KeyPresses { pause: true, clear: true, randomize: true, grid_lines: true };
    let mut game = Game::init(800, 800);
    game.grid.set_cell_alive(1, 1, true);
    game.handle_keys(&all);
    assert_eq!(settings(&game), (false, 10, 1, true, 800, 800));
    assert_eq!(live_cells(&game.grid), vec![(1, 1)]);

    game.handle_keys(&KeyPresses { pause: false, ..all });
    assert_eq!(settings(&game), (false, 10, 1, true, 800, 800));
    assert_eq!(live_cells(&game.grid), vec![]);

    game.grid.set_cell_alive(1, 1, true);
    game.handle_keys(&KeyPresses { clear: true, grid_lines: true, ..NO_KEYS });
    assert_eq!(settings(&game), (false, 10, 1, true, 800, 800));
    assert_eq!(live_cells(&game.grid), vec![]);

    game.handle_keys(&KeyPresses { randomize: true, grid_lines: true, ..NO_KEYS });
    assert_eq!(settings(&game), (false, 10, 1, true, 800, 800));
}

#[test]
fn still_wheel_adjusts_nothing() {
    let mut game = Game::init(800, 800);
    let input = Input { wheel: 3, wheel_tenfold: 30, shift: true, alt: true, ..IDLE };
    assert_eq!(game.handle_input(&input), Adjustment::Nothing);
    assert_eq!(settings(&game), (true, 10, 1, true, 800, 800));
    assert_eq!(game.grid.cells.len(), 10000);
}

#[test]
fn wheel_alone_changes_the_rate() {
    let mut game = Game::init(800, 800);
    let up = Input { wheel_moved: true, wheel: 2, wheel_tenfold: 20, ..IDLE };
    assert_eq!(game.handle_input(&up), Adjustment::Rate);
    assert_eq!(settings(&game), (true, 12, 1, true, 800, 800));
    let down = Input { wheel_moved: true, wheel: -5, wheel_tenfold: 0, ..IDLE };
    assert_eq!(game.handle_input(&down), Adjustment::Rate);
    assert_eq!(game.iterations_second, 7);
    let far_down = Input { wheel_moved: true, wheel: -50, wheel_tenfold: 0, ..IDLE };
    assert_eq!(game.handle_input(&far_down), Adjustment::Rate);
    assert_eq!(game.iterations_second, 1);
    let slightly = Input { wheel_moved: true, wheel: 0, wheel_tenfold: 5, ..IDLE };
    assert_eq!(game.handle_input(&slightly), Adjustment::Rate);
    assert_eq!(game.iterations_second, 1);
}

#[test]
fn rate_and_brush_stay_within_range() {
    let mut game = Game::init(800, 800);
    let most = Input { wheel_moved: true, wheel: i32::MAX, ..IDLE };
    assert_eq!(game.handle_input(&most), Adjustment::Rate);
    assert_eq!(game.iterations_second, i32::MAX);
    let least = Input { wheel_moved: true, wheel: i32::MIN, ..IDLE };
    assert_eq!(game.handle_input(&least), Adjustment::Rate);
    assert_eq!(game.iterations_second, 1);
    assert_eq!(game.handle_input(&least), Adjustment::Rate);
    assert_eq!(game.iterations_second, 1);

    let most = Input { shift: true, ..most };
    assert_eq!(game.handle_input(&most), Adjustment::Brush);
    assert_eq!(game.brush_size, i32::MAX);
    let back = Input { wheel_moved: true, wheel: -7, shift: true, ..IDLE };
    assert_eq!(game.handle_input(&back), Adjustment::Brush);
    assert_eq!(game.brush_size, i32::MAX - 7);
}

#[test]
fn wheel_with_shift_changes_the_brush() {
    let mut game = Game::init(800, 800);
    let up = Input { wheel_moved: true, wheel: 3, wheel_tenfold: 30, shift: true, ..IDLE };
    assert_eq!(game.handle_input(&up), Adjustment::Brush);
    assert_eq!(settings(&game), (true, 10, 4, true, 800, 800));
    let down = Input { wheel_moved: true, wheel: -9, shift: true, alt: true, ..IDLE };
    assert_eq!(game.handle_input(&down), Adjustment::Brush);
    assert_eq!(settings(&game), (true, 10, 1, true, 800, 800));
    assert_eq!(game.grid.width, 100);
}

#[test]
fn wheel_with_control_leaves_the_zoom_to_the_caller() {
    let mut game = Game::init(800, 800);
    game.grid.set_cell_alive(2, 2, true);
    let input = Input {
        wheel_moved: true,
        wheel: 4,
        wheel_tenfold: 40,
        control: true,
        shift: true,
        alt: true,
        ..IDLE
    };
    assert_eq!(game.handle_input(&input), Adjustment::Zoom);
    assert_eq!(settings(&game), (true, 10, 1, true, 800, 800));
    assert_eq!(live_cells(&game.grid), vec![(2, 2)]);
}

#[test]
fn wheel_with_alt_resizes_to_a_dead_square() {
    let mut game = Game::init(800, 800);
    game.grid.set_cell_alive(2, 2, true);
    let grow = Input { wheel_moved: true, wheel: 2, wheel_tenfold: 20, alt: true, ..IDLE };
    assert_eq!(game.handle_input(&grow), Adjustment::Resize);
    assert_eq!((game.grid.width, game.grid.height), (120, 120));
    assert_eq!(game.grid.cells.len(), 14400);
    assert_eq!(live_cells(&game.grid), vec![]);
    assert_eq!(game.grid.cells[121], Cell { alive: false, x: 1, y: 1 });
    assert_eq!(settings(&game), (true, 10, 1, true, 800, 800));

    game.grid.set_cell_alive(2, 2, true);
    let stay = Input { wheel_moved: true, wheel: -1, wheel_tenfold: 0, alt: true, ..IDLE };
    assert_eq!(game.handle_input(&stay), Adjustment::Resize);
    assert_eq!((game.grid.width, game.grid.height), (120, 120));
    assert_eq!(live_cells(&game.grid), vec![]);
}

#[test]
fn wheel_with_alt_keeps_the_side_from_falling_short() {
    let mut game = Game::init(800, 800);
    assert_eq!(game.resize(4, 6), Ok(()));
    let input = Input { wheel_moved: true, wheel: 0, wheel_tenfold: 3, alt: true, ..IDLE };
    assert_eq!(game.handle_input(&input), Adjustment::Resize);
    assert_eq!((game.grid.width, game.grid.height), (10, 10));
    let input = Input { wheel_moved: true, wheel: 0, wheel_tenfold: 1, alt: true, ..IDLE };
    assert_eq!(game.handle_input(&input), Adjustment::Resize);
    assert_eq!((game.grid.width, game.grid.height), (11, 11));
}

#[test]
fn wheel_handler_leaves_the_commands_alone() {
    let mut game = Game::init(800, 800);
    game.grid.set_cell_alive(2, 2, true);
    let input = Input {
        keys: KeyPresses { pause: true, clear: true, randomize: true, grid_lines: true },
        wheel_moved: true,
        wheel: 6,
        wheel_tenfold: 60,
        ..IDLE
    };
    assert_eq!(game.handle_wheel(&input), Adjustment::Rate);
    assert_eq!(settings(&game), (true, 16, 1, true, 800, 800));
    assert_eq!(live_cells(&game.grid), vec![(2, 2)]);
    let input = Input { shift: true, wheel: -2, ..input };
    assert_eq!(game.handle_wheel(&input), Adjustment::Brush);
    assert_eq!(settings(&game), (true, 16, 1, true, 800, 800));
    let input = Input { wheel_moved: false, ..input };
    assert_eq!(game.handle_wheel(&input), Adjustment::Nothing);
    assert_eq!(settings(&game), (true, 16, 1, true, 800, 800));
    assert_eq!(live_cells(&game.grid), vec![(2, 2)]);
}

#[test]
fn commands_come_before_the_wheel() {
    let mut game = Game::init(800, 800);
    game.grid.set_cell_alive(2, 2, true);
    let input = Input {
        keys: KeyPresses { pause: true, ..NO_KEYS },
        wheel_moved: true,
        wheel: 5,
        wheel_tenfold: 50,
        ..IDLE
    };
    assert_eq!(game.handle_input(&input), Adjustment::Rate);
    assert_eq!(settings(&game), (false, 15, 1, true, 800, 800));
    assert_eq!(live_cells(&game.grid), vec![(2, 2)]);

    let input = Input {
        keys: KeyPresses { clear: true, ..NO_KEYS },
        wheel_moved: true,
        wheel: 1,
        wheel_tenfold: 10,
        shift: true,
        ..IDLE
    };
    assert_eq!(game.handle_input(&input), Adjustment::Brush);
    assert_eq!(settings(&game), (false, 15, 2, true, 800, 800));
    assert_eq!(live_cells(&game.grid), vec![]);
}

#[test]
fn smallest_brush_covers_the_cell_alone() {
    let mut game = Game::init(800, 800);
    let cell = Cell::new(2, 3, false);
    // The cell occupies 20..=29 across and 30..=39 down.
    for &(x, y, inside) in &[
        (20, 30, true),
        (29, 39, true),
        (25, 34, true),
        (19, 30, false),
        (20, 29, false),
        (30, 39, false),
        (29, 40, false),
        (-20, -30, false),
    ] {
        assert_eq!(game.paint(&cell, x, y, false, false), inside);
    }
    assert_eq!(live_cells(&game.grid), vec![]);
}

#[test]
fn wider_brush_reaches_beyond_the_cell() {
    let mut game = Game::init(800, 800);
    game.brush_size = 3;
    let cell = Cell::new(2, 3, false);
    // Two units further on every side: 18..=31 across and 28..=41 down.
    for &(x, y, inside) in &[
        (18, 28, true),
        (31, 41, true),
        (17, 28, false),
        (18, 27, false),
        (32, 41, false),
        (31, 42, false),
    ] {
        assert_eq!(game.paint(&cell, x, y, false, false), inside);
    }
    let origin = Cell::new(0, 0, false);
    assert!(game.paint(&origin, -2, -2, false, false));
    assert!(!game.paint(&origin, -3, 0, false, false));
}

#[test]
fn brush_paints_with_the_buttons() {
    let mut game = Game::init(800, 800);
    let cell = Cell::new(2, 3, false);
    assert!(game.paint(&cell, 25, 35, true, false));
    assert_eq!(live_cells(&game.grid), vec![(2, 3)]);
    assert!(game.paint(&cell, 25, 35, false, false));
    assert_eq!(live_cells(&game.grid), vec![(2, 3)]);
    assert!(game.paint(&cell, 25, 35, false, true));
    assert_eq!(live_cells(&game.grid), vec![]);
    assert!(game.paint(&cell, 25, 35, true, true));
    assert_eq!(live_cells(&game.grid), vec![(2, 3)]);
    assert_eq!(settings(&game), (true, 10, 1, true, 800, 800));
}

#[test]
fn brush_leaves_cells_it_does_not_reach() {
    let mut game = Game::init(800, 800);
    game.grid.set_cell_alive(7, 7, true);
    let cell = Cell::new(2, 3, false);
    assert!(!game.paint(&cell, 55, 35, true, false));
    assert!(!game.paint(&Cell::new(7, 7, true), 55, 35, false, true));
    assert_eq!(live_cells(&game.grid), vec![(7, 7)]);
}

#[test]
fn brush_handles_the_largest_values() {
    let mut game = Game::init(800, 800);
    game.brush_size = i32::MAX;
    let far = Cell::new(i32::MAX, i32::MIN, false);
    assert!(!game.paint(&far, 0, 0, true, false));
    assert!(game.paint(&Cell::new(99, 99, false), i32::MAX, i32::MAX, true, false));
    assert_eq!(live_cells(&game.grid), vec![(99, 99)]);
}

#[test]
fn tick_advances_unless_paused() {
    let mut game = Game::init(800, 800);
    for &(x, y) in &[(1, 2), (2, 2), (3, 2)] {
        game.grid.set_cell_alive(x, y, true);
    }
    game.tick();
    assert_eq!(live_cells(&game.grid), vec![(1, 2), (2, 2), (3, 2)]);
    game.set_paused(false);
    game.tick();
    assert_eq!(live_cells(&game.grid), vec![(2, 1), (2, 2), (2, 3)]);
    assert_eq!(game.grid.cells.len(), 10000);
    game.tick();
    assert_eq!(live_cells(&game.grid), vec![(1, 2), (2, 2), (3, 2)]);
    assert_eq!(settings(&game), (false, 10, 1, true, 800, 800));
}

#[test]
fn snapshot_is_an_independent_copy() {
    let mut game = Game::init(800, 800);
    game.grid.set_cell_alive(4, 4, true);
    let copy = game.snapshot();
    assert_eq!(copy.cells, game.grid.cells);
    assert_eq!((copy.width, copy.height), (100, 100));
    game.handle_keys(&KeyPresses { clear: true, ..NO_KEYS });
    assert_eq!(live_cells(&copy), vec![(4, 4)]);
    assert_eq!(live_cells(&game.grid), vec![]);
}

#[test]
fn resize_replaces_the_grid_by_a_dead_one() {
    let mut game = Game::init(800, 800);
    game.grid.set_cell_alive(1, 1, true);
    game.set_paused(false);
    assert_eq!(game.resize(7, 3), Ok(()));
    assert_eq!((game.grid.width, game.grid.height), (7, 3));
    assert_eq!(game.grid.cells.len(), 21);
    assert_eq!(live_cells(&game.grid), vec![]);
    assert_eq!(game.grid.cells[9], Cell { alive: false, x: 2, y: 1 });
    assert_eq!(settings(&game), (false, 10, 1, true, 800, 800));
    game.tick();
    assert_eq!(game.grid.cells.len(), 21);
}

#[test]
fn resize_rejects_what_new_rejects() {
    let mut game = Game::init(800, 800);
    game.grid.set_cell_alive(1, 1, true);
    assert_eq!(game.resize(0, 3), Err(GridError::InvalidDimensions));
    assert_eq!(game.resize(3, 0), Err(GridError::InvalidDimensions));
    assert_eq!(game.resize(usize::MAX, 3), Err(GridError::TooLarge));
    assert_eq!((game.grid.width, game.grid.height), (100, 100));
    assert_eq!(live_cells(&game.grid), vec![(1, 1)]);
    assert_eq!(settings(&game), (true, 10, 1, true, 800, 800));
}

#[test]
fn set_paused_sets_the_flag() {
    let mut game = Game::init(640, 480);
    game.set_paused(false);
    assert_eq!(settings(&game), (false, 10, 1, true, 640, 480));
    game.set_paused(false);
    assert!(!game.paused);
    game.set_paused(true);
    assert_eq!(settings(&game), (true, 10, 1, true, 640, 480));
}

#[test]
fn rate_below_one_becomes_one() {
    let mut game = Game::init(640, 480);
    game.set_iterations_per_second(25);
    assert_eq!(settings(&game), (true, 25, 1, true, 640, 480));
    game.set_iterations_per_second(0);
    assert_eq!(game.iterations_second, 1);
    game.set_iterations_per_second(-3);
    assert_eq!(game.iterations_second, 1);
    game.set_iterations_per_second(i32::MIN);
    assert_eq!(game.iterations_second, 1);
    game.set_iterations_per_second(i32::MAX);
    assert_eq!(game.iterations_second, i32::MAX);
    game.set_iterations_per_second(1);
    assert_eq!(game.iterations_second, 1);
}
