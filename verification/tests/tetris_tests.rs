use rand::rngs::SmallRng;
use rand::SeedableRng;
use tetris_core::grid::Grid;
use tetris_core::piece::PieceSelector;
use tetris_core::tetris::{KeyState, Tetris, TetrisState};

#[test]
fn new_tetris_instance() {
    let _tetris = Tetris::new();
}

#[test]
fn doing_nothing_for_a_million_updates_creates_a_finished_game() {
    let mut tetris = Tetris::new();

    for _ in 0..100_000 {
        tetris.update();
    }

    assert!(tetris.is_finished());
}

fn state_with(piece_at: (usize, usize), grid: Grid, keys: KeyState) -> TetrisState {
    TetrisState {
        piece: PieceSelector::O.to_piece(piece_at),
        next_piece: PieceSelector::O.to_piece((5, 19)),
        grid,
        key_state: keys,
        score: 0,
        rng: SmallRng::seed_from_u64(1),
    }
}

fn no_keys() -> KeyState {
    KeyState { left: false, right: false, rotate: false }
}

// A lock that completes no row adds no score.
#[test]
fn locking_without_complete_rows_scores_zero() {
    let state = state_with((5, 0), Grid::new((10, 20)), no_keys());
    let mut game = Tetris::Running(state);
    game.update();
    match game {
        Tetris::Running(s) => {
            assert_eq!(s.score, 0);
            // the square locked into the field
            assert!(s.grid.cell(5, 0));
            assert!(s.grid.cell(6, 0));
            assert!(s.grid.cell(5, 1));
            assert!(s.grid.cell(6, 1));
        }
        Tetris::Finished => panic!("game should still be running"),
    }
}

// Clearing one row in a tick adds exactly 1*1*10*1000.
#[test]
fn clearing_one_row_scores_ten_thousand() {
    let mut grid = Grid::new((10, 20));
    for x in 0..10 {
        if x != 5 && x != 6 {
            grid.set_cell(x, 0, true);
        }
    }
    let state = state_with((5, 0), grid, no_keys());
    let mut game = Tetris::Running(state);
    game.update();
    match game {
        Tetris::Running(s) => {
            assert_eq!(s.score, 10_000);
            // the completed bottom row was zeroed in place
            for x in 0..10 {
                assert!(!s.grid.cell(x, 0));
            }
            // the square's upper half stays: row 1 was not complete
            assert!(s.grid.cell(5, 1));
            assert!(s.grid.cell(6, 1));
        }
        Tetris::Finished => panic!("game should still be running"),
    }
}

// Clearing two rows simultaneously adds 2*2*10*1000, four times the
// single-row amount.
#[test]
fn clearing_two_rows_scores_forty_thousand() {
    let mut grid = Grid::new((10, 20));
    for y in 0..2 {
        for x in 0..10 {
            if x != 5 && x != 6 {
                grid.set_cell(x, y, true);
            }
        }
    }
    let state = state_with((5, 0), grid, no_keys());
    let mut game = Tetris::Running(state);
    game.update();
    match game {
        Tetris::Running(s) => {
            assert_eq!(s.score, 40_000);
            for y in 0..2 {
                for x in 0..10 {
                    assert!(!s.grid.cell(x, y));
                }
            }
        }
        Tetris::Finished => panic!("game should still be running"),
    }
}

// A left move at the wall is rejected and the position is unchanged.
#[test]
fn left_move_at_wall_is_rejected() {
    let keys = KeyState { left: true, right: false, rotate: false };
    let state = state_with((0, 5), Grid::new((10, 20)), keys);
    let mut game = Tetris::Running(state);
    game.update();
    match game {
        Tetris::Running(s) => {
            assert_eq!(s.piece.x, 0);
            assert_eq!(s.piece.y, 4);
        }
        Tetris::Finished => panic!("game should still be running"),
    }
}

// A right move that would leave [0, width) is rejected.
#[test]
fn right_move_at_wall_is_rejected() {
    let keys = KeyState { left: false, right: true, rotate: false };
    // the square is two cells wide: x = 8 touches the right wall
    let state = state_with((8, 5), Grid::new((10, 20)), keys);
    let mut game = Tetris::Running(state);
    game.update();
    match game {
        Tetris::Running(s) => {
            assert_eq!(s.piece.x, 8);
            assert_eq!(s.piece.y, 4);
        }
        Tetris::Finished => panic!("game should still be running"),
    }
}

// A move into an occupied cell is rejected.
#[test]
fn move_into_occupied_cell_is_rejected() {
    let mut grid = Grid::new((10, 20));
    // a wall of set cells in column 3, beside the square at x = 4
    for y in 0..20 {
        grid.set_cell(3, y, true);
    }
    let keys = KeyState { left: true, right: false, rotate: false };
    let state = state_with((4, 5), grid, keys);
    let mut game = Tetris::Running(state);
    game.update();
    match game {
        Tetris::Running(s) => {
            assert_eq!(s.piece.x, 4);
            assert_eq!(s.piece.y, 4);
        }
        Tetris::Finished => panic!("game should still be running"),
    }
}

// An unobstructed move is applied, one cell per tick.
#[test]
fn free_left_move_is_applied() {
    let keys = KeyState { left: true, right: false, rotate: false };
    let state = state_with((4, 5), Grid::new((10, 20)), keys);
    let mut game = Tetris::Running(state);
    game.update();
    match game {
        Tetris::Running(s) => {
            assert_eq!(s.piece.x, 3);
            assert_eq!(s.piece.y, 4);
        }
        Tetris::Finished => panic!("game should still be running"),
    }
}

// Opposite keys cancel out to no movement.
#[test]
fn opposite_keys_cancel() {
    let keys = KeyState { left: true, right: true, rotate: false };
    let state = state_with((4, 5), Grid::new((10, 20)), keys);
    let mut game = Tetris::Running(state);
    game.update();
    match game {
        Tetris::Running(s) => {
            assert_eq!(s.piece.x, 4);
            assert_eq!(s.piece.y, 4);
        }
        Tetris::Finished => panic!("game should still be running"),
    }
}

// Once finished, further ticks and input-sets are no-ops and do not panic.
#[test]
fn finished_game_ignores_ticks_and_input() {
    let mut tetris = Tetris::new();
    for _ in 0..100_000 {
        tetris.update();
    }
    assert!(tetris.is_finished());

    tetris.set_key_state(&KeyState { left: true, right: true, rotate: true });
    tetris.update();
    tetris.update();
    assert!(tetris.is_finished());
}

// The score never decreases over a run of ticks.
#[test]
fn score_is_monotone_over_a_game() {
    let mut tetris = Tetris::new();
    let mut last: usize = 0;
    for _ in 0..50_000 {
        tetris.update();
        if let Tetris::Running(ref s) = tetris {
            assert!(s.score >= last);
            last = s.score;
        }
    }
}

// A spawned piece that immediately overlaps field content finishes the game.
#[test]
fn blocked_spawn_finishes_game() {
    // fill everything above the bottom rows, minus one column so no row is
    // complete: the piece locks at once and the respawned piece collides
    let mut grid = Grid::new((10, 20));
    for y in 2..20 {
        for x in 1..10 {
            grid.set_cell(x, y, true);
        }
    }
    let state = state_with((5, 0), grid, no_keys());
    let mut game = Tetris::Running(state);
    game.update();
    assert!(game.is_finished());
}
