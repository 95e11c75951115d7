use rand::rngs::SmallRng;
use rand::SeedableRng;
use tetris_core::draw_helper::Draw;
use tetris_core::grid::Grid;
use tetris_core::piece::PieceSelector;
use tetris_core::tetris::{KeyState, Tetris, TetrisState};

// The terminal projection emits rows top to bottom, x before the flipped y,
// at offset-then-scale coordinates.
#[test]
fn draw_grid_projects_a_tiny_overlay() {
    let grid = Grid::new((2, 2));
    let piece_grid = Grid::of_data((1, 1), vec![true]);
    let draw = Draw { grid: &grid, piece_grid: &piece_grid, piece_offset: (0, 0) };

    let out = draw.draw_grid((0, 0), (1, 1));

    assert_eq!(
        out,
        vec![(0, 2, false), (1, 2, false), (0, 3, true), (1, 3, false)]
    );
}

#[test]
fn draw_grid_scales_each_cell() {
    let grid = Grid::of_data((1, 1), vec![true]);
    let piece_grid = Grid::new((1, 1));
    let draw = Draw { grid: &grid, piece_grid: &piece_grid, piece_offset: (0, 0) };

    let out = draw.draw_grid((0, 0), (2, 2));

    // one source cell becomes a 2x2 block, columns first
    assert_eq!(
        out,
        vec![(0, 4, true), (0, 5, true), (1, 4, true), (1, 5, true)]
    );
}

// The device projection walks columns left to right, each top to bottom,
// with scale applied before the offset.
#[test]
fn draw_game_grid_overlays_the_active_piece() {
    let state = TetrisState {
        piece: PieceSelector::O.to_piece((0, 0)),
        next_piece: PieceSelector::O.to_piece((5, 19)),
        grid: Grid::new((10, 20)),
        key_state: KeyState { left: false, right: false, rotate: false },
        score: 0,
        rng: SmallRng::seed_from_u64(1),
    };

    let out = state.draw_game_grid((0, 0), (1, 1));

    assert_eq!(out.len(), 200);
    // column 0 fills entries 0..20, top of the field first
    assert_eq!(out[0], (0, 0, false));
    // field cell (0, 0) is covered by the square piece and lands at the
    // bottom of the canvas
    assert_eq!(out[19], (0, 19, true));
    assert_eq!(out[18], (0, 18, true));
    // column 2 is beyond the square: all off
    assert_eq!(out[2 * 20 + 19], (2, 19, false));
}

#[test]
fn draw_game_grid_of_new_game_shows_spawn_row() {
    let tetris = Tetris::new();
    match tetris {
        Tetris::Running(state) => {
            let out = state.draw_game_grid((0, 0), (1, 1));
            assert_eq!(out.len(), 200);
            // every entry carries a coordinate inside the 10 x 20 canvas
            for (x, y, _) in &out {
                assert!(*x < 10);
                assert!(*y < 20);
            }
            // the spawn row (source y = 19, canvas y = 0) holds some set
            // pixel belonging to the freshly spawned piece
            let spawn_pixels: Vec<_> = out.iter().filter(|(_, y, v)| *y == 0 && *v).collect();
            assert!(!spawn_pixels.is_empty());
        }
        Tetris::Finished => panic!("a fresh game is running"),
    }
}
