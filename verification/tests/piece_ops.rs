use tetris::{Board, Cell, PositionedTetromino, Tetromino};

fn empty_board() -> Board {
    [[Cell::Empty; 10]; 20]
}

#[test]
fn sequencer_avoids_immediate_repeat() {
    let prevs = [
        Tetromino::I(0),
        Tetromino::J(0),
        Tetromino::L(0),
        Tetromino::O,
        Tetromino::S(0),
        Tetromino::T(0),
        Tetromino::Z(0),
    ];
    for prev in &prevs {
        for _ in 0..50 {
            let t = Tetromino::new(Some(prev));
            assert_ne!(t, *prev);
        }
    }
}

#[test]
fn sequencer_draws_base_shapes() {
    for _ in 0..100 {
        let t = Tetromino::new(None);
        let base = matches!(
            t,
            Tetromino::I(0)
                | Tetromino::J(0)
                | Tetromino::L(0)
                | Tetromino::O
                | Tetromino::S(0)
                | Tetromino::T(0)
                | Tetromino::Z(0)
        );
        assert!(base);
    }
}

#[test]
fn coords_follow_the_shape_table() {
    let p = PositionedTetromino { t: Tetromino::T(0), y: 5, x: 5 };
    assert_eq!(p.get_coords(), vec![(4, 5), (5, 5), (5, 4), (5, 6)]);
    let p = PositionedTetromino { t: Tetromino::I(1), y: 10, x: 3 };
    assert_eq!(p.get_coords(), vec![(9, 3), (10, 3), (11, 3), (12, 3)]);
    let p = PositionedTetromino { t: Tetromino::O, y: 0, x: 0 };
    assert_eq!(p.get_coords(), vec![(0, 0), (1, 0), (0, 1), (1, 1)]);
}

#[test]
fn moves_commit_only_valid_candidates() {
    let board = empty_board();
    let mut p = PositionedTetromino { t: Tetromino::O, y: 0, x: 0 };
    // Already against the left wall and the top: these are silent no-ops.
    p.move_left(&board);
    assert_eq!(p, PositionedTetromino { t: Tetromino::O, y: 0, x: 0 });
    p.move_up(&board);
    assert_eq!(p, PositionedTetromino { t: Tetromino::O, y: 0, x: 0 });
    // Free directions commit.
    p.move_right(&board);
    assert_eq!(p, PositionedTetromino { t: Tetromino::O, y: 0, x: 1 });
    p.move_down(&board);
    assert_eq!(p, PositionedTetromino { t: Tetromino::O, y: 1, x: 1 });
}

#[test]
fn piece_stops_at_the_floor() {
    let board = empty_board();
    // O occupies rows y and y + 1: the lowest anchor is row 18.
    let mut p = PositionedTetromino { t: Tetromino::O, y: 18, x: 4 };
    assert!(!p.can_move_down(&board));
    p.move_down(&board);
    assert_eq!(p.y, 18);
    let above = PositionedTetromino { t: Tetromino::O, y: 17, x: 4 };
    assert!(above.can_move_down(&board));
}

#[test]
fn rotation_against_a_wall_is_rejected() {
    let board = empty_board();
    // A horizontal I on the bottom row cannot stand up: rows 20 and 21
    // would be off the board. Shape, rotation and anchor stay unchanged.
    let mut p = PositionedTetromino { t: Tetromino::I(0), y: 19, x: 5 };
    let before = p;
    p.rotate_cw(&board);
    assert_eq!(p, before);
    p.rotate_ccw(&board);
    assert_eq!(p, before);
}

#[test]
fn rotation_against_settled_cells_is_rejected() {
    let mut board = empty_board();
    // T(0) at (5, 5) occupies (4,5), (5,4), (5,5), (5,6); its clockwise
    // rotation T(1) adds (6, 5). Settle a cell there.
    board[6][5] = Cell::JBlock;
    let mut p = PositionedTetromino { t: Tetromino::T(0), y: 5, x: 5 };
    let before = p;
    p.rotate_cw(&board);
    assert_eq!(p, before);
}

#[test]
fn rotation_in_the_open_commits() {
    let board = empty_board();
    let mut p = PositionedTetromino { t: Tetromino::I(0), y: 10, x: 5 };
    p.rotate_cw(&board);
    assert_eq!(p.t, Tetromino::I(1));
    p.rotate_cw(&board);
    assert_eq!(p.t, Tetromino::I(0));
    let mut q = PositionedTetromino { t: Tetromino::J(0), y: 10, x: 5 };
    q.rotate_ccw(&board);
    assert_eq!(q.t, Tetromino::J(3));
}

#[test]
fn validity_is_bounds_and_emptiness() {
    let mut board = empty_board();
    let p = PositionedTetromino { t: Tetromino::O, y: 5, x: 5 };
    assert!(p.is_position_valid(&board));
    board[6][6] = Cell::SBlock;
    assert!(!p.is_position_valid(&board));
    let off = PositionedTetromino { t: Tetromino::O, y: 19, x: 5 };
    assert!(!off.is_position_valid(&board));
}

#[test]
fn place_normalizes_to_the_highest_row() {
    let board = empty_board();
    // The horizontal I has no cell above its anchor row, so it rises from
    // the start row 1 to row 0.
    let placed = PositionedTetromino::place(&Tetromino::I(0), &board).unwrap();
    assert_eq!(placed.get_coords(), vec![(0, 4), (0, 5), (0, 6), (0, 7)]);
    // T extends one row above its anchor, so it stays on row 1.
    let placed = PositionedTetromino::place(&Tetromino::T(0), &board).unwrap();
    assert_eq!(placed.get_coords(), vec![(0, 5), (1, 5), (1, 4), (1, 6)]);
}

#[test]
fn place_fails_when_the_spawn_cells_are_occupied() {
    let mut board = empty_board();
    // Occupy the whole spawn neighbourhood at the top of the board.
    for y in 0..3 {
        for x in 2..9 {
            board[y][x] = Cell::LBlock;
        }
    }
    assert_eq!(PositionedTetromino::place(&Tetromino::T(0), &board), None);
}

#[test]
fn change_cycles_the_shape_and_resets_the_anchor() {
    let mut p = PositionedTetromino { t: Tetromino::I(1), y: 2, x: 8 };
    p.change();
    assert_eq!(p, PositionedTetromino { t: Tetromino::J(0), y: 5, x: 5 });
    p.change();
    assert_eq!(p, PositionedTetromino { t: Tetromino::L(0), y: 5, x: 5 });
    p.change();
    assert_eq!(p, PositionedTetromino { t: Tetromino::O, y: 5, x: 5 });
}

#[test]
fn cell_types_match_the_shape() {
    let p = PositionedTetromino { t: Tetromino::S(1), y: 5, x: 5 };
    assert_eq!(p.get_cell_type(), Cell::SBlock);
    assert_eq!(p.get_ghost_cell_type(), Cell::SGhostBlock);
    assert_eq!(Tetromino::Z(0).get_cell_type(), Cell::ZBlock);
    assert_eq!(Tetromino::Z(0).get_ghost_cell_type(), Cell::ZGhostBlock);
}

#[test]
fn preview_coords_fit_the_small_grid() {
    let shapes = [
        Tetromino::I(0),
        Tetromino::J(0),
        Tetromino::L(0),
        Tetromino::O,
        Tetromino::S(0),
        Tetromino::T(0),
        Tetromino::Z(0),
    ];
    for s in &shapes {
        let coords = s.get_preview_coords();
        assert_eq!(coords.len(), 4);
        for (y, x) in coords {
            assert!((0..2).contains(&y));
            assert!((0..4).contains(&x));
        }
    }
    assert_eq!(
        Tetromino::O.get_preview_coords(),
        vec![(0, 1), (1, 1), (0, 2), (1, 2)]
    );
}
