use tetris::{
    Board, Cell, Command, Game, PositionedTetromino, Tetromino, INITIAL_DROP_INTERVAL_NS,
};

fn empty_board() -> Board {
    [[Cell::Empty; 10]; 20]
}

/// A full row of one settled colour.
fn full_row(c: Cell) -> [Cell; 10] {
    [c; 10]
}

#[test]
fn new_game_starts_fresh() {
    let game = Game::new();
    assert_eq!(game.render_score(), 0);
    assert_eq!(game.render_message(), "Welcome to Tetris!");
    // The first piece is on the board: the rendered grid shows its 4 live
    // cells (plus up to 4 ghost cells); an empty board would show none.
    let rendered = game.render_board();
    let occupied = rendered
        .iter()
        .flatten()
        .filter(|c| **c != Cell::Empty)
        .count();
    assert!(occupied >= 4 && occupied <= 8);
}

#[test]
fn row_clear_shifts_rows_down() {
    // Row 5 entirely non-empty, no other row full.
    let mut board = empty_board();
    board[5] = full_row(Cell::IBlock);
    board[4][3] = Cell::SBlock;
    board[6][2] = Cell::TBlock;
    board[19][0] = Cell::JBlock;
    let mut game = Game::with_state(board, None, Tetromino::O, 0, INITIAL_DROP_INTERVAL_NS, 0);
    game.clear_full_rows();
    let after = game.render_board();
    // Row 0 is zeroed; rows 0..=4 shifted down into 1..=5.
    assert_eq!(after[0], [Cell::Empty; 10]);
    assert_eq!(after[5][3], Cell::SBlock);
    assert_eq!(after[5][0], Cell::Empty);
    // Rows 6..=19 are untouched.
    assert_eq!(after[6][2], Cell::TBlock);
    assert_eq!(after[19][0], Cell::JBlock);
    // One row clears for 100 points.
    assert_eq!(game.render_score(), 100);
    assert_eq!(game.render_message(), "Good job!");
}

#[test]
fn interval_unchanged_below_the_next_thousand() {
    // One clear takes the score from 0 to 100: no 1000-multiple is
    // crossed, so gravity still waits for the full initial interval.
    let mut board = empty_board();
    board[10] = full_row(Cell::LBlock);
    let active = PositionedTetromino { t: Tetromino::T(0), y: 1, x: 5 };
    let mut game = Game::with_state(
        board,
        Some(active),
        Tetromino::O,
        0,
        INITIAL_DROP_INTERVAL_NS,
        0,
    );
    game.clear_full_rows();
    assert_eq!(game.render_score(), 100);
    // One nanosecond early: no drop.
    game.step(Command::NoOp, INITIAL_DROP_INTERVAL_NS - 1, Tetromino::J(0));
    assert_eq!(game.render_board()[0][5], Cell::TBlock);
    // Exactly at the interval: the piece drops one row.
    game.step(Command::NoOp, INITIAL_DROP_INTERVAL_NS, Tetromino::L(0));
    assert_eq!(game.render_board()[0][5], Cell::Empty);
    assert_eq!(game.render_board()[2][5], Cell::TBlock);
}

#[test]
fn scoring_threshold_shortens_the_interval_once() {
    // A clear moving the score from 950 to 1050 crosses 1000 once: the
    // interval becomes exactly 0.8 of its initial value.
    let mut board = empty_board();
    board[10] = full_row(Cell::ZBlock);
    let active = PositionedTetromino { t: Tetromino::T(0), y: 1, x: 5 };
    let mut game = Game::with_state(
        board,
        Some(active),
        Tetromino::O,
        950,
        INITIAL_DROP_INTERVAL_NS,
        0,
    );
    game.clear_full_rows();
    assert_eq!(game.render_score(), 1050);
    let shortened = INITIAL_DROP_INTERVAL_NS * 8 / 10;
    // One nanosecond below the shortened interval: no drop yet, so the
    // interval shrank at most once.
    game.step(Command::NoOp, shortened - 1, Tetromino::J(0));
    assert_eq!(game.render_board()[0][5], Cell::TBlock);
    // At the shortened interval: the drop fires, so it did shrink.
    game.step(Command::NoOp, shortened, Tetromino::L(0));
    assert_eq!(game.render_board()[0][5], Cell::Empty);
    assert_eq!(game.render_board()[2][5], Cell::TBlock);
}

#[test]
fn scoring_table_values() {
    for (rows, points, msg) in [
        (2, 300, "Wow!"),
        (3, 500, "That's amazing!"),
        (4, 800, "TETRIS!!!!"),
    ] {
        let mut board = empty_board();
        for i in 0..rows {
            board[19 - i] = full_row(Cell::SBlock);
        }
        let mut game =
            Game::with_state(board, None, Tetromino::O, 0, INITIAL_DROP_INTERVAL_NS, 0);
        game.clear_full_rows();
        assert_eq!(game.render_score(), points);
        assert_eq!(game.render_message(), msg);
        assert_eq!(game.render_board(), empty_board());
    }
}

#[test]
fn clearing_nothing_keeps_the_score() {
    let mut board = empty_board();
    board[19][0] = Cell::IBlock;
    let mut game = Game::with_state(board, None, Tetromino::O, 40, INITIAL_DROP_INTERVAL_NS, 0);
    game.clear_full_rows();
    assert_eq!(game.render_score(), 40);
    assert_eq!(game.render_message(), "You can do it!");
    assert_eq!(game.render_board(), board);
}

#[test]
fn score_saturates_instead_of_overflowing() {
    let mut board = empty_board();
    board[19] = full_row(Cell::TBlock);
    let mut game = Game::with_state(
        board,
        None,
        Tetromino::O,
        i32::MAX - 50,
        INITIAL_DROP_INTERVAL_NS,
        0,
    );
    game.clear_full_rows();
    assert_eq!(game.render_score(), i32::MAX);
}

#[test]
fn lock_writes_exactly_the_piece_cells() {
    // An O that cannot move down locks; its 4 cells and nothing else are
    // written with its tag.
    let active = PositionedTetromino { t: Tetromino::O, y: 18, x: 1 };
    let mut game = Game::with_state(
        empty_board(),
        Some(active),
        Tetromino::I(0),
        0,
        INITIAL_DROP_INTERVAL_NS,
        0,
    );
    game.step(Command::NoOp, INITIAL_DROP_INTERVAL_NS, Tetromino::J(0));
    // The next piece (a horizontal I) spawned at the top; build the full
    // expected rendering: settled O, live I on row 0, its ghost on row 19.
    let mut expected = empty_board();
    for (y, x) in [(18, 1), (19, 1), (18, 2), (19, 2)] {
        expected[y][x] = Cell::OBlock;
    }
    for x in 4..8 {
        expected[0][x] = Cell::IBlock;
        expected[19][x] = Cell::IGhostBlock;
    }
    assert_eq!(game.render_board(), expected);
    assert_eq!(game.render_score(), 0);
    assert_eq!(game.render_message(), "You can do it!");
}

#[test]
fn blocked_spawn_ends_the_game() {
    // Everything from row 2 down is occupied except column 0 (so no row is
    // full); the T locks at the top and the next spawn has nowhere to go.
    let mut board = empty_board();
    for y in 2..20 {
        for x in 1..10 {
            board[y][x] = Cell::LBlock;
        }
    }
    let active = PositionedTetromino { t: Tetromino::T(0), y: 1, x: 5 };
    let mut game = Game::with_state(
        board,
        Some(active),
        Tetromino::I(0),
        0,
        INITIAL_DROP_INTERVAL_NS,
        0,
    );
    game.step(Command::NoOp, INITIAL_DROP_INTERVAL_NS, Tetromino::J(0));
    assert_eq!(game.render_message(), "You lost!");
    let board_over = game.render_board();
    let score_over = game.render_score();
    // Further ticks and steps are no-ops: board and score never change.
    game.tick(Command::Left);
    game.step(Command::Drop, 10 * INITIAL_DROP_INTERVAL_NS, Tetromino::S(0));
    assert_eq!(game.render_board(), board_over);
    assert_eq!(game.render_score(), score_over);
    assert_eq!(game.render_message(), "You lost!");
}

#[test]
fn ghost_lands_on_the_bottom_row() {
    // With an unobstructed column, the ghost is the live piece shifted
    // down by 19 - current_row, landing on row 19.
    let active = PositionedTetromino { t: Tetromino::T(0), y: 1, x: 5 };
    let game = Game::with_state(
        empty_board(),
        Some(active),
        Tetromino::O,
        0,
        INITIAL_DROP_INTERVAL_NS,
        0,
    );
    let mut expected = empty_board();
    for (y, x) in [(0, 5), (1, 5), (1, 4), (1, 6)] {
        expected[y][x] = Cell::TBlock;
    }
    for (y, x) in [(18, 5), (19, 5), (19, 4), (19, 6)] {
        expected[y][x] = Cell::TGhostBlock;
    }
    assert_eq!(game.render_board(), expected);
}

#[test]
fn live_piece_overlays_its_ghost() {
    // A piece already on the floor coincides with its ghost: the live tag
    // wins.
    let active = PositionedTetromino { t: Tetromino::O, y: 18, x: 4 };
    let game = Game::with_state(
        empty_board(),
        Some(active),
        Tetromino::O,
        0,
        INITIAL_DROP_INTERVAL_NS,
        0,
    );
    let mut expected = empty_board();
    for (y, x) in [(18, 4), (19, 4), (18, 5), (19, 5)] {
        expected[y][x] = Cell::OBlock;
    }
    assert_eq!(game.render_board(), expected);
}

#[test]
fn commands_steer_the_piece() {
    let active = PositionedTetromino { t: Tetromino::O, y: 5, x: 5 };
    let mut game = Game::with_state(
        empty_board(),
        Some(active),
        Tetromino::O,
        0,
        INITIAL_DROP_INTERVAL_NS,
        0,
    );
    // Before the interval elapses, only the command acts.
    game.step(Command::Left, 0, Tetromino::J(0));
    assert_eq!(game.render_board()[5][4], Cell::OBlock);
    game.step(Command::Right, 1, Tetromino::J(0));
    game.step(Command::Right, 2, Tetromino::J(0));
    assert_eq!(game.render_board()[5][6], Cell::OBlock);
    game.step(Command::Drop, 3, Tetromino::J(0));
    assert_eq!(game.render_board()[6][6], Cell::OBlock);
    game.step(Command::Up, 4, Tetromino::J(0));
    assert_eq!(game.render_board()[5][6], Cell::OBlock);
    game.step(Command::NoOp, 5, Tetromino::J(0));
    assert_eq!(game.render_board()[5][6], Cell::OBlock);
}

#[test]
fn rotation_commands_turn_the_piece() {
    let active = PositionedTetromino { t: Tetromino::I(0), y: 10, x: 5 };
    let mut game = Game::with_state(
        empty_board(),
        Some(active),
        Tetromino::O,
        0,
        INITIAL_DROP_INTERVAL_NS,
        0,
    );
    game.step(Command::Clockwise, 0, Tetromino::J(0));
    // Vertical I: cells (9,5), (10,5), (11,5), (12,5).
    assert_eq!(game.render_board()[9][5], Cell::IBlock);
    assert_eq!(game.render_board()[12][5], Cell::IBlock);
    assert_eq!(game.render_board()[10][4], Cell::Empty);
    game.step(Command::CounterClockwise, 1, Tetromino::J(0));
    assert_eq!(game.render_board()[10][4], Cell::IBlock);
}

#[test]
fn debug_cycle_jumps_to_the_debug_anchor() {
    let active = PositionedTetromino { t: Tetromino::I(0), y: 3, x: 3 };
    let mut game = Game::with_state(
        empty_board(),
        Some(active),
        Tetromino::O,
        0,
        INITIAL_DROP_INTERVAL_NS,
        0,
    );
    game.step(Command::ChangePiece, 0, Tetromino::J(0));
    // I cycles to J, reset to the debug anchor (5, 5): cells (4,4), (5,4),
    // (5,5), (5,6).
    let rendered = game.render_board();
    assert_eq!(rendered[4][4], Cell::JBlock);
    assert_eq!(rendered[5][4], Cell::JBlock);
    assert_eq!(rendered[5][5], Cell::JBlock);
    assert_eq!(rendered[5][6], Cell::JBlock);
}

#[test]
fn next_piece_preview_grid() {
    let game = Game::with_state(
        empty_board(),
        None,
        Tetromino::S(0),
        0,
        INITIAL_DROP_INTERVAL_NS,
        0,
    );
    let grid = game.render_next_piece();
    let mut expected = [[Cell::Empty; 4]; 2];
    for (y, x) in [(1, 0), (1, 1), (0, 1), (0, 2)] {
        expected[y][x] = Cell::SBlock;
    }
    assert_eq!(grid, expected);
}

#[test]
fn gravity_advances_the_timer_without_drift() {
    // The timer reference moves forward by exactly one interval per drop,
    // so a late tick catches up on the next drop sooner.
    let active = PositionedTetromino { t: Tetromino::O, y: 0, x: 5 };
    let mut game = Game::with_state(
        empty_board(),
        Some(active),
        Tetromino::O,
        0,
        INITIAL_DROP_INTERVAL_NS,
        0,
    );
    // A tick arrives half an interval late: the drop fires.
    game.step(Command::NoOp, INITIAL_DROP_INTERVAL_NS * 3 / 2, Tetromino::J(0));
    assert_eq!(game.render_board()[1][5], Cell::OBlock);
    // The reference advanced to one interval, not to the tick time, so the
    // next drop is already due half an interval later.
    game.step(Command::NoOp, INITIAL_DROP_INTERVAL_NS * 2, Tetromino::J(0));
    assert_eq!(game.render_board()[2][5], Cell::OBlock);
}
