//! A falling-block puzzle engine: a bounded grid onto which shaped pieces
//! descend, move and rotate under collision checks, lock into place, and
//! trigger row clearing and difficulty progression.

pub mod game;
pub mod tetromino;

pub use game::{
    Board, Cell, Command, Game, Message, NextPiece, HEIGHT, INITIAL_DROP_INTERVAL_NS,
    PIECE_START_X, PIECE_START_Y, WIDTH,
};
pub use tetromino::{PositionedTetromino, Tetromino};
