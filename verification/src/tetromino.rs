//! Piece shapes, their rotation geometry, the falling piece and its
//! collision-checked operations, and the piece sequencer.

use vstd::prelude::*;

use crate::game::{cell_in_range, cell_open, Board, Cell, HEIGHT, WIDTH};

verus! {

/// A piece shape together with its current rotation index.
///
/// The rotation index is cyclic modulo the shape's number of distinct
/// orientations: `O` has 1, `I`, `S` and `Z` have 2, and `J`, `L` and `T`
/// have 4.
#[derive(Clone, Copy, Debug, PartialEq, Eq, Structural)]
pub enum Tetromino {
    I(u8),
    J(u8),
    L(u8),
    O,
    S(u8),
    T(u8),
    Z(u8),
}

/// The base shape drawn for sequencer index `i`.
pub open spec fn shape_of_index(i: int) -> Tetromino {
    if i == 0 {
        Tetromino::I(0)
    } else if i == 1 {
        Tetromino::J(0)
    } else if i == 2 {
        Tetromino::L(0)
    } else if i == 3 {
        Tetromino::O
    } else if i == 4 {
        Tetromino::S(0)
    } else if i == 5 {
        Tetromino::T(0)
    } else {
        Tetromino::Z(0)
    }
}

/// Relies on rand::Rng::gen_range over `0..n`: a uniform draw strictly below
/// `n`; the call panics only on an empty range, which `n > 0` rules out.
#[verifier::external_body]
fn random_below(n: u8) -> (r: u8)
    requires
        n > 0,
    ensures
        r < n,
{
    rand::Rng::gen_range(&mut rand::thread_rng(), 0..n)
}

impl Tetromino {
    /// The number of distinct rotation states of this shape.
    pub open spec fn states(self) -> int {
        match self {
            Tetromino::I(_) => 2,
            Tetromino::J(_) => 4,
            Tetromino::L(_) => 4,
            Tetromino::O => 1,
            Tetromino::S(_) => 2,
            Tetromino::T(_) => 4,
            Tetromino::Z(_) => 2,
        }
    }

    /// The current rotation index.
    pub open spec fn rot(self) -> int {
        match self {
            Tetromino::I(r) => r as int,
            Tetromino::J(r) => r as int,
            Tetromino::L(r) => r as int,
            Tetromino::O => 0,
            Tetromino::S(r) => r as int,
            Tetromino::T(r) => r as int,
            Tetromino::Z(r) => r as int,
        }
    }

    /// A shape is well formed when its rotation index lies in range.
    pub open spec fn wf(self) -> bool {
        self.rot() < self.states()
    }

    /// A base shape: rotation index 0, as produced by the sequencer.
    pub open spec fn is_base(self) -> bool {
        self.rot() == 0
    }

    /// The 4 cell offsets, relative to the anchor, occupied by this shape in
    /// its current rotation: the shape table.
    pub open spec fn rel_cells(self) -> Seq<(int, int)> {
        match self {
            Tetromino::I(r) => if r == 0 {
                seq![(0, -1), (0, 0), (0, 1), (0, 2)]
            } else {
                seq![(-1, 0), (0, 0), (1, 0), (2, 0)]
            },
            Tetromino::J(r) => if r == 0 {
                seq![(-1, -1), (0, -1), (0, 0), (0, 1)]
            } else if r == 1 {
                seq![(-1, 1), (-1, 0), (0, 0), (1, 0)]
            } else if r == 2 {
                seq![(1, 1), (0, 1), (0, 0), (0, -1)]
            } else {
                seq![(1, -1), (1, 0), (0, 0), (-1, 0)]
            },
            Tetromino::L(r) => if r == 0 {
                seq![(0, -1), (0, 0), (0, 1), (-1, 1)]
            } else if r == 1 {
                seq![(-1, 0), (0, 0), (1, 0), (1, 1)]
            } else if r == 2 {
                seq![(0, 1), (0, 0), (0, -1), (1, -1)]
            } else {
                seq![(1, 0), (0, 0), (-1, 0), (-1, -1)]
            },
            Tetromino::O => seq![(0, 0), (1, 0), (0, 1), (1, 1)],
            Tetromino::S(r) => if r == 0 {
                seq![(1, -1), (1, 0), (0, 0), (0, 1)]
            } else {
                seq![(-1, -1), (0, -1), (0, 0), (1, 0)]
            },
            Tetromino::T(r) => if r == 0 {
                seq![(-1, 0), (0, 0), (0, -1), (0, 1)]
            } else if r == 1 {
                seq![(-1, 0), (0, 0), (1, 0), (0, 1)]
            } else if r == 2 {
                seq![(1, 0), (0, 0), (0, -1), (0, 1)]
            } else {
                seq![(-1, 0), (0, 0), (1, 0), (0, -1)]
            },
            Tetromino::Z(r) => if r == 0 {
                seq![(0, -1), (0, 0), (1, 0), (1, 1)]
            } else {
                seq![(-1, 0), (0, 0), (0, -1), (1, -1)]
            },
        }
    }

    /// The unrotated offsets used for the next-piece preview, shifted to fit
    /// a 2-row, 4-column grid.
    pub open spec fn preview_cells(self) -> Seq<(int, int)> {
        match self {
            Tetromino::I(_) => seq![(0, 0), (0, 1), (0, 2), (0, 3)],
            Tetromino::J(_) => seq![(0, 0), (1, 0), (1, 1), (1, 2)],
            Tetromino::L(_) => seq![(1, 0), (1, 1), (1, 2), (0, 2)],
            Tetromino::O => seq![(0, 1), (1, 1), (0, 2), (1, 2)],
            Tetromino::Z(_) => seq![(0, 0), (0, 1), (1, 1), (1, 2)],
            Tetromino::T(_) => seq![(0, 1), (1, 1), (1, 0), (1, 2)],
            Tetromino::S(_) => seq![(1, 0), (1, 1), (0, 1), (0, 2)],
        }
    }

    /// The occupancy tag written to the board when this shape locks.
    pub open spec fn cell_spec(self) -> Cell {
        match self {
            Tetromino::I(_) => Cell::IBlock,
            Tetromino::J(_) => Cell::JBlock,
            Tetromino::L(_) => Cell::LBlock,
            Tetromino::O => Cell::OBlock,
            Tetromino::S(_) => Cell::SBlock,
            Tetromino::T(_) => Cell::TBlock,
            Tetromino::Z(_) => Cell::ZBlock,
        }
    }

    /// The tag used for this shape's ghost projection.
    pub open spec fn ghost_cell_spec(self) -> Cell {
        match self {
            Tetromino::I(_) => Cell::IGhostBlock,
            Tetromino::J(_) => Cell::JGhostBlock,
            Tetromino::L(_) => Cell::LGhostBlock,
            Tetromino::O => Cell::OGhostBlock,
            Tetromino::S(_) => Cell::SGhostBlock,
            Tetromino::T(_) => Cell::TGhostBlock,
            Tetromino::Z(_) => Cell::ZGhostBlock,
        }
    }

    /// The shape advanced one rotation state clockwise, wrapping cyclically.
    pub open spec fn turned_cw(self) -> Tetromino {
        match self {
            Tetromino::I(r) => Tetromino::I((((r as int) + 1) % 2) as u8),
            Tetromino::J(r) => Tetromino::J((((r as int) + 1) % 4) as u8),
            Tetromino::L(r) => Tetromino::L((((r as int) + 1) % 4) as u8),
            Tetromino::O => Tetromino::O,
            Tetromino::S(r) => Tetromino::S((((r as int) + 1) % 2) as u8),
            Tetromino::T(r) => Tetromino::T((((r as int) + 1) % 4) as u8),
            Tetromino::Z(r) => Tetromino::Z((((r as int) + 1) % 2) as u8),
        }
    }

    /// The shape retreated one rotation state, wrapping cyclically.
    pub open spec fn turned_ccw(self) -> Tetromino {
        match self {
            Tetromino::I(r) => Tetromino::I((((r as int) + 1) % 2) as u8),
            Tetromino::J(r) => Tetromino::J((((r as int) + 3) % 4) as u8),
            Tetromino::L(r) => Tetromino::L((((r as int) + 3) % 4) as u8),
            Tetromino::O => Tetromino::O,
            Tetromino::S(r) => Tetromino::S((((r as int) + 1) % 2) as u8),
            Tetromino::T(r) => Tetromino::T((((r as int) + 3) % 4) as u8),
            Tetromino::Z(r) => Tetromino::Z((((r as int) + 1) % 2) as u8),
        }
    }

    /// The next shape identity in the debug round-robin.
    pub open spec fn cycled(self) -> Tetromino {
        match self {
            Tetromino::I(_) => Tetromino::J(0),
            Tetromino::J(_) => Tetromino::L(0),
            Tetromino::L(_) => Tetromino::O,
            Tetromino::O => Tetromino::S(0),
            Tetromino::S(_) => Tetromino::T(0),
            Tetromino::T(_) => Tetromino::Z(0),
            Tetromino::Z(_) => Tetromino::I(0),
        }
    }

    /// Draw the identity of the next piece: uniformly at random among the 7
    /// base shapes, avoiding an immediate repeat of `prev_piece`.
    pub fn new(prev_piece: Option<&Tetromino>) -> (t: Tetromino)
        ensures
            t.is_base(),
            t.wf(),
            match prev_piece {
                Some(p) => t != *p,
                None => true,
            },
    {
        let first = Self::from_index(random_below(7));
        match prev_piece {
            None => first,
            Some(prev) => {
                if first != *prev {
                    first
                } else {
                    // The draw hit the previous shape: redraw uniformly among
                    // the six other base shapes.
                    let i = first.base_index();
                    let j = random_below(6);
                    let j2 = if j >= i {
                        j + 1
                    } else {
                        j
                    };
                    let other = Self::from_index(j2);
                    proof {
                        assert(other != first);
                    }
                    other
                }
            },
        }
    }

    /// The base shape for a sequencer index.
    fn from_index(i: u8) -> (t: Tetromino)
        requires
            i < 7,
        ensures
            t == shape_of_index(i as int),
    {
        match i {
            0 => Tetromino::I(0),
            1 => Tetromino::J(0),
            2 => Tetromino::L(0),
            3 => Tetromino::O,
            4 => Tetromino::S(0),
            5 => Tetromino::T(0),
            _ => Tetromino::Z(0),
        }
    }

    /// The sequencer index of this shape's identity.
    fn base_index(&self) -> (i: u8)
        ensures
            i < 7,
            self.is_base() ==> shape_of_index(i as int) == *self,
    {
        match self {
            Tetromino::I(_) => 0,
            Tetromino::J(_) => 1,
            Tetromino::L(_) => 2,
            Tetromino::O => 3,
            Tetromino::S(_) => 4,
            Tetromino::T(_) => 5,
            Tetromino::Z(_) => 6,
        }
    }

    /// The unrotated offsets for the next-piece preview, inside a 2-row,
    /// 4-column grid.
    pub fn get_preview_coords(&self) -> (r: Vec<(i32, i32)>)
        ensures
            r@.len() == 4,
            forall|i: int|
                0 <= i < 4 ==> r@[i].0 as int == self.preview_cells()[i].0 && r@[i].1 as int
                    == self.preview_cells()[i].1,
            forall|i: int| 0 <= i < 4 ==> 0 <= #[trigger] r@[i].0 < 2 && 0 <= r@[i].1 < 4,
    {
        match self {
            Tetromino::I(_) => four_coords((0, 0), (0, 1), (0, 2), (0, 3)),
            Tetromino::J(_) => four_coords((0, 0), (1, 0), (1, 1), (1, 2)),
            Tetromino::L(_) => four_coords((1, 0), (1, 1), (1, 2), (0, 2)),
            Tetromino::O => four_coords((0, 1), (1, 1), (0, 2), (1, 2)),
            Tetromino::Z(_) => four_coords((0, 0), (0, 1), (1, 1), (1, 2)),
            Tetromino::T(_) => four_coords((0, 1), (1, 1), (1, 0), (1, 2)),
            Tetromino::S(_) => four_coords((1, 0), (1, 1), (0, 1), (0, 2)),
        }
    }

    /// The occupancy tag written to the board when this shape locks.
    pub fn get_cell_type(&self) -> (c: Cell)
        ensures
            c == self.cell_spec(),
    {
        match self {
            Tetromino::I(_) => Cell::IBlock,
            Tetromino::J(_) => Cell::JBlock,
            Tetromino::L(_) => Cell::LBlock,
            Tetromino::O => Cell::OBlock,
            Tetromino::S(_) => Cell::SBlock,
            Tetromino::T(_) => Cell::TBlock,
            Tetromino::Z(_) => Cell::ZBlock,
        }
    }

    /// The tag used for this shape's ghost projection.
    pub fn get_ghost_cell_type(&self) -> (c: Cell)
        ensures
            c == self.ghost_cell_spec(),
    {
        match self {
            Tetromino::I(_) => Cell::IGhostBlock,
            Tetromino::J(_) => Cell::JGhostBlock,
            Tetromino::L(_) => Cell::LGhostBlock,
            Tetromino::O => Cell::OGhostBlock,
            Tetromino::S(_) => Cell::SGhostBlock,
            Tetromino::T(_) => Cell::TGhostBlock,
            Tetromino::Z(_) => Cell::ZGhostBlock,
        }
    }
}

/// A piece in play: a shape with an integer `(row, column)` anchor.
#[derive(Clone, Copy, Debug, PartialEq, Eq, Structural)]
pub struct PositionedTetromino {
    pub t: Tetromino,
    pub y: i32,
    pub x: i32,
}

impl PositionedTetromino {
    /// The anchor stays within one step of the band that any legal or debug
    /// position can occupy.
    pub open spec fn pos_norm(self) -> bool {
        -5 <= self.y <= 25 && -5 <= self.x <= 15
    }

    /// One further step of slack, enough for any candidate position that the
    /// operations probe.
    pub open spec fn pos_near(self) -> bool {
        -6 <= self.y <= 26 && -6 <= self.x <= 16
    }

    /// Well-formedness maintained by every operation: a rotation index in
    /// range and an anchor near the board.
    pub open spec fn wf(self) -> bool {
        self.t.wf() && self.pos_norm()
    }

    /// The 4 absolute board cells occupied by the piece.
    pub open spec fn abs_cells(self) -> Seq<(int, int)> {
        Seq::new(
            4,
            |i: int| (self.y + self.t.rel_cells()[i].0, self.x + self.t.rel_cells()[i].1),
        )
    }

    /// The sole authority for legality: every occupied cell lies on the
    /// board and overlies an empty settled cell.
    pub open spec fn is_valid(self, board: Board) -> bool {
        forall|i: int| 0 <= i < 4 ==> cell_open(board, #[trigger] self.abs_cells()[i])
    }

    /// Every occupied cell lies on the board (it may overlie settled cells).
    pub open spec fn cells_in_bounds(self) -> bool {
        forall|i: int| 0 <= i < 4 ==> cell_in_range(#[trigger] self.abs_cells()[i])
    }

    /// The piece with its anchor shifted by `(dy, dx)`.
    pub open spec fn shifted(self, dy: int, dx: int) -> Self {
        PositionedTetromino { t: self.t, y: (self.y + dy) as i32, x: (self.x + dx) as i32 }
    }

    /// The committed result of a move request: the shifted candidate if it
    /// is valid, the unchanged piece otherwise.
    pub open spec fn moved(self, board: Board, dy: int, dx: int) -> Self {
        if self.shifted(dy, dx).is_valid(board) {
            self.shifted(dy, dx)
        } else {
            self
        }
    }

    /// The clockwise rotation candidate.
    pub open spec fn rotated_cw(self) -> Self {
        PositionedTetromino { t: self.t.turned_cw(), ..self }
    }

    /// The counter-clockwise rotation candidate.
    pub open spec fn rotated_ccw(self) -> Self {
        PositionedTetromino { t: self.t.turned_ccw(), ..self }
    }

    /// The result of the debug shape cycle: the next shape identity at the
    /// fixed debug anchor.
    pub open spec fn cycled(self) -> Self {
        PositionedTetromino { t: self.t.cycled(), y: 5, x: 5 }
    }

    /// The piece dropped as far as it can go: the landing position used for
    /// the ghost projection.
    pub open spec fn dropped(self, board: Board) -> Self
        decreases 21 - self.y,
    {
        if self.y <= 20 && self.shifted(1, 0).is_valid(board) {
            self.shifted(1, 0).dropped(board)
        } else {
            self
        }
    }

    /// The piece raised to the highest position reachable by repeated valid
    /// single-row moves up: spawn normalization.
    pub open spec fn risen(self, board: Board) -> Self
        decreases self.y + 2,
    {
        if self.y >= -1 && self.shifted(-1, 0).is_valid(board) {
            self.shifted(-1, 0).risen(board)
        } else {
            self
        }
    }

    /// The result of a spawn request for shape `t`: the piece at the fixed
    /// start anchor, normalized upward, or nothing if even the normalized
    /// position collides. A `None` result is the game-over signal.
    pub open spec fn place_spec(t: Tetromino, board: Board) -> Option<Self> {
        let p = (PositionedTetromino {
            t,
            y: crate::game::PIECE_START_Y,
            x: crate::game::PIECE_START_X,
        }).risen(board);
        if p.is_valid(board) {
            Some(p)
        } else {
            None
        }
    }
}

impl PositionedTetromino {
    /// Spawn shape `t` at the fixed start anchor, normalize it to the
    /// highest legal row, and return it — or `None`, the game-over signal,
    /// if even the normalized position collides.
    pub fn place(t: &Tetromino, board: &Board) -> (r: Option<Self>)
        requires
            t.wf(),
        ensures
            r == Self::place_spec(*t, *board),
            r is Some ==> r->0.wf() && r->0.is_valid(*board),
    {
        let mut piece = PositionedTetromino {
            t: *t,
            y: crate::game::PIECE_START_Y,
            x: crate::game::PIECE_START_X,
        };
        // Normalize: move up while the position one row higher stays valid.
        loop
            invariant
                t.wf(),
                piece.t == *t,
                piece.x == crate::game::PIECE_START_X,
                -2 <= piece.y <= crate::game::PIECE_START_Y,
                piece.risen(*board) == (PositionedTetromino {
                    t: *t,
                    y: crate::game::PIECE_START_Y,
                    x: crate::game::PIECE_START_X,
                }).risen(*board),
            ensures
                piece == (PositionedTetromino {
                    t: *t,
                    y: crate::game::PIECE_START_Y,
                    x: crate::game::PIECE_START_X,
                }).risen(*board),
            decreases piece.y + 2,
        {
            let cand = PositionedTetromino { t: piece.t, y: piece.y - 1, x: piece.x };
            if cand.is_position_valid(board) {
                proof {
                    lemma_valid_anchor_on_board(cand, *board);
                }
                piece = cand;
            } else {
                break ;
            }
        }
        if piece.is_position_valid(board) {
            Some(piece)
        } else {
            None
        }
    }

    /// Debug-only escape hatch: advance to the next shape identity in a
    /// fixed round-robin and reset the anchor to the fixed debug
    /// coordinate, bypassing collision validation.
    pub fn change(&mut self)
        ensures
            *final(self) == old(self).cycled(),
            final(self).wf(),
            final(self).cells_in_bounds(),
    {
        self.t = match self.t {
            Tetromino::I(_) => Tetromino::J(0),
            Tetromino::J(_) => Tetromino::L(0),
            Tetromino::L(_) => Tetromino::O,
            Tetromino::O => Tetromino::S(0),
            Tetromino::S(_) => Tetromino::T(0),
            Tetromino::T(_) => Tetromino::Z(0),
            Tetromino::Z(_) => Tetromino::I(0),
        };
        self.y = 5;
        self.x = 5;
        proof {
            lemma_rel_cells_bounded(self.t);
        }
    }

    /// Whether every cell of the piece lies on the board over an empty
    /// settled cell: the sole authority for legality.
    pub fn is_position_valid(&self, board: &Board) -> (r: bool)
        requires
            self.t.wf(),
            self.pos_near(),
        ensures
            r == self.is_valid(*board),
    {
        let coords = self.get_coords();
        let mut ok = true;
        let mut i: usize = 0;
        #[verifier::loop_isolation(false)]
        while i < 4
            invariant
                i <= 4,
                ok == (forall|j: int| 0 <= j < i ==> cell_open(*board, #[trigger] self.abs_cells()[j])),
            decreases 4 - i,
        {
            let c = coords[i];
            let here = cell_open_at(board, c.0, c.1);
            proof {
                assert((c.0 as int, c.1 as int) == self.abs_cells()[i as int]);
            }
            ok = ok && here;
            i = i + 1;
        }
        ok
    }

    /// Rotate clockwise; an invalid candidate is discarded and the piece
    /// keeps its prior shape, rotation and anchor.
    pub fn rotate_cw(&mut self, board: &Board)
        requires
            old(self).wf(),
        ensures
            final(self).wf(),
            *final(self) == (if old(self).rotated_cw().is_valid(*board) {
                old(self).rotated_cw()
            } else {
                *old(self)
            }),
            !old(self).rotated_cw().is_valid(*board) ==> *final(self) == *old(self),
            old(self).is_valid(*board) ==> final(self).is_valid(*board),
            old(self).cells_in_bounds() ==> final(self).cells_in_bounds(),
    {
        let old_t = self.t;
        self.t = match self.t {
            Tetromino::I(r) => Tetromino::I((r + 1) % 2),
            Tetromino::J(r) => Tetromino::J((r + 1) % 4),
            Tetromino::L(r) => Tetromino::L((r + 1) % 4),
            Tetromino::O => Tetromino::O,
            Tetromino::S(r) => Tetromino::S((r + 1) % 2),
            Tetromino::T(r) => Tetromino::T((r + 1) % 4),
            Tetromino::Z(r) => Tetromino::Z((r + 1) % 2),
        };
        if !self.is_position_valid(board) {
            self.t = old_t;
        }
    }

    /// Rotate counter-clockwise; an invalid candidate is discarded and the
    /// piece keeps its prior shape, rotation and anchor.
    pub fn rotate_ccw(&mut self, board: &Board)
        requires
            old(self).wf(),
        ensures
            final(self).wf(),
            *final(self) == (if old(self).rotated_ccw().is_valid(*board) {
                old(self).rotated_ccw()
            } else {
                *old(self)
            }),
            !old(self).rotated_ccw().is_valid(*board) ==> *final(self) == *old(self),
            old(self).is_valid(*board) ==> final(self).is_valid(*board),
            old(self).cells_in_bounds() ==> final(self).cells_in_bounds(),
    {
        let old_t = self.t;
        self.t = match self.t {
            Tetromino::I(r) => Tetromino::I((r + 1) % 2),
            Tetromino::J(r) => Tetromino::J((r + 3) % 4),
            Tetromino::L(r) => Tetromino::L((r + 3) % 4),
            Tetromino::O => Tetromino::O,
            Tetromino::S(r) => Tetromino::S((r + 1) % 2),
            Tetromino::T(r) => Tetromino::T((r + 3) % 4),
            Tetromino::Z(r) => Tetromino::Z((r + 1) % 2),
        };
        if !self.is_position_valid(board) {
            self.t = old_t;
        }
    }

    /// Move one row down; an invalid candidate is discarded.
    pub fn move_down(&mut self, board: &Board)
        requires
            old(self).wf(),
        ensures
            final(self).wf(),
            *final(self) == old(self).moved(*board, 1, 0),
            old(self).is_valid(*board) ==> final(self).is_valid(*board),
            old(self).cells_in_bounds() ==> final(self).cells_in_bounds(),
    {
        self.y = self.y + 1;
        if !self.is_position_valid(board) {
            self.y = self.y - 1;
        } else {
            proof {
                lemma_valid_anchor_on_board(*self, *board);
            }
        }
    }

    /// Whether the position one row down is valid, without committing: the
    /// gravity and ghost-projection predicate.
    pub fn can_move_down(&self, board: &Board) -> (r: bool)
        requires
            self.wf(),
        ensures
            r == self.shifted(1, 0).is_valid(*board),
    {
        let tmp = PositionedTetromino { t: self.t, y: self.y + 1, x: self.x };
        tmp.is_position_valid(board)
    }

    /// Move one row up (the manual nudge); an invalid candidate is
    /// discarded.
    pub fn move_up(&mut self, board: &Board)
        requires
            old(self).wf(),
        ensures
            final(self).wf(),
            *final(self) == old(self).moved(*board, -1, 0),
            old(self).is_valid(*board) ==> final(self).is_valid(*board),
            old(self).cells_in_bounds() ==> final(self).cells_in_bounds(),
    {
        self.y = self.y - 1;
        if !self.is_position_valid(board) {
            self.y = self.y + 1;
        } else {
            proof {
                lemma_valid_anchor_on_board(*self, *board);
            }
        }
    }

    /// Move one column left; an invalid candidate is discarded.
    pub fn move_left(&mut self, board: &Board)
        requires
            old(self).wf(),
        ensures
            final(self).wf(),
            *final(self) == old(self).moved(*board, 0, -1),
            old(self).is_valid(*board) ==> final(self).is_valid(*board),
            old(self).cells_in_bounds() ==> final(self).cells_in_bounds(),
    {
        self.x = self.x - 1;
        if !self.is_position_valid(board) {
            self.x = self.x + 1;
        } else {
            proof {
                lemma_valid_anchor_on_board(*self, *board);
            }
        }
    }

    /// Move one column right; an invalid candidate is discarded.
    pub fn move_right(&mut self, board: &Board)
        requires
            old(self).wf(),
        ensures
            final(self).wf(),
            *final(self) == old(self).moved(*board, 0, 1),
            old(self).is_valid(*board) ==> final(self).is_valid(*board),
            old(self).cells_in_bounds() ==> final(self).cells_in_bounds(),
    {
        self.x = self.x + 1;
        if !self.is_position_valid(board) {
            self.x = self.x - 1;
        } else {
            proof {
                lemma_valid_anchor_on_board(*self, *board);
            }
        }
    }

    /// The 4 absolute board cells occupied by the piece, from the shape
    /// table plus the anchor.
    pub fn get_coords(&self) -> (r: Vec<(i32, i32)>)
        requires
            self.t.wf(),
            self.pos_near(),
        ensures
            r@.len() == 4,
            forall|i: int|
                0 <= i < 4 ==> (#[trigger] r@[i]).0 as int == self.abs_cells()[i].0 && r@[i].1 as int
                    == self.abs_cells()[i].1,
    {
        let y = self.y;
        let x = self.x;
        match self.t {
            Tetromino::I(0) => four_coords((y, x - 1), (y, x), (y, x + 1), (y, x + 2)),
            Tetromino::I(1) => four_coords((y - 1, x), (y, x), (y + 1, x), (y + 2, x)),
            Tetromino::J(0) => four_coords((y - 1, x - 1), (y, x - 1), (y, x), (y, x + 1)),
            Tetromino::J(1) => four_coords((y - 1, x + 1), (y - 1, x), (y, x), (y + 1, x)),
            Tetromino::J(2) => four_coords((y + 1, x + 1), (y, x + 1), (y, x), (y, x - 1)),
            Tetromino::J(3) => four_coords((y + 1, x - 1), (y + 1, x), (y, x), (y - 1, x)),
            Tetromino::L(0) => four_coords((y, x - 1), (y, x), (y, x + 1), (y - 1, x + 1)),
            Tetromino::L(1) => four_coords((y - 1, x), (y, x), (y + 1, x), (y + 1, x + 1)),
            Tetromino::L(2) => four_coords((y, x + 1), (y, x), (y, x - 1), (y + 1, x - 1)),
            Tetromino::L(3) => four_coords((y + 1, x), (y, x), (y - 1, x), (y - 1, x - 1)),
            Tetromino::O => four_coords((y, x), (y + 1, x), (y, x + 1), (y + 1, x + 1)),
            Tetromino::Z(0) => four_coords((y, x - 1), (y, x), (y + 1, x), (y + 1, x + 1)),
            Tetromino::Z(1) => four_coords((y - 1, x), (y, x), (y, x - 1), (y + 1, x - 1)),
            Tetromino::T(0) => four_coords((y - 1, x), (y, x), (y, x - 1), (y, x + 1)),
            Tetromino::T(1) => four_coords((y - 1, x), (y, x), (y + 1, x), (y, x + 1)),
            Tetromino::T(2) => four_coords((y + 1, x), (y, x), (y, x - 1), (y, x + 1)),
            Tetromino::T(3) => four_coords((y - 1, x), (y, x), (y + 1, x), (y, x - 1)),
            Tetromino::S(0) => four_coords((y + 1, x - 1), (y + 1, x), (y, x), (y, x + 1)),
            Tetromino::S(1) => four_coords((y - 1, x - 1), (y, x - 1), (y, x), (y + 1, x)),
            _ => vstd::pervasive::unreached(),
        }
    }

    /// The occupancy tag written to the board when this piece locks.
    pub fn get_cell_type(&self) -> (c: Cell)
        ensures
            c == self.t.cell_spec(),
    {
        self.t.get_cell_type()
    }

    /// The tag used for this piece's ghost projection.
    pub fn get_ghost_cell_type(&self) -> (c: Cell)
        ensures
            c == self.t.ghost_cell_spec(),
    {
        self.t.get_ghost_cell_type()
    }
}

/// Whether the cell at `(cy, cx)` lies on the board and holds no settled
/// cell.
fn cell_open_at(board: &Board, cy: i32, cx: i32) -> (r: bool)
    ensures
        r == cell_open(*board, (cy as int, cx as int)),
{
    if cy < 0 || cy >= HEIGHT || cx < 0 || cx >= WIDTH {
        false
    } else {
        board[cy as usize][cx as usize] == Cell::Empty
    }
}

/// Every shape-table offset lies within the band `-1..=2` in both axes.
pub proof fn lemma_rel_cells_bounded(t: Tetromino)
    ensures
        forall|i: int|
            0 <= i < 4 ==> -1 <= (#[trigger] t.rel_cells()[i]).0 <= 2 && -1 <= t.rel_cells()[i].1
                <= 2,
        t.rel_cells().len() == 4,
{
    match t {
        Tetromino::I(_) => {},
        Tetromino::J(_) => {},
        Tetromino::L(_) => {},
        Tetromino::O => {},
        Tetromino::S(_) => {},
        Tetromino::T(_) => {},
        Tetromino::Z(_) => {},
    }
}

/// Every shape-table entry contains the offset `(0, 0)`, so a valid piece
/// has its anchor on the board.
pub proof fn lemma_valid_anchor_on_board(p: PositionedTetromino, board: Board)
    requires
        p.is_valid(board),
    ensures
        0 <= p.y < 20,
        0 <= p.x < 10,
{
    let k: int = match p.t {
        Tetromino::I(_) => 1,
        Tetromino::J(r) => if r == 0 { 2 } else if r == 1 { 2 } else { 2 },
        Tetromino::L(_) => 1,
        Tetromino::O => 0,
        Tetromino::S(_) => 2,
        Tetromino::T(_) => 1,
        Tetromino::Z(_) => 1,
    };
    assert(p.t.rel_cells()[k] == (0int, 0int));
    assert(cell_open(board, p.abs_cells()[k]));
}

/// A valid piece is well formed: its anchor is on the board and within the
/// normal band.
pub proof fn lemma_valid_is_wf(p: PositionedTetromino, board: Board)
    requires
        p.t.wf(),
        p.is_valid(board),
    ensures
        p.wf(),
        p.cells_in_bounds(),
{
    lemma_valid_anchor_on_board(p, board);
    assert forall|i: int| 0 <= i < 4 implies cell_in_range(#[trigger] p.abs_cells()[i]) by {
        assert(cell_open(board, p.abs_cells()[i]));
    }
}

/// Spawn normalization preserves the shape and column and keeps validity:
/// a piece that is valid somewhere is still valid once raised.
pub proof fn lemma_risen_valid(p: PositionedTetromino, b: Board)
    requires
        p.is_valid(b),
    ensures
        p.risen(b).is_valid(b),
        p.risen(b).t == p.t,
        p.risen(b).x == p.x,
    decreases p.y + 2,
{
    lemma_valid_anchor_on_board(p, b);
    if p.y >= -1 && p.shifted(-1, 0).is_valid(b) {
        lemma_risen_valid(p.shifted(-1, 0), b);
    }
}

/// Build the 4-element coordinate list of one shape-table entry.
fn four_coords(a: (i32, i32), b: (i32, i32), c: (i32, i32), d: (i32, i32)) -> (v: Vec<(i32, i32)>)
    ensures
        v@ =~= seq![a, b, c, d],
{
    let mut v: Vec<(i32, i32)> = Vec::new();
    v.push(a);
    v.push(b);
    v.push(c);
    v.push(d);
    v
}

} // verus!
