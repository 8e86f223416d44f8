//! The board and cell model, row clearing, scoring, and the game state
//! machine.

use vstd::prelude::*;

use crate::tetromino::{PositionedTetromino, Tetromino};

verus! {

/// `std::time::Instant` carried as an opaque reference point for the drop
/// timer.
#[verifier::external_type_specification]
#[verifier::external_body]
pub struct ExInstant(std::time::Instant);

/// Relies on std::time::Instant::now: a reading of the monotonic clock.
#[verifier::external_body]
fn now_instant() -> std::time::Instant {
    std::time::Instant::now()
}

/// Relies on std::time::Instant::elapsed: the time passed since this
/// instant was taken.
#[verifier::external_body]
fn elapsed_since(start: &std::time::Instant) -> core::time::Duration {
    start.elapsed()
}

/// Relies on std::time::Duration::as_nanos: the duration as a whole number
/// of nanoseconds.
#[verifier::external_body]
fn duration_nanos(d: &core::time::Duration) -> u128 {
    d.as_nanos()
}

/// Board height in rows; row 0 is the top row.
pub const HEIGHT: i32 = 20;

/// Board width in columns.
pub const WIDTH: i32 = 10;

/// The row of the fixed spawn anchor.
pub const PIECE_START_Y: i32 = 1;

/// The column of the fixed spawn anchor.
pub const PIECE_START_X: i32 = 5;

/// One cell of the board: empty, settled with the colour of the shape that
/// locked there, or marked as part of the ghost projection of a shape.
#[derive(Clone, Copy, Debug, PartialEq, Eq, Structural)]
pub enum Cell {
    Empty,
    IBlock,
    JBlock,
    LBlock,
    OBlock,
    SBlock,
    TBlock,
    ZBlock,
    IGhostBlock,
    JGhostBlock,
    LGhostBlock,
    OGhostBlock,
    SGhostBlock,
    TGhostBlock,
    ZGhostBlock,
}

/// The grid of settled cells, indexed `[row][column]` with row 0 at the top.
pub type Board = [[Cell; 10]; 20];

/// The small grid used for the next-piece preview.
pub type NextPiece = [[Cell; 4]; 2];

/// The board as a sequence of 20 rows of 10 cells each.
pub open spec fn board_view(b: Board) -> Seq<Seq<Cell>> {
    Seq::new(20, |r: int| b@[r]@)
}

/// A coordinate pair that lies on the board.
pub open spec fn cell_in_range(cell: (int, int)) -> bool {
    0 <= cell.0 < 20 && 0 <= cell.1 < 10
}

/// A coordinate pair that lies on the board and holds no settled cell.
pub open spec fn cell_open(b: Board, cell: (int, int)) -> bool {
    cell_in_range(cell) && board_view(b)[cell.0][cell.1] == Cell::Empty
}

/// One buffered player command, consumed once per tick.
#[derive(Clone, Copy, Debug, PartialEq, Eq, Structural)]
pub enum Command {
    Left,
    Right,
    Drop,
    Up,
    CounterClockwise,
    Clockwise,
    ChangePiece,
    NoOp,
}

/// The status line shown under the board.
#[derive(Clone, Copy, Debug, PartialEq, Eq, Structural)]
pub enum Message {
    Welcome,
    Encourage,
    Single,
    Double,
    Triple,
    Tetris,
    Lost,
}

/// The text of a status message.
pub open spec fn message_text(m: Message) -> Seq<char> {
    match m {
        Message::Welcome => "Welcome to Tetris!"@,
        Message::Encourage => "You can do it!"@,
        Message::Single => "Good job!"@,
        Message::Double => "Wow!"@,
        Message::Triple => "That's amazing!"@,
        Message::Tetris => "TETRIS!!!!"@,
        Message::Lost => "You lost!"@,
    }
}

/// The status message announcing a clear of `k` rows.
pub open spec fn clear_message(k: int) -> Message {
    if k == 1 {
        Message::Single
    } else if k == 2 {
        Message::Double
    } else if k == 3 {
        Message::Triple
    } else if k == 4 {
        Message::Tetris
    } else {
        Message::Encourage
    }
}

/// The score awarded for clearing `k` rows in one lock event.
pub open spec fn score_delta(k: int) -> int {
    if k == 1 {
        100
    } else if k == 2 {
        300
    } else if k == 3 {
        500
    } else if k == 4 {
        800
    } else {
        0
    }
}

/// A row with no empty cell; only full rows are cleared.
pub open spec fn row_full(row: Seq<Cell>) -> bool {
    forall|c: int| 0 <= c < 10 ==> row[c] != Cell::Empty
}

/// A row of 10 empty cells.
pub open spec fn empty_row() -> Seq<Cell> {
    Seq::new(10, |c: int| Cell::Empty)
}

/// `k` empty rows.
pub open spec fn empty_rows(k: int) -> Seq<Seq<Cell>> {
    Seq::new(k as nat, |i: int| empty_row())
}

/// The rows from index `u` down that are not full, in order: the rows that
/// survive a clearing pass.
pub open spec fn kept_rows_from(bs: Seq<Seq<Cell>>, u: int) -> Seq<Seq<Cell>>
    decreases 20 - u,
{
    if u < 0 || u >= 20 {
        Seq::<Seq<Cell>>::empty()
    } else if row_full(bs[u]) {
        kept_rows_from(bs, u + 1)
    } else {
        seq![bs[u]] + kept_rows_from(bs, u + 1)
    }
}

/// The number of full rows from index `u` down.
pub open spec fn full_rows_from(bs: Seq<Seq<Cell>>, u: int) -> int
    decreases 20 - u,
{
    if u < 0 || u >= 20 {
        0
    } else if row_full(bs[u]) {
        1 + full_rows_from(bs, u + 1)
    } else {
        full_rows_from(bs, u + 1)
    }
}

/// The board after one clearing pass: every full row removed, the surviving
/// rows pushed to the bottom in order, and as many empty rows on top.
pub open spec fn cleared_view(bs: Seq<Seq<Cell>>) -> Seq<Seq<Cell>> {
    empty_rows(20 - kept_rows_from(bs, 0).len()) + kept_rows_from(bs, 0)
}

/// The number of rows a clearing pass removes.
pub open spec fn cleared_count(bs: Seq<Seq<Cell>>) -> int {
    full_rows_from(bs, 0)
}

/// Kept and full rows from index `u` partition the 20 - `u` rows.
pub proof fn lemma_kept_full_partition(bs: Seq<Seq<Cell>>, u: int)
    requires
        0 <= u <= 20,
    ensures
        kept_rows_from(bs, u).len() + full_rows_from(bs, u) == 20 - u,
    decreases 20 - u,
{
    if u < 20 {
        lemma_kept_full_partition(bs, u + 1);
    }
}

/// One board cell overwritten.
pub open spec fn put_cell(bs: Seq<Seq<Cell>>, r: int, c: int, v: Cell) -> Seq<Seq<Cell>> {
    bs.update(r, bs[r].update(c, v))
}

/// A list of cells overwritten with one tag, in order: the lock write.
pub open spec fn write_cells(bs: Seq<Seq<Cell>>, cells: Seq<(int, int)>, v: Cell) -> Seq<Seq<
    Cell,
>>
    decreases cells.len(),
{
    if cells.len() == 0 {
        bs
    } else {
        put_cell(write_cells(bs, cells.drop_last(), v), cells.last().0, cells.last().1, v)
    }
}

/// Lock correctness: writing a list of cells of an `h`-by-`w` grid writes
/// exactly those cells with the given tag and leaves every other cell
/// unchanged.
pub proof fn lemma_write_cells_exact(
    bs: Seq<Seq<Cell>>,
    cells: Seq<(int, int)>,
    v: Cell,
    h: int,
    w: int,
)
    requires
        bs.len() == h,
        forall|r: int| 0 <= r < h ==> (#[trigger] bs[r]).len() == w,
        forall|i: int| 0 <= i < cells.len() ==> 0 <= (#[trigger] cells[i]).0 < h && 0 <= cells[i].1 < w,
    ensures
        write_cells(bs, cells, v).len() == h,
        forall|r: int| 0 <= r < h ==> (#[trigger] write_cells(bs, cells, v)[r]).len() == w,
        forall|r: int, c: int|
            0 <= r < h && 0 <= c < w ==> #[trigger] write_cells(bs, cells, v)[r][c] == (
            if cells.contains((r, c)) {
                v
            } else {
                bs[r][c]
            }),
    decreases cells.len(),
{
    if cells.len() > 0 {
        lemma_write_cells_exact(bs, cells.drop_last(), v, h, w);
        let prev = write_cells(bs, cells.drop_last(), v);
        let last = cells.last();
        assert forall|r: int, c: int| 0 <= r < h && 0 <= c < w implies #[trigger] write_cells(
            bs,
            cells,
            v,
        )[r][c] == (
        if cells.contains((r, c)) {
            v
        } else {
            bs[r][c]
        }) by {
            if (r, c) == last {
                assert(cells.contains((r, c)));
            } else {
                assert(write_cells(bs, cells, v)[r][c] == prev[r][c]);
                if cells.contains((r, c)) {
                    let i = choose|i: int| 0 <= i < cells.len() && cells[i] == (r, c);
                    assert(cells.drop_last()[i] == (r, c));
                    assert(cells.drop_last().contains((r, c)));
                } else {
                    if cells.drop_last().contains((r, c)) {
                        let i = choose|i: int|
                            0 <= i < cells.drop_last().len() && cells.drop_last()[i] == (r, c);
                        assert(cells[i] == (r, c));
                    }
                }
            }
        }
    }
}

/// Overwrite one board cell.
#[verifier::loop_isolation(false)]
fn set_board_cell(b: &mut Board, y: usize, x: usize, v: Cell)
    requires
        y < 20,
        x < 10,
    ensures
        board_view(*final(b)) == put_cell(board_view(*old(b)), y as int, x as int, v),
{
    let mut row: [Cell; 10] = b[y];
    row[x] = v;
    b[y] = row;
    proof {
        assert(board_view(*b) =~~= put_cell(board_view(*old(b)), y as int, x as int, v));
    }
}

/// Whether row `y` holds no empty cell.
#[verifier::loop_isolation(false)]
fn is_row_full(b: &Board, y: usize) -> (r: bool)
    requires
        y < 20,
    ensures
        r == row_full(board_view(*b)[y as int]),
{
    let mut x: usize = 0;
    let mut full = true;
    while x < 10
        invariant
            x <= 10,
            full == (forall|c: int| 0 <= c < x ==> board_view(*b)[y as int][c] != Cell::Empty),
        decreases 10 - x,
    {
        let cell = b[y][x];
        proof {
            assert(cell == board_view(*b)[y as int][x as int]);
        }
        full = full && !(cell == Cell::Empty);
        x = x + 1;
    }
    full
}

/// Shift every row above `cleared_y` down by one and reset row 0: the step
/// that removes one full row.
#[verifier::loop_isolation(false)]
fn shift_rows_down(b: &mut Board, cleared_y: usize)
    requires
        cleared_y < 20,
    ensures
        board_view(*final(b)) == seq![empty_row()] + board_view(*old(b)).subrange(
            0,
            cleared_y as int,
        ) + board_view(*old(b)).subrange(cleared_y as int + 1, 20),
{
    let ghost orig = board_view(*old(b));
    let mut y = cleared_y;
    while y > 0
        invariant
            y <= cleared_y,
            forall|r: int| 0 <= r <= y ==> board_view(*b)[r] == orig[r],
            forall|r: int| y < r <= cleared_y ==> board_view(*b)[r] == orig[r - 1],
            forall|r: int| cleared_y < r < 20 ==> board_view(*b)[r] == orig[r],
        decreases y,
    {
        let ghost yy = y as int;
        let row: [Cell; 10] = b[y - 1];
        let ghost prev = *b;
        b[y] = row;
        y = y - 1;
        proof {
            assert(row@ == board_view(prev)[yy - 1]);
            assert(board_view(prev)[yy - 1] == orig[yy - 1]);
            assert(b@ == prev@.update(yy, row));
            assert forall|r: int| 0 <= r <= y implies board_view(*b)[r] == orig[r] by {
                assert(b@[r] == prev@[r]);
                assert(board_view(prev)[r] == orig[r]);
            }
            assert forall|r: int| y < r <= cleared_y implies board_view(*b)[r] == orig[r - 1] by {
                if r == yy {
                    assert(board_view(*b)[yy] == row@);
                } else {
                    assert(b@[r] == prev@[r]);
                    assert(board_view(prev)[r] == orig[r - 1]);
                }
            }
            assert forall|r: int| cleared_y < r < 20 implies board_view(*b)[r] == orig[r] by {
                assert(b@[r] == prev@[r]);
                assert(board_view(prev)[r] == orig[r]);
            }
        }
    }
    let ghost prev = *b;
    b[0] = [Cell::Empty; 10];
    proof {
        assert(b@ == prev@.update(0, b@[0]));
        assert(board_view(*b)[0] =~= empty_row());
        let target = seq![empty_row()] + orig.subrange(0, cleared_y as int) + orig.subrange(
            cleared_y as int + 1,
            20,
        );
        assert forall|r: int| 0 <= r < 20 implies board_view(*b)[r] == target[r] by {
            if r == 0 {
                assert(board_view(*b)[0] == empty_row());
            } else {
                assert(b@[r] == prev@[r]);
                if r <= cleared_y {
                    assert(board_view(prev)[r] == orig[r - 1]);
                } else {
                    assert(board_view(prev)[r] == orig[r]);
                }
            }
        }
        assert(board_view(*b) =~~= target);
    }
}

/// The board mid-way through a clearing pass: the rows already processed
/// have settled at the bottom, the first `u` original rows still wait above
/// them, under the empty rows pushed in so far.
spec fn mid_clear_view(orig: Seq<Seq<Cell>>, u: int) -> Seq<Seq<Cell>> {
    empty_rows(20 - u - kept_rows_from(orig, u).len()) + orig.subrange(0, u) + kept_rows_from(
        orig,
        u,
    )
}

/// Remove every full row, scanning bottom to top and re-testing a row index
/// after each shift; returns how many rows were removed.
#[verifier::loop_isolation(false)]
fn clear_rows(b: &mut Board) -> (k: u32)
    ensures
        board_view(*final(b)) == cleared_view(board_view(*old(b))),
        k == cleared_count(board_view(*old(b))),
{
    let ghost orig = board_view(*b);
    let mut num_cleared: u32 = 0;
    let mut y: i32 = HEIGHT - 1;
    let ghost mut u: int = 20;
    proof {
        assert(board_view(*b) =~~= mid_clear_view(orig, 20));
    }
    while y >= 0
        invariant
            -1 <= y <= 19,
            0 <= u <= 20,
            u <= y + 1,
            num_cleared == full_rows_from(orig, u),
            board_view(*b) == mid_clear_view(orig, u),
            u > 0 ==> 20 - u - kept_rows_from(orig, u).len() + u == y + 1,
            u == 0 ==> y + 1 <= 20 - kept_rows_from(orig, 0).len(),
        decreases u + y + 1,
    {
        proof {
            lemma_kept_full_partition(orig, u);
            if u > 0 {
                lemma_kept_full_partition(orig, u - 1);
            }
        }
        if is_row_full(b, y as usize) {
            let ghost kc = 20 - u - kept_rows_from(orig, u).len();
            proof {
                // A row in the already-settled or empty region is never
                // full, so the tested row is original row `u - 1`.
                if u == 0 {
                    assert(board_view(*b)[y as int] == empty_row());
                    assert(empty_row()[0] == Cell::Empty);
                    assert(false);
                }
                assert(board_view(*b)[y as int] == orig[u - 1]);
            }
            shift_rows_down(b, y as usize);
            num_cleared = num_cleared + 1;
            proof {
                let prev = mid_clear_view(orig, u);
                assert(prev.subrange(0, y as int) =~~= empty_rows(kc) + orig.subrange(0, u - 1));
                assert(prev.subrange(y as int + 1, 20) =~~= kept_rows_from(orig, u));
                assert(kept_rows_from(orig, u - 1) == kept_rows_from(orig, u));
                assert(board_view(*b) =~~= mid_clear_view(orig, u - 1));
                u = u - 1;
            }
        } else {
            proof {
                if u > 0 {
                    assert(board_view(*b)[y as int] == orig[u - 1]);
                    assert(kept_rows_from(orig, u - 1) == seq![orig[u - 1]] + kept_rows_from(
                        orig,
                        u,
                    ));
                    assert(mid_clear_view(orig, u - 1) =~~= mid_clear_view(orig, u));
                    u = u - 1;
                }
            }
            y = y - 1;
        }
    }
    proof {
        assert(u == 0);
        assert(board_view(*b) =~~= cleared_view(orig));
        lemma_kept_full_partition(orig, 0);
    }
    num_cleared
}

/// The drop interval a new game starts with, in nanoseconds.
pub const INITIAL_DROP_INTERVAL_NS: u64 = 500_000_000;

/// A score increased by a delta, saturating at the integer maximum.
pub open spec fn score_plus(s: int, d: int) -> int {
    if s + d <= i32::MAX {
        s + d
    } else {
        i32::MAX as int
    }
}

/// The drop interval after a score change: multiplied by 0.8 when the score
/// crossed into a new multiple of 1000, else unchanged.
pub open spec fn interval_update(s_old: int, s_new: int, iv: u64) -> int {
    if s_new / 1000 > s_old / 1000 {
        iv * 8 / 10
    } else {
        iv as int
    }
}

/// The whole game session: the settled board, the falling piece (absent
/// once the game is over), the pending next shape, score, drop timing, and
/// the status message. The sole unit of mutable state.
pub struct Game {
    debug_msg: Message,
    settled_pieces: Board,
    active_piece: Option<PositionedTetromino>,
    next_piece: Tetromino,
    epoch: std::time::Instant,
    last_drop_ns: u64,
    score: i32,
    drop_interval_ns: u64,
}

impl Game {
    /// The session invariant every public operation preserves: the falling
    /// piece, if any, is well formed and lies on the board; the next shape
    /// is well formed; the score is non-negative; the drop interval never
    /// exceeds its starting value.
    pub closed spec fn wf(self) -> bool {
        &&& match self.active_piece {
            Some(p) => p.wf() && p.cells_in_bounds(),
            None => true,
        }
        &&& self.next_piece.wf()
        &&& self.score >= 0
        &&& self.drop_interval_ns <= INITIAL_DROP_INTERVAL_NS
    }

    /// The settled board.
    pub closed spec fn spec_board(self) -> Board {
        self.settled_pieces
    }

    /// The falling piece; `None` means the game is over.
    pub closed spec fn spec_active(self) -> Option<PositionedTetromino> {
        self.active_piece
    }

    /// The pending next shape.
    pub closed spec fn spec_next(self) -> Tetromino {
        self.next_piece
    }

    /// The cumulative score.
    pub closed spec fn spec_score(self) -> int {
        self.score as int
    }

    /// The current drop interval in nanoseconds.
    pub closed spec fn spec_interval_ns(self) -> u64 {
        self.drop_interval_ns
    }

    /// The drop-timer reference: nanoseconds from the session epoch to the
    /// last automatic drop.
    pub closed spec fn spec_last_drop_ns(self) -> u64 {
        self.last_drop_ns
    }

    /// The current status message.
    pub closed spec fn spec_message(self) -> Message {
        self.debug_msg
    }

    /// The session epoch the drop timer is referenced to.
    pub closed spec fn spec_epoch(self) -> std::time::Instant {
        self.epoch
    }

    /// Add points to the score, saturating, and shorten the drop interval by
    /// a factor of 0.8 each time the score crosses a new multiple of 1000.
    fn increase_score(&mut self, points: i32)
        requires
            0 < points <= 800,
            old(self).score >= 0,
            old(self).drop_interval_ns <= INITIAL_DROP_INTERVAL_NS,
        ensures
            final(self).score as int == score_plus(old(self).score as int, points as int),
            final(self).drop_interval_ns as int == interval_update(
                old(self).score as int,
                final(self).score as int,
                old(self).drop_interval_ns,
            ),
            final(self).score >= 0,
            final(self).drop_interval_ns <= old(self).drop_interval_ns,
            final(self).debug_msg == old(self).debug_msg,
            final(self).settled_pieces == old(self).settled_pieces,
            final(self).active_piece == old(self).active_piece,
            final(self).next_piece == old(self).next_piece,
            final(self).epoch == old(self).epoch,
            final(self).last_drop_ns == old(self).last_drop_ns,
    {
        let old_score = self.score;
        if self.score <= i32::MAX - points {
            self.score = self.score + points;
        } else {
            self.score = i32::MAX;
        }
        if (self.score as u64) / 1000 > (old_score as u64) / 1000 {
            proof {
                assert(self.drop_interval_ns * 8 / 10 <= self.drop_interval_ns) by (nonlinear_arith)
                    requires self.drop_interval_ns >= 0;
            }
            self.drop_interval_ns = self.drop_interval_ns * 8 / 10;
        }
    }

    /// Clear every full row, award the score for the number of rows cleared
    /// in this one event, set the status message, and apply the difficulty
    /// ramp.
    pub fn clear_full_rows(&mut self)
        requires
            old(self).wf(),
        ensures
            final(self).wf(),
            board_view(final(self).spec_board()) == cleared_view(
                board_view(old(self).spec_board()),
            ),
            final(self).spec_score() == score_plus(
                old(self).spec_score(),
                score_delta(cleared_count(board_view(old(self).spec_board()))),
            ),
            final(self).spec_interval_ns() as int == interval_update(
                old(self).spec_score(),
                final(self).spec_score(),
                old(self).spec_interval_ns(),
            ),
            final(self).spec_message() == clear_message(
                cleared_count(board_view(old(self).spec_board())),
            ),
            final(self).spec_active() == old(self).spec_active(),
            final(self).spec_next() == old(self).spec_next(),
            final(self).spec_last_drop_ns() == old(self).spec_last_drop_ns(),
            final(self).spec_epoch() == old(self).spec_epoch(),
            final(self).spec_interval_ns() <= old(self).spec_interval_ns(),
    {
        let mut board = self.settled_pieces;
        let num_cleared = clear_rows(&mut board);
        self.settled_pieces = board;
        match num_cleared {
            1 => {
                self.debug_msg = Message::Single;
                self.increase_score(100);
            },
            2 => {
                self.debug_msg = Message::Double;
                self.increase_score(300);
            },
            3 => {
                self.debug_msg = Message::Triple;
                self.increase_score(500);
            },
            4 => {
                self.debug_msg = Message::Tetris;
                self.increase_score(800);
            },
            _ => {
                self.debug_msg = Message::Encourage;
            },
        }
    }
}

/// Write the 4 cells of a piece into the board with one tag. `coords` is
/// the executable form of the ghost cell list `cells`.
#[verifier::loop_isolation(false)]
fn write_piece_cells(
    b: &mut Board,
    coords: &Vec<(i32, i32)>,
    v: Cell,
    Ghost(cells): Ghost<Seq<(int, int)>>,
)
    requires
        coords@.len() == 4,
        cells.len() == 4,
        forall|i: int|
            0 <= i < 4 ==> (#[trigger] coords@[i]).0 as int == cells[i].0 && coords@[i].1 as int
                == cells[i].1,
        forall|i: int| 0 <= i < 4 ==> cell_in_range(#[trigger] cells[i]),
    ensures
        board_view(*final(b)) == write_cells(board_view(*old(b)), cells, v),
{
    let mut i: usize = 0;
    while i < 4
        invariant
            i <= 4,
            board_view(*b) == write_cells(board_view(*old(b)), cells.subrange(0, i as int), v),
        decreases 4 - i,
    {
        let c = coords[i];
        set_board_cell(b, c.0 as usize, c.1 as usize, v);
        proof {
            let done = cells.subrange(0, i + 1);
            assert(done.drop_last() =~= cells.subrange(0, i as int));
            assert(done.last() == cells[i as int]);
        }
        i = i + 1;
    }
    proof {
        assert(cells.subrange(0, 4) =~= cells);
    }
}

/// The falling piece after one command is dispatched to it: each candidate
/// is committed only if valid, except the debug shape cycle, which bypasses
/// validation.
pub open spec fn apply_command(p: PositionedTetromino, b: Board, cmd: Command) -> PositionedTetromino {
    match cmd {
        Command::CounterClockwise => if p.rotated_ccw().is_valid(b) {
            p.rotated_ccw()
        } else {
            p
        },
        Command::Clockwise => if p.rotated_cw().is_valid(b) {
            p.rotated_cw()
        } else {
            p
        },
        Command::Left => p.moved(b, 0, -1),
        Command::Right => p.moved(b, 0, 1),
        Command::Drop => p.moved(b, 1, 0),
        Command::Up => p.moved(b, -1, 0),
        Command::ChangePiece => p.cycled(),
        Command::NoOp => p,
    }
}

impl Game {
    /// Whether enough time has passed since the last automatic drop for
    /// gravity to act.
    pub closed spec fn drop_due(self, now_ns: u64) -> bool {
        now_ns >= self.last_drop_ns && now_ns - self.last_drop_ns >= self.drop_interval_ns
    }

    /// What one lock event does: the piece's 4 cells are written with its
    /// tag, full rows are cleared and scored, a new piece is spawned from
    /// the pending shape (its failure is the game-over signal), the pending
    /// shape is replaced by `incoming`, and the drop timer advances by one
    /// (possibly shortened) interval.
    pub closed spec fn lock_rel(
        pre: Game,
        post: Game,
        p: PositionedTetromino,
        incoming: Tetromino,
    ) -> bool {
        let locked = write_cells(board_view(pre.settled_pieces), p.abs_cells(), p.t.cell_spec());
        let k = cleared_count(locked);
        let s2 = score_plus(pre.score as int, score_delta(k));
        &&& board_view(post.settled_pieces) == cleared_view(locked)
        &&& post.score as int == s2
        &&& post.drop_interval_ns as int == interval_update(
            pre.score as int,
            s2,
            pre.drop_interval_ns,
        )
        &&& post.active_piece == PositionedTetromino::place_spec(
            pre.next_piece,
            post.settled_pieces,
        )
        &&& post.next_piece == incoming
        &&& post.debug_msg == (if post.active_piece is None {
            Message::Lost
        } else {
            clear_message(k)
        })
        &&& post.last_drop_ns == pre.last_drop_ns + post.drop_interval_ns
        &&& post.epoch == pre.epoch
    }

    /// What one tick does, given the clock reading `now_ns` and the shape
    /// `incoming` drawn to refill the pending slot: nothing when the game is
    /// over; otherwise the command is applied, and if a drop is due the
    /// piece moves down or, when it cannot, locks.
    pub closed spec fn step_rel(
        pre: Game,
        post: Game,
        cmd: Command,
        now_ns: u64,
        incoming: Tetromino,
    ) -> bool {
        match pre.active_piece {
            None => post == pre,
            Some(p0) => {
                let p1 = apply_command(p0, pre.settled_pieces, cmd);
                if !pre.drop_due(now_ns) {
                    post == Game { active_piece: Some(p1), ..pre }
                } else if p1.shifted(1, 0).is_valid(pre.settled_pieces) {
                    post == Game {
                        active_piece: Some(p1.shifted(1, 0)),
                        last_drop_ns: (pre.last_drop_ns + pre.drop_interval_ns) as u64,
                        ..pre
                    }
                } else {
                    Game::lock_rel(pre, post, p1, incoming)
                }
            },
        }
    }

    /// One tick of the state machine with its outside inputs made explicit:
    /// `now_ns` is the clock reading (nanoseconds since the session epoch)
    /// and `incoming` is the shape that refills the pending slot if this
    /// tick locks the piece. Deterministic, so a test can drive whole games.
    pub fn step(&mut self, command: Command, now_ns: u64, incoming: Tetromino)
        requires
            old(self).wf(),
            incoming.wf(),
        ensures
            final(self).wf(),
            Game::step_rel(*old(self), *final(self), command, now_ns, incoming),
            old(self).spec_active() is None ==> *final(self) == *old(self),
    {
        let p0 = match &self.active_piece {
            Some(p) => *p,
            None => {
                return ;
            },
        };
        let board = self.settled_pieces;
        let mut piece = p0;
        match command {
            Command::CounterClockwise => piece.rotate_ccw(&board),
            Command::Clockwise => piece.rotate_cw(&board),
            Command::Left => piece.move_left(&board),
            Command::Right => piece.move_right(&board),
            Command::Drop => piece.move_down(&board),
            Command::Up => piece.move_up(&board),
            Command::ChangePiece => piece.change(),
            Command::NoOp => {},
        }
        proof {
            assert(piece == apply_command(p0, board, command));
        }
        let due = now_ns >= self.last_drop_ns && now_ns - self.last_drop_ns
            >= self.drop_interval_ns;
        if due {
            if piece.can_move_down(&board) {
                piece.move_down(&board);
                self.active_piece = Some(piece);
            } else {
                // Lock: merge the piece into the board, clear and score,
                // spawn from the pending shape, refill the pending slot.
                let coords = piece.get_coords();
                let tag = piece.get_cell_type();
                let mut locked = self.settled_pieces;
                write_piece_cells(&mut locked, &coords, tag, Ghost(piece.abs_cells()));
                self.settled_pieces = locked;
                self.clear_full_rows();
                self.active_piece = PositionedTetromino::place(
                    &self.next_piece,
                    &self.settled_pieces,
                );
                self.next_piece = incoming;
                if self.active_piece.is_none() {
                    self.debug_msg = Message::Lost;
                }
                proof {
                    if self.active_piece is Some {
                        crate::tetromino::lemma_valid_is_wf(
                            self.active_piece->0,
                            self.settled_pieces,
                        );
                    }
                    assert(self.drop_interval_ns * 8 / 10 <= self.drop_interval_ns) by (
                    nonlinear_arith)
                        requires self.drop_interval_ns >= 0;
                }
            }
            self.last_drop_ns = self.last_drop_ns + self.drop_interval_ns;
        } else {
            self.active_piece = Some(piece);
        }
    }
}

/// The all-empty board a session starts with.
pub open spec fn empty_board_view() -> Seq<Seq<Cell>> {
    Seq::new(20, |r: int| empty_row())
}

/// The preview grid as a sequence of 2 rows of 4 cells each.
pub open spec fn preview_view(g: NextPiece) -> Seq<Seq<Cell>> {
    Seq::new(2, |r: int| g@[r]@)
}

/// What one rendered board cell shows: the live piece over the ghost
/// projection over the settled cells.
pub closed spec fn rendered_cell(g: Game, r: int, c: int) -> Cell {
    match g.active_piece {
        None => board_view(g.settled_pieces)[r][c],
        Some(p) => {
            let ghost_piece = p.dropped(g.settled_pieces);
            if p.abs_cells().contains((r, c)) {
                p.t.cell_spec()
            } else if ghost_piece.abs_cells().contains((r, c)) {
                p.t.ghost_cell_spec()
            } else {
                board_view(g.settled_pieces)[r][c]
            }
        },
    }
}

/// Overwrite one preview-grid cell.
fn set_preview_cell(g: &mut NextPiece, y: usize, x: usize, v: Cell)
    requires
        y < 2,
        x < 4,
    ensures
        preview_view(*final(g)) == put_cell(preview_view(*old(g)), y as int, x as int, v),
{
    let mut row: [Cell; 4] = g[y];
    row[x] = v;
    g[y] = row;
    proof {
        assert(preview_view(*g) =~~= put_cell(preview_view(*old(g)), y as int, x as int, v));
    }
}

impl Game {
    /// Start a session: an empty board, a first piece placed at the spawn
    /// anchor, a pending next shape that differs from it, score 0, and the
    /// initial drop interval.
    pub fn new() -> (g: Game)
        ensures
            g.wf(),
            g.spec_score() == 0,
            g.spec_interval_ns() == INITIAL_DROP_INTERVAL_NS,
            g.spec_last_drop_ns() == 0,
            g.spec_message() == Message::Welcome,
            board_view(g.spec_board()) == empty_board_view(),
            g.spec_next().is_base(),
            g.spec_active() is Some,
            g.spec_active()->0.t.is_base(),
            exists|first: Tetromino|
                #![trigger PositionedTetromino::place_spec(first, g.spec_board())]
                first.is_base() && g.spec_active() == PositionedTetromino::place_spec(
                    first,
                    g.spec_board(),
                ) && g.spec_next() != first,
    {
        let settled_pieces: Board = [[Cell::Empty; 10]; 20];
        proof {
            assert(board_view(settled_pieces) =~~= empty_board_view());
        }
        let first_piece = Tetromino::new(None);
        let active_piece = PositionedTetromino::place(&first_piece, &settled_pieces);
        proof {
            // Spawning on the empty board always succeeds.
            let start = PositionedTetromino {
                t: first_piece,
                y: PIECE_START_Y,
                x: PIECE_START_X,
            };
            crate::tetromino::lemma_rel_cells_bounded(first_piece);
            assert forall|i: int| 0 <= i < 4 implies cell_open(
                settled_pieces,
                #[trigger] start.abs_cells()[i],
            ) by {
                let cell = start.abs_cells()[i];
                assert(board_view(settled_pieces)[cell.0][cell.1] == Cell::Empty);
            }
            crate::tetromino::lemma_risen_valid(start, settled_pieces);
            crate::tetromino::lemma_valid_is_wf(start.risen(settled_pieces), settled_pieces);
        }
        let next_piece = Tetromino::new(Some(&first_piece));
        Game {
            debug_msg: Message::Welcome,
            settled_pieces,
            active_piece,
            next_piece,
            epoch: now_instant(),
            last_drop_ns: 0,
            score: 0,
            drop_interval_ns: INITIAL_DROP_INTERVAL_NS,
        }
    }

    /// Rebuild a session from its observable parts, with the drop timer
    /// referenced to now: the deterministic entry point that lets a test or
    /// tool drive the state machine from any chosen position.
    pub fn with_state(
        settled_pieces: Board,
        active_piece: Option<PositionedTetromino>,
        next_piece: Tetromino,
        score: i32,
        drop_interval_ns: u64,
        last_drop_ns: u64,
    ) -> (g: Game)
        requires
            match active_piece {
                Some(p) => p.wf() && p.cells_in_bounds(),
                None => true,
            },
            next_piece.wf(),
            score >= 0,
            drop_interval_ns <= INITIAL_DROP_INTERVAL_NS,
        ensures
            g.wf(),
            g.spec_board() == settled_pieces,
            g.spec_active() == active_piece,
            g.spec_next() == next_piece,
            g.spec_score() == score as int,
            g.spec_interval_ns() == drop_interval_ns,
            g.spec_last_drop_ns() == last_drop_ns,
            g.spec_message() == Message::Welcome,
    {
        Game {
            debug_msg: Message::Welcome,
            settled_pieces,
            active_piece,
            next_piece,
            epoch: now_instant(),
            last_drop_ns,
            score,
            drop_interval_ns,
        }
    }

    /// One tick driven by the real clock and sequencer: read the elapsed
    /// time, draw the shape that would refill the pending slot, and take
    /// one deterministic step with them.
    pub fn tick(&mut self, command: Command)
        requires
            old(self).wf(),
        ensures
            final(self).wf(),
            old(self).spec_active() is None ==> *final(self) == *old(self),
            exists|now_ns: u64, incoming: Tetromino|
                incoming.is_base() && #[trigger] Game::step_rel(
                    *old(self),
                    *final(self),
                    command,
                    now_ns,
                    incoming,
                ),
    {
        if self.active_piece.is_none() {
            proof {
                assert(Game::step_rel(*self, *self, command, 0u64, Tetromino::I(0)));
            }
            return ;
        }
        let d = elapsed_since(&self.epoch);
        let ns = duration_nanos(&d);
        let now_ns: u64 = if ns > u64::MAX as u128 {
            u64::MAX
        } else {
            ns as u64
        };
        let incoming = Tetromino::new(Some(&self.next_piece));
        self.step(command, now_ns, incoming);
    }

    /// The settled board overlaid with the ghost projection, overlaid with
    /// the live piece.
    pub fn render_board(&self) -> (b: Board)
        requires
            self.wf(),
        ensures
            forall|r: int, c: int|
                0 <= r < 20 && 0 <= c < 10 ==> board_view(b)[r][c] == rendered_cell(*self, r, c),
    {
        let mut board = self.settled_pieces;
        let active_piece = match &self.active_piece {
            Some(p) => *p,
            None => {
                return board;
            },
        };
        // Project the ghost: drop a copy as far as it can go.
        let mut preview_piece = active_piece;
        #[verifier::loop_isolation(false)]
        while preview_piece.can_move_down(&self.settled_pieces)
            invariant
                preview_piece.wf(),
                preview_piece.cells_in_bounds(),
                preview_piece.t == active_piece.t,
                preview_piece.dropped(self.settled_pieces) == active_piece.dropped(
                    self.settled_pieces,
                ),
            decreases 26 - preview_piece.y,
        {
            proof {
                crate::tetromino::lemma_valid_anchor_on_board(
                    preview_piece.shifted(1, 0),
                    self.settled_pieces,
                );
            }
            preview_piece.move_down(&self.settled_pieces);
        }
        let ghost_piece = preview_piece;
        proof {
            assert(ghost_piece.dropped(self.settled_pieces) == ghost_piece);
            assert(ghost_piece == active_piece.dropped(self.settled_pieces));
        }
        let ghost bv0 = board_view(self.settled_pieces);
        let ghost_coords = ghost_piece.get_coords();
        write_piece_cells(
            &mut board,
            &ghost_coords,
            ghost_piece.get_ghost_cell_type(),
            Ghost(ghost_piece.abs_cells()),
        );
        let live_coords = active_piece.get_coords();
        write_piece_cells(
            &mut board,
            &live_coords,
            active_piece.get_cell_type(),
            Ghost(active_piece.abs_cells()),
        );
        proof {
            let mid = write_cells(bv0, ghost_piece.abs_cells(), ghost_piece.t.ghost_cell_spec());
            lemma_write_cells_exact(
                bv0,
                ghost_piece.abs_cells(),
                ghost_piece.t.ghost_cell_spec(),
                20,
                10,
            );
            lemma_write_cells_exact(
                mid,
                active_piece.abs_cells(),
                active_piece.t.cell_spec(),
                20,
                10,
            );
            assert forall|r: int, c: int| 0 <= r < 20 && 0 <= c < 10 implies board_view(board)[r][c]
                == rendered_cell(*self, r, c) by {
                assert(self.active_piece->0 == active_piece);
            }
        }
        board
    }

    /// The next shape's preview offsets tagged with its cell type, inside a
    /// 2-row, 4-column grid.
    pub fn render_next_piece(&self) -> (grid: NextPiece)
        requires
            self.wf(),
        ensures
            forall|r: int, c: int|
                0 <= r < 2 && 0 <= c < 4 ==> preview_view(grid)[r][c] == (
                if self.spec_next().preview_cells().contains((r, c)) {
                    self.spec_next().cell_spec()
                } else {
                    Cell::Empty
                }),
    {
        let mut grid: NextPiece = [[Cell::Empty; 4]; 2];
        proof {
            assert(preview_view(grid) =~~= Seq::new(2, |r: int| Seq::new(4, |c: int| Cell::Empty)));
        }
        let ghost empty_grid = preview_view(grid);
        let coords = self.next_piece.get_preview_coords();
        let tag = self.next_piece.get_cell_type();
        let mut i: usize = 0;
        #[verifier::loop_isolation(false)]
        while i < 4
            invariant
                i <= 4,
                preview_view(grid) == write_cells(
                    empty_grid,
                    self.spec_next().preview_cells().subrange(0, i as int),
                    self.spec_next().cell_spec(),
                ),
            decreases 4 - i,
        {
            let c = coords[i];
            set_preview_cell(&mut grid, c.0 as usize, c.1 as usize, tag);
            proof {
                let done = self.spec_next().preview_cells().subrange(0, i + 1);
                assert(done.drop_last() =~= self.spec_next().preview_cells().subrange(
                    0,
                    i as int,
                ));
                assert(done.last() == self.spec_next().preview_cells()[i as int]);
            }
            i = i + 1;
        }
        proof {
            assert(self.spec_next().preview_cells().subrange(0, 4)
                =~= self.spec_next().preview_cells());
            lemma_write_cells_exact(
                empty_grid,
                self.spec_next().preview_cells(),
                self.spec_next().cell_spec(),
                2,
                4,
            );
        }
        grid
    }

    /// The current status message.
    pub fn render_message(&self) -> (m: &'static str)
        ensures
            m@ == message_text(self.spec_message()),
    {
        match self.debug_msg {
            Message::Welcome => "Welcome to Tetris!",
            Message::Encourage => "You can do it!",
            Message::Single => "Good job!",
            Message::Double => "Wow!",
            Message::Triple => "That's amazing!",
            Message::Tetris => "TETRIS!!!!",
            Message::Lost => "You lost!",
        }
    }

    /// The cumulative score.
    pub fn render_score(&self) -> (s: i32)
        ensures
            s as int == self.spec_score(),
    {
        self.score
    }
}

/// The playing invariant: after any step whose command is not the debug
/// shape cycle, a falling piece that occupied only empty board cells still
/// does — every collision-checked mutator discards invalid candidates, and
/// a freshly spawned piece is born valid.
pub proof fn lemma_step_keeps_piece_valid(
    pre: Game,
    post: Game,
    cmd: Command,
    now_ns: u64,
    incoming: Tetromino,
)
    requires
        Game::step_rel(pre, post, cmd, now_ns, incoming),
        cmd != Command::ChangePiece,
        match pre.spec_active() {
            Some(p) => p.is_valid(pre.spec_board()),
            None => true,
        },
    ensures
        match post.spec_active() {
            Some(p) => p.is_valid(post.spec_board()),
            None => true,
        },
{
    if pre.spec_active() is Some {
        let p0 = pre.spec_active()->0;
        let p1 = apply_command(p0, pre.spec_board(), cmd);
        assert(p1.is_valid(pre.spec_board()));
    }
}

} // verus!
