//! The model of a board and the rules of play, stated over plain spec values.

use vstd::prelude::*;
use crate::piece::{Check, Color, Piece, Symbol};
use crate::movement::{on_board, MoveErr, MoveOk, MoveView};

verus! {

/// A board as the rules see it: what stands on each square, the check status
/// and the last move played.
#[verifier::ext_equal]
pub struct BoardState {
    pub cells: Map<(int, int), Option<Piece>>,
    pub check_state: Check,
    pub last_move: Option<MoveView>,
}

/// The 64 squares.
pub open spec fn squares() -> Set<(int, int)> {
    Set::new(|sq: (int, int)| on_board(sq))
}

/// The piece with `has_moved` set.
pub open spec fn marked(c: Option<Piece>) -> Option<Piece> {
    match c {
        Some(p) => Some(Piece { symbol: p.symbol, color: p.color, has_moved: true }),
        None => None,
    }
}

impl BoardState {
    /// What stands on a square.
    pub open spec fn at(self, sq: (int, int)) -> Option<Piece> {
        self.cells[sq]
    }

    /// The board with `c` put on `sq`.
    pub open spec fn set(self, sq: (int, int), c: Option<Piece>) -> BoardState {
        BoardState { cells: self.cells.insert(sq, c), check_state: self.check_state, last_move: self.last_move }
    }

    /// The piece on `a` taken up and put on `b`, replacing what stood there.
    pub open spec fn take_to(self, a: (int, int), b: (int, int)) -> BoardState {
        self.set(a, None).set(b, self.at(a))
    }

    /// The piece on `sq`, if any, flagged as moved.
    pub open spec fn mark(self, sq: (int, int)) -> BoardState {
        self.set(sq, marked(self.at(sq)))
    }

    /// Every square of the board, and only those, holds a cell.
    pub open spec fn wf(self) -> bool {
        self.cells.dom() == squares()
    }

    /// A piece that has never moved still stands on its starting square.
    pub open spec fn unmoved_at_home(self) -> bool {
        forall|sq: (int, int)|
            on_board(sq) && (#[trigger] self.at(sq) matches Some(p) && !p.has_moved) ==> home(sq)
                == self.at(sq)
    }

    /// A board that play can reach.
    pub open spec fn valid(self) -> bool {
        self.wf() && self.unmoved_at_home()
    }
}

/// The back rank from file a to file h.
pub open spec fn back_rank(col: int) -> Symbol {
    if col == 0 || col == 7 {
        Symbol::Rook
    } else if col == 1 || col == 6 {
        Symbol::Knight
    } else if col == 2 || col == 5 {
        Symbol::Bishop
    } else if col == 3 {
        Symbol::Queen
    } else {
        Symbol::King
    }
}

/// What stands on a square at the start of a game.
pub open spec fn home(sq: (int, int)) -> Option<Piece> {
    if sq.0 == 0 {
        Some(Piece { symbol: back_rank(sq.1), color: Color::Black, has_moved: false })
    } else if sq.0 == 1 {
        Some(Piece { symbol: Symbol::Pawn, color: Color::Black, has_moved: false })
    } else if sq.0 == 6 {
        Some(Piece { symbol: Symbol::Pawn, color: Color::White, has_moved: false })
    } else if sq.0 == 7 {
        Some(Piece { symbol: back_rank(sq.1), color: Color::White, has_moved: false })
    } else {
        None
    }
}

/// The starting position.
pub open spec fn initial_state() -> BoardState {
    BoardState {
        cells: Map::new(|sq: (int, int)| on_board(sq), |sq: (int, int)| home(sq)),
        check_state: Check::No,
        last_move: None,
    }
}

/// A board with no piece.
pub open spec fn empty_state() -> BoardState {
    BoardState {
        cells: Map::new(|sq: (int, int)| on_board(sq), |sq: (int, int)| None::<Piece>),
        check_state: Check::No,
        last_move: None,
    }
}

pub open spec fn abs(v: int) -> int {
    if v < 0 {
        -v
    } else {
        v
    }
}

pub open spec fn max(a: int, b: int) -> int {
    if a < b {
        b
    } else {
        a
    }
}

/// `i` steps along an axis whose total offset is `d`.
pub open spec fn offset(d: int, i: int) -> int {
    if d < 0 {
        -i
    } else if d > 0 {
        i
    } else {
        0
    }
}

/// The move's destination, as a capture square.
pub open spec fn capture_at(sq: (int, int)) -> MoveOk {
    MoveOk::Capture(sq.0 as usize, sq.1 as usize)
}

/// Arriving on `m.to` with a piece of `color`: on an empty square, or taking an enemy.
pub open spec fn landing(b: BoardState, m: MoveView, color: Color) -> Result<MoveOk, MoveErr> {
    match b.at(m.to) {
        None => Ok(MoveOk::Move),
        Some(q) => if q.color != color {
            Ok(capture_at(m.to))
        } else {
            Err(MoveErr::InvalidMove)
        },
    }
}

/// The row a pawn of `c` advances by.
pub open spec fn pawn_dir(c: Color) -> int {
    match c {
        Color::White => -1,
        Color::Black => 1,
    }
}

/// The row where a pawn of `c` is promoted.
pub open spec fn last_row(c: Color) -> int {
    match c {
        Color::White => 0,
        Color::Black => 7,
    }
}

/// A diagonal pawn step onto an empty square, taking the pawn beside it that
/// the last move advanced by two rows, in either direction.
pub open spec fn en_passant(b: BoardState, m: MoveView) -> Result<MoveOk, MoveErr> {
    match b.last_move {
        Some(l) => if l.to.0 == m.from.0 && l.to.1 == m.to.1 && (l.from.0 + 2 == l.to.0 || l.from.0
            == l.to.0 + 2) && l.from.1 == l.to.1 {
            match b.at((m.from.0, m.to.1)) {
                Some(q) => if q.symbol == Symbol::Pawn {
                    Ok(capture_at((m.from.0, m.to.1)))
                } else {
                    Err(MoveErr::InvalidMove)
                },
                None => Err(MoveErr::InvalidMove),
            }
        } else {
            Err(MoveErr::InvalidMove)
        },
        None => Err(MoveErr::InvalidMove),
    }
}

/// A pawn move: one step forward, two from a never-moved pawn, or a diagonal capture.
pub open spec fn pawn_move(b: BoardState, p: Piece, m: MoveView) -> Result<MoveOk, MoveErr> {
    let dir = pawn_dir(p.color);
    let (dx, dy) = (m.dx(), m.dy());
    if dx == dir && dy == 0 && b.at(m.to) is None {
        if m.to.0 == last_row(p.color) {
            Ok(MoveOk::Promote)
        } else {
            Ok(MoveOk::Move)
        }
    } else if dx == 2 * dir && dy == 0 && !p.has_moved && b.at(m.to) is None && b.at(
        (m.from.0 + dir, m.from.1),
    ) is None {
        Ok(MoveOk::Move)
    } else if dx == dir && (dy == 1 || dy == -1) {
        match b.at(m.to) {
            Some(q) => if q.color != p.color {
                Ok(capture_at(m.to))
            } else {
                Err(MoveErr::InvalidMove)
            },
            None => en_passant(b, m),
        }
    } else {
        Err(MoveErr::InvalidMove)
    }
}

/// The squares between the king and the rook that must be empty to castle.
pub open spec fn castle_gap(dy: int, col: int) -> bool {
    if dy > 0 {
        5 <= col <= 6
    } else {
        1 <= col <= 3
    }
}

/// The move's result leaves the board in check.
pub open spec fn leaves_in_check(b: BoardState, m: MoveView, t: MoveOk) -> bool {
    after_move(b, m, t).check_state != Check::No
}

/// Castling: an unmoved king two columns sideways, towards an unmoved piece in the
/// corner, with the squares between empty and no check on the way.
pub open spec fn castling(b: BoardState, p: Piece, m: MoveView) -> Result<MoveOk, MoveErr> {
    let dy = m.dy();
    let rook_col: int = if dy > 0 {
        7
    } else {
        0
    };
    if p.has_moved {
        Err(MoveErr::InvalidMove)
    } else {
        match b.at((m.from.0, rook_col)) {
            None => Err(MoveErr::InvalidMove),
            Some(r) => if r.has_moved {
                Err(MoveErr::InvalidMove)
            } else if !(forall|y: int| castle_gap(dy, y) ==> #[trigger] b.at((m.from.0, y)) is None) {
                Err(MoveErr::InvalidMove)
            } else {
                let t = MoveOk::Castling {
                    king: (m.from.0 as usize, m.from.1 as usize),
                    rook: (m.from.0 as usize, rook_col as usize),
                };
                let transit = MoveView { from: m.from, to: (m.from.0, m.from.1 + dy / 2) };
                if leaves_in_check(b, transit, MoveOk::Move) || leaves_in_check(b, m, t) {
                    Err(MoveErr::InvalidMove)
                } else {
                    Ok(t)
                }
            },
        }
    }
}

/// A king move: castling, or one step in any direction that does not end in check.
pub open spec fn king_move(b: BoardState, p: Piece, m: MoveView) -> Result<MoveOk, MoveErr> {
    let (dx, dy) = (m.dx(), m.dy());
    if dx == 0 && abs(dy) == 2 {
        castling(b, p, m)
    } else if (dx == 0 || abs(dx) == 1) && (dy == 0 || abs(dy) == 1) {
        match landing(b, m, p.color) {
            Ok(t) => if leaves_in_check(b, m, t) {
                Err(MoveErr::KingCheck)
            } else {
                Ok(t)
            },
            Err(e) => Err(e),
        }
    } else {
        Err(MoveErr::InvalidMove)
    }
}

/// The `i`-th square from `m.from` along the move's line.
pub open spec fn step(m: MoveView, i: int) -> (int, int) {
    (m.from.0 + offset(m.dx(), i), m.from.1 + offset(m.dy(), i))
}

/// Every square strictly between the two ends of a straight or diagonal move is empty.
pub open spec fn path_clear(b: BoardState, m: MoveView) -> bool {
    forall|i: int| 1 <= i < max(abs(m.dx()), abs(m.dy())) ==> #[trigger] b.at(step(m, i)) is None
}

/// A straight or diagonal move: the way must be free.
pub open spec fn linear_move(b: BoardState, m: MoveView, color: Color) -> Result<MoveOk, MoveErr> {
    if path_clear(b, m) {
        landing(b, m, color)
    } else {
        Err(MoveErr::InvalidMove)
    }
}

/// The move goes along a row or a column.
pub open spec fn straight(dx: int, dy: int) -> bool {
    (dx == 0 && dy != 0) || (dx != 0 && dy == 0)
}

/// The outcome of `player` asking to play `m` on `b`.
pub open spec fn move_result(b: BoardState, m: MoveView, player: Color) -> Result<MoveOk, MoveErr> {
    let (dx, dy) = (m.dx(), m.dy());
    if b.at(m.from) matches Some(p) && p.color != player {
        Err(MoveErr::BadColor)
    } else if dx == 0 && dy == 0 {
        Err(MoveErr::InvalidMove)
    } else {
        match b.at(m.from) {
            None => Err(MoveErr::EmptyCase),
            Some(p) => match p.symbol {
                Symbol::Pawn => pawn_move(b, p, m),
                Symbol::Rook => if straight(dx, dy) {
                    linear_move(b, m, p.color)
                } else {
                    Err(MoveErr::InvalidMove)
                },
                Symbol::Knight => if (abs(dx) == 1 && abs(dy) == 2) || (abs(dx) == 2 && abs(dy) == 1) {
                    landing(b, m, p.color)
                } else {
                    Err(MoveErr::InvalidMove)
                },
                Symbol::Bishop => if abs(dx) == abs(dy) {
                    linear_move(b, m, p.color)
                } else {
                    Err(MoveErr::InvalidMove)
                },
                Symbol::Queen => if abs(dx) == abs(dy) || straight(dx, dy) {
                    linear_move(b, m, p.color)
                } else {
                    Err(MoveErr::InvalidMove)
                },
                Symbol::King => king_move(b, p, m),
            },
        }
    }
}

/// The squares of a played move, as `do_move` reads them.
pub open spec fn sq_of(p: (usize, usize)) -> (int, int) {
    (p.0 as int, p.1 as int)
}

/// The board after playing `m` as a move of kind `t`, before its check status
/// is worked out: the pieces are carried and flagged as moved, and `m` is the
/// last move.
pub open spec fn placed(b: BoardState, m: MoveView, t: MoveOk) -> BoardState {
    let moved = match t {
        MoveOk::Move | MoveOk::Promote => b.take_to(m.from, m.to).mark(m.to),
        MoveOk::Capture(x, y) => b.set(sq_of((x, y)), None).take_to(m.from, m.to).mark(m.to),
        MoveOk::Castling { king, rook } => {
            let (k, r) = (sq_of(king), sq_of(rook));
            if k.1 < r.1 {
                let (k2, r2) = ((k.0, k.1 + 2), (r.0, r.1 - 2));
                b.take_to(k, k2).take_to(r, r2).mark(k2).mark(r2)
            } else {
                let (k2, r2) = ((k.0, k.1 - 2), (r.0, r.1 + 3));
                b.take_to(k, k2).take_to(r, r2).mark(k2).mark(r2)
            }
        },
    };
    BoardState { cells: moved.cells, check_state: Check::No, last_move: Some(m) }
}

/// The board after playing `m` as a move of kind `t`: as `placed`, with the
/// check status saying whether the side that moved left its king attacked.
pub open spec fn after_move(b: BoardState, m: MoveView, t: MoveOk) -> BoardState {
    let p = placed(b, m, t);
    BoardState { cells: p.cells, check_state: position_check(p), last_move: p.last_move }
}

/// The piece on `a` could take on `k` by its way of moving: a pawn one row
/// forward and one column aside, a knight by its jump, a king by one step, and
/// a bishop, rook or queen along its lines with the way free.
pub open spec fn attacks(b: BoardState, a: (int, int), k: (int, int)) -> bool {
    let m = MoveView { from: a, to: k };
    let (dx, dy) = (m.dx(), m.dy());
    match b.at(a) {
        None => false,
        Some(q) => !(dx == 0 && dy == 0) && match q.symbol {
            Symbol::Pawn => dx == pawn_dir(q.color) && abs(dy) == 1,
            Symbol::Knight => (abs(dx) == 1 && abs(dy) == 2) || (abs(dx) == 2 && abs(dy) == 1),
            Symbol::Bishop => abs(dx) == abs(dy) && path_clear(b, m),
            Symbol::Rook => straight(dx, dy) && path_clear(b, m),
            Symbol::Queen => (abs(dx) == abs(dy) || straight(dx, dy)) && path_clear(b, m),
            Symbol::King => abs(dx) <= 1 && abs(dy) <= 1,
        },
    }
}

/// A piece of the side other than `c` attacks the square `k`.
pub open spec fn attacked(b: BoardState, k: (int, int), c: Color) -> bool {
    exists|a: (int, int)|
        on_board(a) && (b.at(a) matches Some(q) && q.color != c) && #[trigger] attacks(b, a, k)
}

/// A king of side `c` stands on an attacked square.
pub open spec fn in_check(b: BoardState, c: Color) -> bool {
    exists|k: (int, int)|
        on_board(k) && (#[trigger] b.at(k) matches Some(p) && p.symbol == Symbol::King && p.color
            == c) && attacked(b, k, c)
}

/// The check status after a move: whether the side whose piece made the last
/// move has its king attacked.
pub open spec fn position_check(b: BoardState) -> Check {
    match b.last_move {
        Some(m) => match b.at(m.to) {
            Some(p) => if in_check(b, p.color) {
                Check::Check
            } else {
                Check::No
            },
            None => Check::No,
        },
        None => Check::No,
    }
}

/// The squares that playing `t` reads and writes lie on the board.
pub open spec fn fits(t: MoveOk) -> bool {
    match t {
        MoveOk::Move | MoveOk::Promote => true,
        MoveOk::Capture(x, y) => x < 8 && y < 8,
        MoveOk::Castling { king, rook } => king.0 < 8 && king.1 < 8 && rook.0 < 8 && rook.1 < 8 && (
        if king.1 < rook.1 {
            king.1 + 2 < 8 && rook.1 >= 2
        } else {
            king.1 >= 2 && rook.1 + 3 < 8
        }),
    }
}

/// One for an occupied square, none for an empty one.
pub open spec fn occupied(c: Option<Piece>) -> nat {
    if c is Some {
        1
    } else {
        0
    }
}

/// The pieces on the first `n` squares of row `x`.
pub open spec fn count_row(cells: Map<(int, int), Option<Piece>>, x: int, n: nat) -> nat
    decreases n,
{
    if n == 0 {
        0
    } else {
        count_row(cells, x, (n - 1) as nat) + occupied(cells[(x, n - 1)])
    }
}

/// The pieces on the first `n` rows.
pub open spec fn count_rows(cells: Map<(int, int), Option<Piece>>, n: nat) -> nat
    decreases n,
{
    if n == 0 {
        0
    } else {
        count_rows(cells, (n - 1) as nat) + count_row(cells, n - 1, 8)
    }
}

impl BoardState {
    /// The number of pieces on the board.
    pub open spec fn piece_count(self) -> nat {
        count_rows(self.cells, 8)
    }
}

/// The row the pawns of `c` start on.
pub open spec fn pawn_home_row(c: Color) -> int {
    match c {
        Color::White => 6,
        Color::Black => 1,
    }
}

impl BoardState {
    /// If the last move took the pawn now on its arrival square two rows along
    /// its column, it started from its side's pawn row.
    pub open spec fn double_step_from_home(self) -> bool {
        match self.last_move {
            Some(l) => match self.at(l.to) {
                Some(p) => (p.symbol == Symbol::Pawn && abs(l.to.0 - l.from.0) == 2 && l.from.1
                    == l.to.1) ==> l.from.0 == pawn_home_row(p.color),
                None => true,
            },
            None => true,
        }
    }
}

} // verus!
