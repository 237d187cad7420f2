//! The board: its construction, the validation of moves and their execution.

use vstd::prelude::*;
use crate::piece::{Check, Color, Piece, Symbol};
use crate::movement::{on_board, Move, MoveErr, MoveOk};
use crate::rules::{
    after_move, back_rank, castle_gap, castling, empty_state, en_passant, fits, initial_state,
    king_move, leaves_in_check, linear_move, move_result, pawn_move, sq_of, step, BoardState,
    attacked, attacks, in_check, path_clear, placed, position_check,
};
use crate::laws::{
    lemma_accepted_move_fits, lemma_after_move_double_step, lemma_after_move_keeps_valid,
};

verus! {

/// An 8x8 chess board; row 0 is rank 8 and column 0 is file a.
#[derive(Clone, Copy)]
pub struct Board {
    data: [[Option<Piece>; 8]; 8],
    check_state: Check,
    last_move: Option<Move>,
}

impl View for Board {
    type V = BoardState;

    closed spec fn view(&self) -> BoardState {
        BoardState {
            cells: Map::new(
                |sq: (int, int)| on_board(sq),
                |sq: (int, int)| self.data[sq.0][sq.1],
            ),
            check_state: self.check_state,
            last_move: match self.last_move {
                Some(m) => Some(m@),
                None => None,
            },
        }
    }
}

/// The first row of a side: rook, knight, bishop, queen, king, bishop, knight, rook.
fn back_row(color: Color) -> (r: [Option<Piece>; 8])
    ensures
        forall|j: int|
            0 <= j < 8 ==> r[j] == Some(Piece { symbol: back_rank(j), color, has_moved: false }),
{
    let symbols = [
        Symbol::Rook,
        Symbol::Knight,
        Symbol::Bishop,
        Symbol::Queen,
        Symbol::King,
        Symbol::Bishop,
        Symbol::Knight,
        Symbol::Rook,
    ];
    let r = [
        Some(Piece { symbol: symbols[0], color, has_moved: false }),
        Some(Piece { symbol: symbols[1], color, has_moved: false }),
        Some(Piece { symbol: symbols[2], color, has_moved: false }),
        Some(Piece { symbol: symbols[3], color, has_moved: false }),
        Some(Piece { symbol: symbols[4], color, has_moved: false }),
        Some(Piece { symbol: symbols[5], color, has_moved: false }),
        Some(Piece { symbol: symbols[6], color, has_moved: false }),
        Some(Piece { symbol: symbols[7], color, has_moved: false }),
    ];
    r
}

/// A row of unmoved pawns.
fn pawn_row(color: Color) -> (r: [Option<Piece>; 8])
    ensures
        forall|j: int|
            0 <= j < 8 ==> r[j] == Some(Piece { symbol: Symbol::Pawn, color, has_moved: false }),
{
    [Some(Piece { symbol: Symbol::Pawn, color, has_moved: false });8]
}

fn abs_i32(v: i32) -> (r: i32)
    requires
        v > i32::MIN,
    ensures
        r == crate::rules::abs(v as int),
{
    if v < 0 {
        -v
    } else {
        v
    }
}

impl Board {
    /// A board with no piece.
    pub fn empty() -> (b: Board)
        ensures
            b@ == empty_state(),
            b@.valid(),
            b@.double_step_from_home(),
    {
        let b = Board { data: [[None;8];8], check_state: Check::No, last_move: None };
        assert(b@.cells =~= empty_state().cells);
        b
    }

    /// The starting position: black on rows 0 and 1, white on rows 6 and 7.
    pub fn new() -> (b: Board)
        ensures
            b@ == initial_state(),
            b@.valid(),
            b@.double_step_from_home(),
    {
        let data = [
            back_row(Color::Black),
            pawn_row(Color::Black),
            [None;8],
            [None;8],
            [None;8],
            [None;8],
            pawn_row(Color::White),
            back_row(Color::White),
        ];
        let b = Board { data, check_state: Check::No, last_move: None };
        assert(b@.cells =~= initial_state().cells);
        b
    }

    /// The check status of the board.
    pub fn check_state(&self) -> (r: Check)
        ensures
            r == self@.check_state,
    {
        self.check_state
    }

    /// What stands on a square.
    pub(crate) fn cell(&self, sq: (usize, usize)) -> (r: Option<Piece>)
        requires
            sq.0 < 8,
            sq.1 < 8,
        ensures
            r == self@.at(sq_of(sq)),
    {
        self.data[sq.0][sq.1]
    }

    /// Puts `c` on a square.
    fn put(&mut self, sq: (usize, usize), c: Option<Piece>)
        requires
            sq.0 < 8,
            sq.1 < 8,
        ensures
            final(self)@ == old(self)@.set(sq_of(sq), c),
    {
        self.data[sq.0][sq.1] = c;
        assert(self@.cells =~= old(self)@.cells.insert(sq_of(sq), c));
    }

    /// Takes the piece on `a` up and puts it on `b`.
    fn take_to(&mut self, a: (usize, usize), b: (usize, usize))
        requires
            a.0 < 8,
            a.1 < 8,
            b.0 < 8,
            b.1 < 8,
        ensures
            final(self)@ == old(self)@.take_to(sq_of(a), sq_of(b)),
    {
        let p = self.cell(a);
        self.put(a, None);
        self.put(b, p);
    }

    /// Flags the piece on a square, if any, as moved.
    fn set_move(&mut self, case: (usize, usize))
        requires
            case.0 < 8,
            case.1 < 8,
        ensures
            final(self)@ == old(self)@.mark(sq_of(case)),
    {
        match self.cell(case) {
            Some(p) => self.put(case, Some(Piece { symbol: p.symbol, color: p.color, has_moved: true })),
            None => (),
        }
    }

    /// The check status of the board: whether the side whose piece made the
    /// last move has its king attacked.
    fn is_check(&self) -> (r: Check)
        ensures
            r == position_check(self@),
    {
        match self.last_move {
            Some(m) => {
                let to = m.to_square();
                match self.cell(to) {
                    Some(p) => if self.is_king_attacked(p.color) {
                        Check::Check
                    } else {
                        Check::No
                    },
                    None => Check::No,
                }
            },
            None => Check::No,
        }
    }

    /// Plays `movement` as a move of kind `move_type`, without testing it.
    fn do_move(&mut self, movement: Move, move_type: &MoveOk)
        requires
            fits(*move_type),
        ensures
            final(self)@ == after_move(old(self)@, movement@, *move_type),
    {
        let from = movement.from_square();
        let to = movement.to_square();
        match move_type {
            MoveOk::Move | MoveOk::Promote => {
                self.take_to(from, to);
                self.set_move(to);
            },
            MoveOk::Capture(x, y) => {
                self.put((*x, *y), None);
                self.take_to(from, to);
                self.set_move(to);
            },
            MoveOk::Castling { king, rook } => {
                if king.1 < rook.1 {
                    self.take_to(*king, (king.0, king.1 + 2));
                    self.take_to(*rook, (rook.0, rook.1 - 2));
                    self.set_move((king.0, king.1 + 2));
                    self.set_move((rook.0, rook.1 - 2));
                } else {
                    self.take_to(*king, (king.0, king.1 - 2));
                    self.take_to(*rook, (rook.0, rook.1 + 3));
                    self.set_move((king.0, king.1 - 2));
                    self.set_move((rook.0, rook.1 + 3));
                }
            },
        }
        let ghost moved = self@;
        // the check status is computed afresh for the position just reached
        self.check_state = Check::No;
        self.last_move = Some(movement);
        assert(self@ =~= placed(old(self)@, movement@, *move_type));
        self.check_state = self.is_check();
        assert(self@.cells =~= moved.cells);
        assert(self@ =~= after_move(old(self)@, movement@, *move_type));
    }

    /// Whether playing `movement` as `move_type` leaves the board in check.
    fn is_move_check(&self, movement: Move, move_type: &MoveOk) -> (r: bool)
        requires
            fits(*move_type),
        ensures
            r == leaves_in_check(self@, movement@, *move_type),
    {
        let mut b = self.clone();
        b.do_move(movement, move_type);
        b.check_state != Check::No
    }

    /// Whether `movement` is a valid en passant capture on this board.
    fn is_en_passant(&self, movement: Move) -> (r: Result<MoveOk, MoveErr>)
        ensures
            r == en_passant(self@, movement@),
    {
        let from = movement.from_square();
        let to = movement.to_square();
        if let Some(m) = self.last_move {
            let m_from = m.from_square();
            let m_to = m.to_square();
            if m_to.0 == from.0 && m_to.1 == to.1 && ((m_from.0 + 2) == m_to.0 || m_from.0 == (m_to.0
                + 2)) && m_from.1 == m_to.1 {
                let c_passant = self.cell((from.0, to.1));
                match c_passant {
                    Some(Piece { symbol: Symbol::Pawn, .. }) => Ok(MoveOk::Capture(from.0, to.1)),
                    _ => Err(MoveErr::InvalidMove),
                }
            } else {
                Err(MoveErr::InvalidMove)
            }
        } else {
            Err(MoveErr::InvalidMove)
        }
    }

    /// Whether `movement` is a valid move of the pawn `piece` on this board.
    fn is_pawn_move(
        &self,
        piece: &Piece,
        movement: Move,
        dx: i32,
        dy: i32,
        c_to: &Option<Piece>,
    ) -> (r: Result<MoveOk, MoveErr>)
        requires
            dx == movement@.dx(),
            dy == movement@.dy(),
            *c_to == self@.at(movement@.to),
        ensures
            r == pawn_move(self@, *piece, movement@),
    {
        let from = movement.from_square();
        let to = movement.to_square();
        let (dir, end): (i32, usize) = match piece.color {
            Color::White => (-1, 0),
            Color::Black => (1, 7),
        };
        if dx == dir && dy == 0 && c_to.is_none() {
            if to.0 == end {
                Ok(MoveOk::Promote)
            } else {
                Ok(MoveOk::Move)
            }
        } else if dx == (2 * dir) && dy == 0 && !piece.has_moved && c_to.is_none() && self.cell(
            ((from.0 as i32 + dir) as usize, from.1),
        ).is_none() {
            Ok(MoveOk::Move)
        } else if dx == dir && (dy == 1 || dy == -1) {
            match c_to {
                Some(Piece { color: c, .. }) if *c != piece.color => Ok(MoveOk::Capture(to.0, to.1)),
                None => self.is_en_passant(movement),
                _ => Err(MoveErr::InvalidMove),
            }
        } else {
            Err(MoveErr::InvalidMove)
        }
    }

    /// Whether `movement` is a valid castling of the king `piece` on this board.
    #[verifier::loop_isolation(false)]
    fn is_castling(&self, piece: &Piece, movement: Move, dy: i32) -> (r: Result<MoveOk, MoveErr>)
        requires
            dy == movement@.dy(),
            movement@.dx() == 0,
            dy == 2 || dy == -2,
        ensures
            r == castling(self@, *piece, movement@),
    {
        if piece.has_moved {
            return Err(MoveErr::InvalidMove);
        }
        let from = movement.from_square();
        let (rook, rook_move): (usize, i32) = if dy > 0 {
            (7, -2)
        } else {
            (0, 3)
        };
        if let Some(rook_p) = self.cell((from.0, rook)) {
            if rook_p.has_moved {
                return Err(MoveErr::InvalidMove);
            }
            // Cases between must be free
            let n = abs_i32(rook_move);
            let mut i: i32 = 1;
            while i <= n
                invariant
                    1 <= i <= n + 1,
                    from.0 < 8,
                    dy == 2 || dy == -2,
                    dy > 0 ==> rook == 7 && rook_move == -2 && n == 2,
                    dy < 0 ==> rook == 0 && rook_move == 3 && n == 3,
                    forall|y: int|
                        (if dy > 0 {
                            8 - i <= y <= 6
                        } else {
                            1 <= y <= i - 1
                        }) ==> #[trigger] self@.at((from.0 as int, y)) is None,
                decreases n + 1 - i,
            {
                let y = if rook_move < 0 {
                    rook - i as usize
                } else {
                    rook + i as usize
                };
                if self.cell((from.0, y)).is_some() {
                    assert(castle_gap(dy as int, y as int));
                    assert(self@.at((movement@.from.0, y as int)) is Some);
                    return Err(MoveErr::InvalidMove);
                }
                i += 1;
            }
            let valid = MoveOk::Castling { king: from, rook: (from.0, rook) };
            // King must not be in check in transition or final position
            let transit = Move::new(from, (from.0, (from.1 as i32 + (dy / 2)) as usize));
            if self.is_move_check(transit, &MoveOk::Move) || self.is_move_check(movement, &valid) {
                return Err(MoveErr::InvalidMove);
            }
            Ok(valid)
        } else {
            Err(MoveErr::InvalidMove)
        }
    }

    /// Whether `movement` is a valid move of the king `piece` on this board.
    fn is_king_move(
        &self,
        piece: &Piece,
        movement: Move,
        dx: i32,
        dy: i32,
        c_to: &Option<Piece>,
    ) -> (r: Result<MoveOk, MoveErr>)
        requires
            dx == movement@.dx(),
            dy == movement@.dy(),
            *c_to == self@.at(movement@.to),
        ensures
            r == king_move(self@, *piece, movement@),
    {
        let to = movement.to_square();
        let from = movement.from_square();
        if dx == 0 && abs_i32(dy) == 2 {
            self.is_castling(piece, movement, dy)
        } else if (dx == 0 || abs_i32(dx) == 1) && (dy == 0 || abs_i32(dy) == 1) {
            let res = match c_to {
                None => Ok(MoveOk::Move),
                Some(Piece { color: c, .. }) if *c != piece.color => Ok(MoveOk::Capture(to.0, to.1)),
                _ => Err(MoveErr::InvalidMove),
            };
            // A king cannot move into check position
            match res {
                Ok(move_type) => if self.is_move_check(movement, &move_type) {
                    Err(MoveErr::KingCheck)
                } else {
                    res
                },
                Err(_) => res,
            }
        } else {
            Err(MoveErr::InvalidMove)
        }
    }

    /// Whether every square strictly between the two ends of the straight or
    /// diagonal `movement` is empty.
    #[verifier::loop_isolation(false)]
    fn path_is_clear(&self, movement: Move, dx: i32, dy: i32) -> (r: bool)
        requires
            dx == movement@.dx(),
            dy == movement@.dy(),
            dx == 0 || dy == 0 || crate::rules::abs(dx as int) == crate::rules::abs(dy as int),
        ensures
            r == path_clear(self@, movement@),
    {
        let from = movement.from_square();
        let adx = abs_i32(dx);
        let ady = abs_i32(dy);
        let n = if adx < ady {
            ady
        } else {
            adx
        };
        let mut i: i32 = 1;
        while i < n
            invariant
                1 <= i,
                i <= n || i == 1,
                n == crate::rules::max(adx as int, ady as int),
                adx == crate::rules::abs(dx as int),
                ady == crate::rules::abs(dy as int),
                dx == movement@.dx(),
                dy == movement@.dy(),
                movement@.in_bounds(),
                movement@.from == sq_of(from),
                dx == 0 || dy == 0 || adx == ady,
                forall|k: int| 1 <= k < i ==> #[trigger] self@.at(step(movement@, k)) is None,
            decreases n - i,
        {
            let ix = if dx < 0 {
                -i
            } else if dx > 0 {
                i
            } else {
                0
            };
            let iy = if dy < 0 {
                -i
            } else if dy > 0 {
                i
            } else {
                0
            };
            let sq = ((from.0 as i32 + ix) as usize, (from.1 as i32 + iy) as usize);
            assert(sq_of(sq) == step(movement@, i as int));
            if self.cell(sq).is_some() {
                assert(self@.at(step(movement@, i as int)) is Some);
                return false;
            }
            i += 1;
        }
        true
    }

    /// Whether the straight or diagonal `movement` can be made: the way must be
    /// free and the arrival square empty or held by the other side.
    fn is_linear_move(
        &self,
        movement: Move,
        color: Color,
        dx: i32,
        dy: i32,
        c_to: &Option<Piece>,
    ) -> (r: Result<MoveOk, MoveErr>)
        requires
            dx == movement@.dx(),
            dy == movement@.dy(),
            *c_to == self@.at(movement@.to),
            dx == 0 || dy == 0 || crate::rules::abs(dx as int) == crate::rules::abs(dy as int),
        ensures
            r == linear_move(self@, movement@, color),
    {
        let to = movement.to_square();
        // Test if the way is free
        if !self.path_is_clear(movement, dx, dy) {
            return Err(MoveErr::InvalidMove);
        }
        match c_to {
            None => Ok(MoveOk::Move),
            Some(Piece { color: c, .. }) if *c != color => Ok(MoveOk::Capture(to.0, to.1)),
            _ => Err(MoveErr::InvalidMove),
        }
    }

    /// Whether the piece on `a` could take on `k` by its way of moving.
    fn attacks_square(&self, a: (usize, usize), k: (usize, usize)) -> (r: bool)
        requires
            a.0 < 8,
            a.1 < 8,
            k.0 < 8,
            k.1 < 8,
        ensures
            r == attacks(self@, sq_of(a), sq_of(k)),
    {
        let m = Move::new(a, k);
        let (dx, dy) = (k.0 as i32 - a.0 as i32, k.1 as i32 - a.1 as i32);
        match self.cell(a) {
            None => false,
            Some(q) => {
                if dx == 0 && dy == 0 {
                    return false;
                }
                let (adx, ady) = (abs_i32(dx), abs_i32(dy));
                match q.symbol {
                    Symbol::Pawn => {
                        let dir: i32 = match q.color {
                            Color::White => -1,
                            Color::Black => 1,
                        };
                        dx == dir && ady == 1
                    },
                    Symbol::Knight => (adx == 1 && ady == 2) || (adx == 2 && ady == 1),
                    Symbol::Bishop => adx == ady && self.path_is_clear(m, dx, dy),
                    Symbol::Rook => ((dx == 0 && dy != 0) || (dx != 0 && dy == 0))
                        && self.path_is_clear(m, dx, dy),
                    Symbol::Queen => (adx == ady || (dx == 0 && dy != 0) || (dx != 0 && dy == 0))
                        && self.path_is_clear(m, dx, dy),
                    Symbol::King => adx <= 1 && ady <= 1,
                }
            },
        }
    }

    /// Whether a piece of the side other than `c` attacks the square `k`.
    fn is_attacked(&self, k: (usize, usize), c: Color) -> (r: bool)
        requires
            k.0 < 8,
            k.1 < 8,
        ensures
            r == attacked(self@, sq_of(k), c),
    {
        let mut x: usize = 0;
        while x < 8
            invariant
                x <= 8,
                k.0 < 8,
                k.1 < 8,
                forall|a: (int, int)|
                    on_board(a) && a.0 < x ==> !((self@.at(a) matches Some(q) && q.color != c)
                        && #[trigger] attacks(self@, a, sq_of(k))),
            decreases 8 - x,
        {
            let mut y: usize = 0;
            while y < 8
                invariant
                    x < 8,
                    y <= 8,
                    k.0 < 8,
                    k.1 < 8,
                    forall|a: (int, int)|
                        on_board(a) && (a.0 < x || (a.0 == x && a.1 < y)) ==> !((self@.at(a) matches Some(
                            q,
                        ) && q.color != c) && #[trigger] attacks(self@, a, sq_of(k))),
                decreases 8 - y,
            {
                if let Some(q) = self.cell((x, y)) {
                    if q.color != c && self.attacks_square((x, y), k) {
                        assert(attacks(self@, sq_of((x, y)), sq_of(k)));
                        return true;
                    }
                }
                y += 1;
            }
            x += 1;
        }
        false
    }

    /// Whether a king of side `c` stands on an attacked square.
    fn is_king_attacked(&self, c: Color) -> (r: bool)
        ensures
            r == in_check(self@, c),
    {
        let mut x: usize = 0;
        while x < 8
            invariant
                x <= 8,
                forall|k: (int, int)|
                    on_board(k) && k.0 < x ==> !((#[trigger] self@.at(k) matches Some(p) && p.symbol
                        == Symbol::King && p.color == c) && attacked(self@, k, c)),
            decreases 8 - x,
        {
            let mut y: usize = 0;
            while y < 8
                invariant
                    x < 8,
                    y <= 8,
                    forall|k: (int, int)|
                        on_board(k) && (k.0 < x || (k.0 == x && k.1 < y)) ==> !((
                        #[trigger] self@.at(k) matches Some(p) && p.symbol == Symbol::King && p.color
                            == c) && attacked(self@, k, c)),
                decreases 8 - y,
            {
                if let Some(p) = self.cell((x, y)) {
                    if p.symbol == Symbol::King && p.color == c && self.is_attacked((x, y), c) {
                        return true;
                    }
                }
                y += 1;
            }
            x += 1;
        }
        false
    }

    /// Whether `player` may play `movement` on this board, and as what kind of move.
    fn is_move_valid(&self, movement: Move, player: Color) -> (r: Result<MoveOk, MoveErr>)
        ensures
            r == move_result(self@, movement@, player),
            movement@.in_bounds(),
    {
        let from = movement.from_square();
        let to = movement.to_square();
        let (dx, dy) = (to.0 as i32 - from.0 as i32, to.1 as i32 - from.1 as i32);
        let c_from = self.cell(from);
        let c_to = self.cell(to);

        if let Some(p) = c_from {
            if player != p.color {
                return Err(MoveErr::BadColor);
            }
        }
        if dx == 0 && dy == 0 {
            return Err(MoveErr::InvalidMove);
        }
        match c_from {
            Some(p) if p.symbol == Symbol::Pawn => { self.is_pawn_move(&p, movement, dx, dy, &c_to) },
            Some(Piece { symbol: Symbol::Rook, color, .. }) => {
                if (dx == 0 && dy != 0) || (dx != 0 && dy == 0) {
                    self.is_linear_move(movement, color, dx, dy, &c_to)
                } else {
                    Err(MoveErr::InvalidMove)
                }
            },
            Some(Piece { symbol: Symbol::Knight, color, .. }) => {
                if (abs_i32(dx) == 1 && abs_i32(dy) == 2) || (abs_i32(dx) == 2 && abs_i32(dy) == 1) {
                    match c_to {
                        None => Ok(MoveOk::Move),
                        Some(Piece { color: c, .. }) if c != color => Ok(MoveOk::Capture(to.0, to.1)),
                        _ => Err(MoveErr::InvalidMove),
                    }
                } else {
                    Err(MoveErr::InvalidMove)
                }
            },
            Some(Piece { symbol: Symbol::Bishop, color, .. }) => {
                if abs_i32(dx) == abs_i32(dy) {
                    self.is_linear_move(movement, color, dx, dy, &c_to)
                } else {
                    Err(MoveErr::InvalidMove)
                }
            },
            Some(Piece { symbol: Symbol::Queen, color, .. }) => {
                if (abs_i32(dx) == abs_i32(dy)) || (dx == 0 && dy != 0) || (dx != 0 && dy == 0) {
                    self.is_linear_move(movement, color, dx, dy, &c_to)
                } else {
                    Err(MoveErr::InvalidMove)
                }
            },
            Some(p) if p.symbol == Symbol::King => { self.is_king_move(&p, movement, dx, dy, &c_to) },
            _ => Err(MoveErr::EmptyCase),
        }
    }

    /// Plays `movement` for `player` if the rules allow it and says what kind of
    /// move it was; a refused move leaves the board as it was.
    pub fn apply(&mut self, movement: Move, player: Color) -> (r: Result<MoveOk, MoveErr>)
        ensures
            r == move_result(old(self)@, movement@, player),
            match r {
                Ok(t) => final(self)@ == after_move(old(self)@, movement@, t),
                Err(_) => final(self)@ == old(self)@,
            },
            old(self)@.valid() ==> final(self)@.valid(),
            old(self)@.valid() && old(self)@.double_step_from_home()
                ==> final(self)@.double_step_from_home(),
    {
        let res = self.is_move_valid(movement, player)?;
        proof {
            lemma_accepted_move_fits(self@, movement@, player);
            if self@.valid() {
                lemma_after_move_double_step(self@, movement@, player);
                lemma_after_move_keeps_valid(self@, movement@, res);
            }
        }
        self.do_move(movement, &res);
        Ok(res)
    }
}

} // verus!
