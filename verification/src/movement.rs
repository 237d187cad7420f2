//! Moves: their model, the results of playing them, and their text form.

use vstd::prelude::*;

verus! {

/// Why a move was refused.
#[derive(Clone, Copy, PartialEq, Eq, Debug, Structural)]
pub enum MoveErr {
    InvalidInput,
    OutOfBound,
    EmptyCase,
    BadColor,
    InvalidMove,
    KingCheck,
}

/// What kind of move was played.
#[derive(Clone, Copy, PartialEq, Eq, Debug)]
pub enum MoveOk {
    Move,
    Promote,
    Capture(usize, usize),
    Castling { king: (usize, usize), rook: (usize, usize) },
}

/// A move as a pair of squares `(row, column)`; row 0 is rank 8, column 0 is file a.
pub struct MoveView {
    pub from: (int, int),
    pub to: (int, int),
}

/// A square lies on the board.
pub open spec fn on_board(sq: (int, int)) -> bool {
    0 <= sq.0 < 8 && 0 <= sq.1 < 8
}

impl MoveView {
    pub open spec fn in_bounds(self) -> bool {
        on_board(self.from) && on_board(self.to)
    }

    /// Row offset of the move.
    pub open spec fn dx(self) -> int {
        self.to.0 - self.from.0
    }

    /// Column offset of the move.
    pub open spec fn dy(self) -> int {
        self.to.1 - self.from.1
    }
}

/// A move from one square of the board to another.
#[derive(Clone, Copy, Debug)]
pub struct Move {
    pub(crate) from: (usize, usize),
    pub(crate) to: (usize, usize),
}

impl View for Move {
    type V = MoveView;

    closed spec fn view(&self) -> MoveView {
        MoveView {
            from: (self.from.0 as int, self.from.1 as int),
            to: (self.to.0 as int, self.to.1 as int),
        }
    }
}

impl Move {
    /// Both squares of a move lie on the board.
    #[verifier::type_invariant]
    closed spec fn inv(self) -> bool {
        self.from.0 < 8 && self.from.1 < 8 && self.to.0 < 8 && self.to.1 < 8
    }

    pub(crate) fn new(from: (usize, usize), to: (usize, usize)) -> (m: Move)
        requires
            from.0 < 8,
            from.1 < 8,
            to.0 < 8,
            to.1 < 8,
        ensures
            m@ == (MoveView { from: (from.0 as int, from.1 as int), to: (to.0 as int, to.1 as int) }),
    {
        Move { from, to }
    }

    /// The starting square.
    pub(crate) fn from_square(&self) -> (r: (usize, usize))
        ensures
            r.0 < 8,
            r.1 < 8,
            self@.from == (r.0 as int, r.1 as int),
            self@.in_bounds(),
    {
        proof {
            use_type_invariant(self);
        }
        self.from
    }

    /// The arrival square.
    pub(crate) fn to_square(&self) -> (r: (usize, usize))
        ensures
            r.0 < 8,
            r.1 < 8,
            self@.to == (r.0 as int, r.1 as int),
            self@.in_bounds(),
    {
        proof {
            use_type_invariant(self);
        }
        self.to
    }
}

/// `char::to_ascii_lowercase`: ASCII capitals become small letters, all else stays.
pub open spec fn ascii_lower(c: char) -> char {
    if 'A' <= c && c <= 'Z' {
        ((c as int) + 32) as char
    } else {
        c
    }
}

/// An ASCII letter or digit.
pub open spec fn is_ascii_alnum(c: char) -> bool {
    ('a' <= c && c <= 'z') || ('A' <= c && c <= 'Z') || ('0' <= c && c <= '9')
}

/// What `char::is_alphanumeric` answers for `c` (Unicode Alphabetic or Numeric).
pub uninterp spec fn is_alphanumeric(c: char) -> bool;

/// Calls `char::is_alphanumeric`. Claims that the answer is `is_alphanumeric(c)`, a
/// function of `c` alone, and that on ASCII characters it holds exactly of
/// letters and digits; the Unicode tables beyond ASCII are not stated.
#[verifier::external_body]
fn char_is_alphanumeric(c: char) -> (r: bool)
    ensures
        r == is_alphanumeric(c),
        (c as u32) < 128 ==> (r <==> is_ascii_alnum(c)),
{
    c.is_alphanumeric()
}

fn lower_char(c: char) -> (r: char)
    ensures
        r == ascii_lower(c),
{
    if 'A' <= c && c <= 'Z' {
        ((c as u8) + 32) as char
    } else {
        c
    }
}

/// The characters of a move text that count: lowered, then only the alphanumeric ones.
pub open spec fn clean_input(s: Seq<char>) -> Seq<char> {
    s.map_values(|c: char| ascii_lower(c)).filter(|c: char| is_alphanumeric(c))
}

/// A file letter and a rank digit outside `a`..`h` and `1`..`8`.
pub open spec fn off_board(file: char, rank: char) -> bool {
    file < 'a' || file > 'h' || rank < '1' || rank > '8'
}

/// The square named by a file letter `a`..`h` and a rank digit `1`..`8`.
pub open spec fn square_of(file: char, rank: char) -> (int, int) {
    (8 - (rank as int - '0' as int), file as int - 'a' as int)
}

/// What parsing a move text gives.
pub open spec fn parse_move(s: Seq<char>) -> Result<MoveView, MoveErr> {
    parse_clean(clean_input(s))
}

/// Every character of the text is ASCII.
pub open spec fn is_ascii_text(s: Seq<char>) -> bool {
    forall|i: int| 0 <= i < s.len() ==> (#[trigger] s[i] as u32) < 128
}

/// The characters of an ASCII move text that count: lowered, then only letters and digits.
pub open spec fn ascii_clean(s: Seq<char>) -> Seq<char> {
    s.map_values(|c: char| ascii_lower(c)).filter(|c: char| is_ascii_alnum(c))
}

/// What parsing an ASCII move text gives.
pub open spec fn parse_ascii(s: Seq<char>) -> Result<MoveView, MoveErr> {
    parse_clean(ascii_clean(s))
}

/// What parsing the kept characters of a move text gives: four characters naming two squares.
pub open spec fn parse_clean(c: Seq<char>) -> Result<MoveView, MoveErr> {
    if c.len() != 4 {
        Err(MoveErr::InvalidInput)
    } else if off_board(c[0], c[1]) || off_board(c[2], c[3]) {
        Err(MoveErr::OutOfBound)
    } else {
        Ok(MoveView { from: square_of(c[0], c[1]), to: square_of(c[2], c[3]) })
    }
}

proof fn lemma_ascii_clean_step(s: Seq<char>, i: int)
    requires
        0 <= i < s.len(),
    ensures
        ascii_clean(s.take(i + 1)) == (if is_ascii_alnum(ascii_lower(s[i])) {
            ascii_clean(s.take(i)).push(ascii_lower(s[i]))
        } else {
            ascii_clean(s.take(i))
        }),
{
    let f = |c: char| ascii_lower(c);
    let big = s.take(i + 1).map_values(f);
    assert(big.drop_last() =~= s.take(i).map_values(f));
    assert(big.last() == ascii_lower(s[i]));
    reveal_with_fuel(Seq::filter, 1);
    assert(big.len() > 0);
}

proof fn lemma_clean_input_step(s: Seq<char>, i: int)
    requires
        0 <= i < s.len(),
    ensures
        clean_input(s.take(i + 1)) == (if is_alphanumeric(ascii_lower(s[i])) {
            clean_input(s.take(i)).push(ascii_lower(s[i]))
        } else {
            clean_input(s.take(i))
        }),
{
    let f = |c: char| ascii_lower(c);
    let p = |c: char| is_alphanumeric(c);
    let big = s.take(i + 1).map_values(f);
    assert(big.drop_last() =~= s.take(i).map_values(f));
    assert(big.last() == ascii_lower(s[i]));
    reveal_with_fuel(Seq::filter, 1);
    assert(big.len() > 0);
}

impl Move {
    /// Either square named by the characters lies off the board.
    fn is_out(from: (char, char), to: (char, char)) -> (r: bool)
        ensures
            r == (off_board(from.0, from.1) || off_board(to.0, to.1)),
    {
        from.0 < 'a' || from.0 > 'h' || from.1 < '1' || from.1 > '8' || to.0 < 'a' || to.0 > 'h'
            || to.1 < '1' || to.1 > '8'
    }

    /// Reads a move such as `e2e4`: letters are lowered, characters that are not
    /// alphanumeric are dropped, and exactly four must remain, naming two squares.
    pub fn from_str(input: &str) -> (r: Result<Move, MoveErr>)
        ensures
            match r {
                Ok(m) => parse_move(input@) == Ok::<MoveView, MoveErr>(m@),
                Err(e) => parse_move(input@) == Err::<MoveView, MoveErr>(e),
            },
            is_ascii_text(input@) ==> match r {
                Ok(m) => parse_ascii(input@) == Ok::<MoveView, MoveErr>(m@),
                Err(e) => parse_ascii(input@) == Err::<MoveView, MoveErr>(e),
            },
    {
        let mut clean: Vec<char> = Vec::new();
        let ghost s = input@;
        for c in it: input.chars()
            invariant
                it.seq() == s,
                it.index() <= s.len(),
                clean@ == clean_input(s.take(it.index() as int)),
                is_ascii_text(s) ==> clean@ == ascii_clean(s.take(it.index() as int)),
        {
            proof {
                lemma_clean_input_step(s, it.index() as int);
                lemma_ascii_clean_step(s, it.index() as int);
            }
            let l = lower_char(c);
            if char_is_alphanumeric(l) {
                clean.push(l);
            }
        }
        proof {
            assert(s.take(s.len() as int) =~= s);
        }
        Move::from_clean(&clean)
    }

    /// Reads a move from the characters kept of its text: exactly four, a file
    /// letter and a rank digit for each of the two squares.
    pub fn from_clean(clean: &Vec<char>) -> (r: Result<Move, MoveErr>)
        ensures
            match r {
                Ok(m) => parse_clean(clean@) == Ok::<MoveView, MoveErr>(m@),
                Err(e) => parse_clean(clean@) == Err::<MoveView, MoveErr>(e),
            },
    {
        if clean.len() != 4 {
            return Err(MoveErr::InvalidInput);
        }
        let (from, to) = ((clean[0], clean[1]), (clean[2], clean[3]));
        if Move::is_out(from, to) {
            Err(MoveErr::OutOfBound)
        } else {
            let y0 = (from.0 as u32 - 'a' as u32) as usize;
            let y1 = (to.0 as u32 - 'a' as u32) as usize;
            let x0 = 8 - (from.1 as u32 - '0' as u32) as usize;
            let x1 = 8 - (to.1 as u32 - '0' as u32) as usize;
            Ok(Move { from: (x0, y0), to: (x1, y1) })
        }
    }
}

} // verus!
