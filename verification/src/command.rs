//! What a player types at the prompt: a move, a draw offer, surrender, or the
//! answer to a draw offer.

use vstd::prelude::*;
use crate::movement::{parse_move, Move, MoveErr, MoveView};

verus! {

/// What `str::to_lowercase` gives for a text (Unicode lower case).
pub uninterp spec fn lowercase(s: Seq<char>) -> Seq<char>;

/// Calls `str::to_lowercase`. Claims that the answer is `lowercase(s@)`, a
/// function of the text alone; the Unicode case tables are not stated.
#[verifier::external_body]
fn str_to_lowercase(s: &str) -> (r: String)
    ensures
        r@ == lowercase(s@),
{
    s.to_lowercase()
}

/// What a player asked for.
#[derive(Clone, Copy, Debug)]
pub enum PlayerInput {
    Move(Move),
    Draw,
    Surrender,
}

pub open spec fn word_draw() -> Seq<char> {
    seq!['d', 'r', 'a', 'w']
}

pub open spec fn word_surrend() -> Seq<char> {
    seq!['s', 'u', 'r', 'r', 'e', 'n', 'd']
}

pub open spec fn word_surrender() -> Seq<char> {
    seq!['s', 'u', 'r', 'r', 'e', 'n', 'd', 'e', 'r']
}

/// The text is one of the words that end or pause the game.
pub open spec fn is_keyword(s: Seq<char>) -> bool {
    s == word_draw() || s == word_surrend() || s == word_surrender()
}

/// A text said yes to a draw offer.
pub open spec fn is_yes(s: Seq<char>) -> bool {
    s == seq!['y', 'e', 's'] || s == seq!['y'] || s == seq!['o', 'k']
}

/// The characters of a text.
fn chars_of(s: &str) -> (r: Vec<char>)
    ensures
        r@ == s@,
{
    let mut v: Vec<char> = Vec::new();
    for c in it: s.chars()
        invariant
            it.seq() == s@,
            it.index() <= s@.len(),
            v@ == s@.take(it.index() as int),
    {
        proof {
            assert(s@.take(it.index() + 1) =~= s@.take(it.index() as int).push(c));
        }
        v.push(c);
    }
    proof {
        assert(s@.take(s@.len() as int) =~= s@);
    }
    v
}

/// Whether two runs of characters are the same.
fn same_chars(v: &Vec<char>, w: &[char]) -> (r: bool)
    ensures
        r == (v@ == w@),
{
    if v.len() != w.len() {
        return false;
    }
    let mut i: usize = 0;
    while i < v.len()
        invariant
            v@.len() == w@.len(),
            i <= v@.len(),
            forall|j: int| 0 <= j < i ==> v@[j] == w@[j],
        decreases v@.len() - i,
    {
        if v[i] != w[i] {
            return false;
        }
        i += 1;
    }
    assert(v@ =~= w@);
    true
}

impl PlayerInput {
    /// Reads an already lowered line: `draw`, `surrend` or `surrender`, or else a move.
    pub fn from_lowered(text: &str) -> (r: Result<PlayerInput, MoveErr>)
        ensures
            match r {
                Ok(PlayerInput::Draw) => text@ == word_draw(),
                Ok(PlayerInput::Surrender) => text@ == word_surrend() || text@ == word_surrender(),
                Ok(PlayerInput::Move(m)) => !is_keyword(text@) && parse_move(text@) == Ok::<
                    MoveView,
                    MoveErr,
                >(m@),
                Err(e) => !is_keyword(text@) && parse_move(text@) == Err::<MoveView, MoveErr>(e),
            },
    {
        let v = chars_of(text);
        if same_chars(&v, &['d', 'r', 'a', 'w']) {
            Ok(PlayerInput::Draw)
        } else if same_chars(&v, &['s', 'u', 'r', 'r', 'e', 'n', 'd']) || same_chars(
            &v,
            &['s', 'u', 'r', 'r', 'e', 'n', 'd', 'e', 'r'],
        ) {
            Ok(PlayerInput::Surrender)
        } else {
            match Move::from_str(text) {
                Ok(m) => Ok(PlayerInput::Move(m)),
                Err(e) => Err(e),
            }
        }
    }

    /// Reads a line typed at the prompt, in any case.
    pub fn read(line: &str) -> (r: Result<PlayerInput, MoveErr>)
        ensures
            match r {
                Ok(PlayerInput::Draw) => lowercase(line@) == word_draw(),
                Ok(PlayerInput::Surrender) => lowercase(line@) == word_surrend() || lowercase(line@)
                    == word_surrender(),
                Ok(PlayerInput::Move(m)) => !is_keyword(lowercase(line@)) && parse_move(
                    lowercase(line@),
                ) == Ok::<MoveView, MoveErr>(m@),
                Err(e) => !is_keyword(lowercase(line@)) && parse_move(lowercase(line@)) == Err::<
                    MoveView,
                    MoveErr,
                >(e),
            },
    {
        let lowered = str_to_lowercase(line);
        PlayerInput::from_lowered(lowered.as_str())
    }
}

/// Whether an already lowered line says yes to a draw offer: `yes`, `y` or `ok`.
pub fn accepts_lowered(text: &str) -> (r: bool)
    ensures
        r == is_yes(text@),
{
    let v = chars_of(text);
    let (yes, y, ok) = (['y', 'e', 's'], ['y'], ['o', 'k']);
    assert(yes@ =~= seq!['y', 'e', 's'] && y@ =~= seq!['y'] && ok@ =~= seq!['o', 'k']);
    same_chars(&v, &yes) || same_chars(&v, &y) || same_chars(&v, &ok)
}

/// Whether a line typed at the prompt, in any case, says yes to a draw offer.
pub fn accepts_draw(line: &str) -> (r: bool)
    ensures
        r == is_yes(lowercase(line@)),
{
    let lowered = str_to_lowercase(line);
    accepts_lowered(lowered.as_str())
}

} // verus!
