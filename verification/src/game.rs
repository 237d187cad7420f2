//! The decisions of a game between two players: whose turn it is, draw offers,
//! surrender and the end of the game.

use vstd::prelude::*;
use crate::piece::{opponent, Check, Color};
use crate::movement::{MoveErr, MoveOk};

verus! {

/// Whose turn it is, and whether that player must answer a draw offer.
#[derive(Clone, Copy, PartialEq, Eq, Debug, Structural)]
pub struct GameState {
    pub turn: Color,
    pub draw_asked: bool,
}

/// What the player whose turn it is did.
#[derive(Clone, Copy, PartialEq, Eq, Debug)]
pub enum GameEvent {
    /// Asked to play a move, with what the board answered.
    Played(Result<MoveOk, MoveErr>),
    /// Offered a draw.
    DrawOffered,
    /// Answered a draw offer.
    DrawAnswered(bool),
    /// Gave up.
    Surrendered,
}

/// How a game ended.
#[derive(Clone, Copy, PartialEq, Eq, Debug, Structural)]
pub enum Outcome {
    Draw,
    /// The side that gave up.
    Surrender(Color),
    /// The side that won.
    Checkmate(Color),
}

/// What to tell the players next.
#[derive(Clone, Copy, PartialEq, Eq, Debug)]
pub enum GameAction {
    Continue,
    /// The move was refused, for this reason.
    Refused(MoveErr),
    /// The side that just moved has its king attacked.
    InCheck(Color),
    Finished(Outcome),
}

/// The state and action that follow `e`, when the board's check status after
/// it is `check`.
pub open spec fn next_step(s: GameState, e: GameEvent, check: Check) -> (GameState, GameAction) {
    match e {
        GameEvent::Played(Ok(_)) => {
            let n = GameState { turn: opponent(s.turn), draw_asked: false };
            match check {
                Check::No => (n, GameAction::Continue),
                Check::Check => (n, GameAction::InCheck(s.turn)),
                Check::Checkmate => (n, GameAction::Finished(Outcome::Checkmate(opponent(s.turn)))),
            }
        },
        GameEvent::Played(Err(err)) => (s, GameAction::Refused(err)),
        GameEvent::DrawOffered => (
            GameState { turn: opponent(s.turn), draw_asked: true },
            GameAction::Continue,
        ),
        GameEvent::DrawAnswered(accepted) => if accepted {
            (GameState { turn: s.turn, draw_asked: false }, GameAction::Finished(Outcome::Draw))
        } else {
            (GameState { turn: s.turn, draw_asked: false }, GameAction::Continue)
        },
        GameEvent::Surrendered => (s, GameAction::Finished(Outcome::Surrender(s.turn))),
    }
}

/// Over every state: an accepted move passes the turn to the other side and
/// ends any draw offer; a refused move changes nothing; a draw offer passes the
/// turn and waits for an answer; an answer keeps the turn and ends the game
/// exactly when it accepts; surrender ends the game with the side to play giving up.
pub proof fn lemma_turns(s: GameState, e: GameEvent, check: Check)
    ensures
        ({
            let r = next_step(s, e, check);
            &&& e matches GameEvent::Played(Ok(_)) ==> r.0.turn == opponent(s.turn) && r.0.turn
                != s.turn && !r.0.draw_asked
            &&& e matches GameEvent::Played(Err(err)) ==> r.0 == s && r.1 == GameAction::Refused(err)
            &&& e is DrawOffered ==> r.0.turn != s.turn && r.0.draw_asked && r.1
                == GameAction::Continue
            &&& e matches GameEvent::DrawAnswered(yes) ==> r.0.turn == s.turn && !r.0.draw_asked && (
            yes <==> r.1 == GameAction::Finished(Outcome::Draw))
            &&& e is Surrendered ==> r.0 == s && r.1 == GameAction::Finished(
                Outcome::Surrender(s.turn),
            )
        }),
{
}

/// One turn of the game: an accepted move passes the turn and ends any draw
/// offer, a refused one changes nothing and is reported, a draw offer passes
/// the turn to the player who must answer it, an accepted offer ends the game
/// in a draw, and surrender ends it with the current side giving up.
pub fn game_step(s: GameState, e: GameEvent, check: Check) -> (r: (GameState, GameAction))
    ensures
        r == next_step(s, e, check),
        e matches GameEvent::Played(Ok(_)) ==> r.0.turn == opponent(s.turn) && r.0.turn != s.turn
            && !r.0.draw_asked,
        e matches GameEvent::Played(Err(err)) ==> r.0 == s && r.1 == GameAction::Refused(err),
        e is DrawOffered ==> r.0.turn != s.turn && r.0.draw_asked && r.1 == GameAction::Continue,
        e matches GameEvent::DrawAnswered(yes) ==> r.0.turn == s.turn && !r.0.draw_asked && (yes
            <==> r.1 == GameAction::Finished(Outcome::Draw)),
        e is Surrendered ==> r.0 == s && r.1 == GameAction::Finished(Outcome::Surrender(s.turn)),
{
    match e {
        GameEvent::Played(Ok(_)) => {
            let n = GameState { turn: s.turn.invert(), draw_asked: false };
            match check {
                Check::No => (n, GameAction::Continue),
                Check::Check => (n, GameAction::InCheck(s.turn)),
                Check::Checkmate => (n, GameAction::Finished(Outcome::Checkmate(s.turn.invert()))),
            }
        },
        GameEvent::Played(Err(err)) => (s, GameAction::Refused(err)),
        GameEvent::DrawOffered => (GameState { turn: s.turn.invert(), draw_asked: true }, GameAction::Continue),
        GameEvent::DrawAnswered(accepted) => {
            let n = GameState { turn: s.turn, draw_asked: false };
            if accepted {
                (n, GameAction::Finished(Outcome::Draw))
            } else {
                (n, GameAction::Continue)
            }
        },
        GameEvent::Surrendered => (s, GameAction::Finished(Outcome::Surrender(s.turn))),
    }
}

} // verus!
