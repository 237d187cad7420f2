//! A two-player chess board: move parsing, move validation and move execution.
//!
//! `rules` states the rules over plain spec values (`BoardState`, `MoveView`);
//! `board` and `movement` hold the executable code proved against them;
//! `laws` holds the properties that every board and move satisfy.

pub mod piece;
pub mod movement;
pub mod rules;
pub mod board;
pub mod render;
pub mod game;
pub mod command;
pub mod laws;

pub use piece::{Check, Color, Piece, Symbol};
pub use movement::{Move, MoveErr, MoveOk, MoveView};
pub use rules::BoardState;
pub use board::Board;
pub use command::{accepts_draw, PlayerInput};
pub use game::{game_step, GameAction, GameEvent, GameState, Outcome};
