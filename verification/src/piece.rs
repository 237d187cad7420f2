//! Pieces, colors and the check status of a board.

use vstd::prelude::*;

verus! {

/// The kind of a chess piece.
#[derive(Clone, Copy, PartialEq, Eq, Debug, Structural)]
pub enum Symbol {
    Pawn,
    Knight,
    Bishop,
    Rook,
    Queen,
    King,
}

/// The side a piece belongs to.
#[derive(Clone, Copy, PartialEq, Eq, Debug, Structural)]
pub enum Color {
    White,
    Black,
}

/// A piece standing on a square.
#[derive(Clone, Copy, PartialEq, Eq, Debug, Structural)]
pub struct Piece {
    pub symbol: Symbol,
    pub color: Color,
    pub has_moved: bool,
}

/// Whether the side that made the last move has its king attacked.
#[derive(Clone, Copy, PartialEq, Eq, Debug, Structural)]
pub enum Check {
    Check,
    Checkmate,
    No,
}

/// The other side.
pub open spec fn opponent(c: Color) -> Color {
    match c {
        Color::White => Color::Black,
        Color::Black => Color::White,
    }
}

impl Color {
    /// The opposing color.
    pub fn invert(self) -> (r: Color)
        ensures
            r == opponent(self),
            r != self,
    {
        match self {
            Color::White => Color::Black,
            Color::Black => Color::White,
        }
    }
}

} // verus!
