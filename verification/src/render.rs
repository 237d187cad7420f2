//! The board drawn as text, one line per rank.

use vstd::prelude::*;
use crate::piece::{Color, Piece, Symbol};
use crate::board::Board;
use crate::rules::BoardState;

verus! {

/// The character drawn for what stands on a square.
pub open spec fn glyph(c: Option<Piece>) -> char {
    match c {
        None => ' ',
        Some(p) => match (p.color, p.symbol) {
            (Color::Black, Symbol::Pawn) => '♙',
            (Color::Black, Symbol::Knight) => '♘',
            (Color::Black, Symbol::Bishop) => '♗',
            (Color::Black, Symbol::Rook) => '♖',
            (Color::Black, Symbol::Queen) => '♕',
            (Color::Black, Symbol::King) => '♔',
            (Color::White, Symbol::Pawn) => '♟',
            (Color::White, Symbol::Knight) => '♞',
            (Color::White, Symbol::Bishop) => '♝',
            (Color::White, Symbol::Rook) => '♜',
            (Color::White, Symbol::Queen) => '♛',
            (Color::White, Symbol::King) => '♚',
        },
    }
}

/// The rank digit of row `i`.
pub open spec fn rank_label(i: int) -> char {
    (('0' as int) + 8 - i) as char
}

/// The first `n` squares of row `i`, each followed by a space.
pub open spec fn row_cells(b: BoardState, i: int, n: nat) -> Seq<char>
    decreases n,
{
    if n == 0 {
        Seq::empty()
    } else {
        row_cells(b, i, (n - 1) as nat) + seq![glyph(b.at((i, n - 1))), ' ']
    }
}

/// The line of row `i`: its rank digit, then its eight squares.
pub open spec fn row_text(b: BoardState, i: int) -> Seq<char> {
    seq![rank_label(i), ' '] + row_cells(b, i, 8) + seq!['\n']
}

/// The row drawn `k`-th: from rank 8 down, or from rank 1 up when inverted.
pub open spec fn row_index(invert: bool, k: int) -> int {
    if invert {
        7 - k
    } else {
        k
    }
}

/// The first `n` lines drawn.
pub open spec fn rows_text(b: BoardState, invert: bool, n: nat) -> Seq<char>
    decreases n,
{
    if n == 0 {
        Seq::empty()
    } else {
        rows_text(b, invert, (n - 1) as nat) + row_text(b, row_index(invert, n - 1))
    }
}

/// The last line: the file letters.
pub open spec fn files_line() -> Seq<char> {
    seq![' ', ' ', 'A', ' ', 'B', ' ', 'C', ' ', 'D', ' ', 'E', ' ', 'F', ' ', 'G', ' ', 'H', '\n']
}

/// The whole drawing of a board.
pub open spec fn board_text(b: BoardState, invert: bool) -> Seq<char> {
    rows_text(b, invert, 8) + files_line()
}

/// The glyph of a square and a space.
fn glyph_str(c: Option<Piece>) -> (s: &'static str)
    ensures
        s@ == seq![glyph(c), ' '],
{
    match c {
        Some(Piece { symbol: Symbol::Pawn, color: Color::Black, .. }) => {
            proof { reveal_strlit("♙ "); }
            "♙ "
        },
        Some(Piece { symbol: Symbol::Knight, color: Color::Black, .. }) => {
            proof { reveal_strlit("♘ "); }
            "♘ "
        },
        Some(Piece { symbol: Symbol::Bishop, color: Color::Black, .. }) => {
            proof { reveal_strlit("♗ "); }
            "♗ "
        },
        Some(Piece { symbol: Symbol::Rook, color: Color::Black, .. }) => {
            proof { reveal_strlit("♖ "); }
            "♖ "
        },
        Some(Piece { symbol: Symbol::Queen, color: Color::Black, .. }) => {
            proof { reveal_strlit("♕ "); }
            "♕ "
        },
        Some(Piece { symbol: Symbol::King, color: Color::Black, .. }) => {
            proof { reveal_strlit("♔ "); }
            "♔ "
        },
        Some(Piece { symbol: Symbol::Pawn, color: Color::White, .. }) => {
            proof { reveal_strlit("♟ "); }
            "♟ "
        },
        Some(Piece { symbol: Symbol::Knight, color: Color::White, .. }) => {
            proof { reveal_strlit("♞ "); }
            "♞ "
        },
        Some(Piece { symbol: Symbol::Bishop, color: Color::White, .. }) => {
            proof { reveal_strlit("♝ "); }
            "♝ "
        },
        Some(Piece { symbol: Symbol::Rook, color: Color::White, .. }) => {
            proof { reveal_strlit("♜ "); }
            "♜ "
        },
        Some(Piece { symbol: Symbol::Queen, color: Color::White, .. }) => {
            proof { reveal_strlit("♛ "); }
            "♛ "
        },
        Some(Piece { symbol: Symbol::King, color: Color::White, .. }) => {
            proof { reveal_strlit("♚ "); }
            "♚ "
        },
        None => {
            proof { reveal_strlit("  "); }
            "  "
        },
    }
}

/// The rank digit of row `i` and a space.
fn label_str(i: usize) -> (s: &'static str)
    requires
        i < 8,
    ensures
        s@ == seq![rank_label(i as int), ' '],
{
    match i {
        0 => {
            proof { reveal_strlit("8 "); }
            "8 "
        },
        1 => {
            proof { reveal_strlit("7 "); }
            "7 "
        },
        2 => {
            proof { reveal_strlit("6 "); }
            "6 "
        },
        3 => {
            proof { reveal_strlit("5 "); }
            "5 "
        },
        4 => {
            proof { reveal_strlit("4 "); }
            "4 "
        },
        5 => {
            proof { reveal_strlit("3 "); }
            "3 "
        },
        6 => {
            proof { reveal_strlit("2 "); }
            "2 "
        },
        _ => {
            proof { reveal_strlit("1 "); }
            "1 "
        },
    }
}

impl Board {
    /// Draws the board, rank 8 at the top, or rank 1 at the top when `invert`.
    pub fn to_string(&self, invert: bool) -> (out: String)
        ensures
            out@ == board_text(self@, invert),
    {
        let mut out = String::new();
        let mut k: usize = 0;
        while k < 8
            invariant
                k <= 8,
                out@ == rows_text(self@, invert, k as nat),
            decreases 8 - k,
        {
            let i: usize = if invert {
                7 - k
            } else {
                k
            };
            let ghost start = out@;
            out.append(label_str(i));
            let mut j: usize = 0;
            while j < 8
                invariant
                    j <= 8,
                    i < 8,
                    out@ == start + seq![rank_label(i as int), ' '] + row_cells(self@, i as int, j as nat),
                decreases 8 - j,
            {
                out.append(glyph_str(self.cell((i, j))));
                j += 1;
            }
            proof {
                reveal_strlit("\n");
            }
            out.append("\n");
            k += 1;
        }
        proof {
            reveal_strlit("  A B C D E F G H\n");
        }
        out.append("  A B C D E F G H\n");
        out
    }
}

} // verus!
