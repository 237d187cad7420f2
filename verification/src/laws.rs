//! Properties of the rules that hold of every board and every move.

use vstd::prelude::*;
use crate::render::{board_text, files_line, glyph, rank_label, row_cells, row_index, row_text, rows_text};
use crate::piece::{opponent, Check, Color, Piece, Symbol};
use crate::movement::{
    ascii_lower, clean_input, is_alphanumeric, is_ascii_alnum, on_board, parse_ascii, parse_move, MoveErr, MoveOk,
    MoveView,
};
use crate::rules::{
    abs, after_move, attacked, attacks, castle_gap, count_row, count_rows, fits, home, last_row,
    marked, move_result, occupied, pawn_home_row, placed, sq_of, squares, BoardState, empty_state,
    initial_state,
};

verus! {

/// An accepted move only reads and writes squares of the board.
pub proof fn lemma_accepted_move_fits(b: BoardState, m: MoveView, player: Color)
    requires
        m.in_bounds(),
        move_result(b, m, player) is Ok,
    ensures
        fits(move_result(b, m, player)->Ok_0),
{
}

/// Playing a move keeps every unmoved piece on its starting square.
pub proof fn lemma_after_move_keeps_valid(b: BoardState, m: MoveView, t: MoveOk)
    requires
        b.valid(),
        m.in_bounds(),
        fits(t),
    ensures
        after_move(b, m, t).valid(),
{
    let a = after_move(b, m, t);
    assert(a.cells.dom() =~= squares());
    assert forall|sq: (int, int)|
        on_board(sq) && (#[trigger] a.at(sq) matches Some(p) && !p.has_moved) implies home(sq)
        == a.at(sq) by {
        assert(b.at(sq) == a.at(sq));
    }
}

} // verus!

verus! {

/// Only a piece of the player who asks can be moved.
pub proof fn lemma_mover_is_players(b: BoardState, m: MoveView, player: Color)
    requires
        move_result(b, m, player) is Ok,
    ensures
        b.at(m.from) matches Some(p) && p.color == player,
        m.from != m.to,
{
}

/// A move never ends on a square held by the mover's own side.
pub proof fn lemma_never_lands_on_own_piece(b: BoardState, m: MoveView, player: Color)
    requires
        b.valid(),
        m.in_bounds(),
        move_result(b, m, player) is Ok,
    ensures
        !(b.at(m.to) matches Some(q) && q.color == player),
{
    if let Some(p) = b.at(m.from) {
        if p.symbol == Symbol::King && m.dx() == 0 && abs(m.dy()) == 2 {
            assert(home(m.from) == b.at(m.from));
            assert(m.from.1 == 4);
            assert(castle_gap(m.dy(), m.to.1));
        }
    }
}

/// A pawn is promoted only when it reaches the far row.
pub proof fn lemma_promotion_on_last_row(b: BoardState, m: MoveView, player: Color)
    requires
        move_result(b, m, player) == Ok::<MoveOk, MoveErr>(MoveOk::Promote),
    ensures
        b.at(m.from) matches Some(p) && p.symbol == Symbol::Pawn && p.color == player,
        m.to.0 == last_row(player),
        b.at(m.to) is None,
{
}

/// A capture takes an enemy piece on the arrival square, or, en passant, the
/// pawn beside the start square on the arrival column, the arrival square being empty.
pub proof fn lemma_capture_target(b: BoardState, m: MoveView, player: Color, x: usize, y: usize)
    requires
        move_result(b, m, player) == Ok::<MoveOk, MoveErr>(MoveOk::Capture(x, y)),
        m.in_bounds(),
    ensures
        ({
            ||| sq_of((x, y)) == m.to && (b.at(m.to) matches Some(q) && q.color != player)
            ||| sq_of((x, y)) == (m.from.0, m.to.1) && b.at(m.to) is None && (b.at(sq_of((x, y)))
                matches Some(q) && q.symbol == Symbol::Pawn)
        }),
{
}

/// A move that is not castling carries the piece from its square to the arrival
/// square, flagged as moved, removes the captured piece, and changes nothing else.
pub proof fn lemma_move_carries_piece(b: BoardState, m: MoveView, player: Color)
    requires
        b.wf(),
        m.in_bounds(),
        move_result(b, m, player) is Ok,
        !(move_result(b, m, player)->Ok_0 is Castling),
    ensures
        ({
            let t = move_result(b, m, player)->Ok_0;
            let a = after_move(b, m, t);
            &&& a.at(m.to) == marked(b.at(m.from))
            &&& a.at(m.from) is None
            &&& t matches MoveOk::Capture(x, y) ==> (sq_of((x, y)) != m.to ==> a.at(sq_of((x, y))) is None)
            &&& forall|sq: (int, int)|
                on_board(sq) && sq != m.from && sq != m.to && !(t matches MoveOk::Capture(x, y)
                    && sq == sq_of((x, y))) ==> #[trigger] a.at(sq) == b.at(sq)
            &&& a.last_move == Some(m)
        }),
{
    lemma_mover_is_players(b, m, player);
}

/// Castling moves an unmoved king from its starting square two columns towards
/// an unmoved rook of its side in the corner, and that rook to the square the
/// king crossed; nothing else changes.
pub proof fn lemma_castling_moves(b: BoardState, m: MoveView, player: Color)
    requires
        b.valid(),
        m.in_bounds(),
        move_result(b, m, player) is Ok,
        move_result(b, m, player)->Ok_0 is Castling,
    ensures
        ({
            let t = move_result(b, m, player)->Ok_0;
            let a = after_move(b, m, t);
            let r = m.from.0;
            let corner: int = if m.to.1 == 6 { 7 } else { 0 };
            let crossed: int = if m.to.1 == 6 { 5 } else { 3 };
            &&& r == last_row(opponent(player)) && m.from.1 == 4
            &&& m.to == (r, 6int) || m.to == (r, 2int)
            &&& b.at(m.from) == Some(Piece { symbol: Symbol::King, color: player, has_moved: false })
            &&& b.at((r, corner)) == Some(Piece { symbol: Symbol::Rook, color: player, has_moved: false })
            &&& a.at(m.to) == Some(Piece { symbol: Symbol::King, color: player, has_moved: true })
            &&& a.at((r, crossed)) == Some(Piece { symbol: Symbol::Rook, color: player, has_moved: true })
            &&& a.at(m.from) is None
            &&& a.at((r, corner)) is None
            &&& forall|sq: (int, int)|
                on_board(sq) && sq != m.from && sq != m.to && sq != (r, corner) && sq != (r, crossed)
                    ==> #[trigger] a.at(sq) == b.at(sq)
        }),
{
    lemma_mover_is_players(b, m, player);
    assert(home(m.from) == b.at(m.from));
    let corner: int = if m.dy() > 0 { 7 } else { 0 };
    assert(home((m.from.0, corner)) == b.at((m.from.0, corner)));
}

} // verus!

verus! {

/// A move read from text names two squares of the board.
pub proof fn lemma_parsed_move_on_board(s: Seq<char>)
    requires
        parse_move(s) is Ok,
    ensures
        parse_move(s)->Ok_0.in_bounds(),
{
}

} // verus!

verus! {

/// A king never moves onto a square the other side attacks, and never castles
/// across one; the board after a king move is not in check.
pub proof fn lemma_king_never_moves_into_check(b: BoardState, m: MoveView, player: Color)
    requires
        b.valid(),
        m.in_bounds(),
        move_result(b, m, player) is Ok,
        b.at(m.from) matches Some(p) && p.symbol == Symbol::King,
    ensures
        ({
            let t = move_result(b, m, player)->Ok_0;
            let transit = MoveView { from: m.from, to: (m.from.0, m.from.1 + m.dy() / 2) };
            &&& after_move(b, m, t).check_state == Check::No
            &&& !attacked(placed(b, m, t), m.to, player)
            &&& t is Castling ==> !attacked(placed(b, transit, MoveOk::Move), transit.to, player)
        }),
{
    lemma_mover_is_players(b, m, player);
    let t = move_result(b, m, player)->Ok_0;
    let p = placed(b, m, t);
    if t is Castling {
        lemma_castling_moves(b, m, player);
        let transit = MoveView { from: m.from, to: (m.from.0, m.from.1 + m.dy() / 2) };
        let pt = placed(b, transit, MoveOk::Move);
        assert(pt.at(transit.to) matches Some(q) && q.symbol == Symbol::King && q.color == player);
    }
    assert(p.at(m.to) matches Some(q) && q.symbol == Symbol::King && q.color == player);
}

/// A piece other than a king attacks a square held by the other side exactly
/// when its side may move it there.
pub proof fn lemma_attack_is_capture(b: BoardState, a: (int, int), k: (int, int))
    requires
        on_board(a),
        on_board(k),
        b.at(a) matches Some(q) && q.symbol != Symbol::King,
        b.at(k) matches Some(v) && v.color != b.at(a)->0.color,
    ensures
        attacks(b, a, k) <==> move_result(b, MoveView { from: a, to: k }, b.at(a)->0.color) is Ok,
{
}

} // verus!

verus! {

/// Reading a move ignores the case of ASCII letters.
pub proof fn lemma_parse_ignores_case(s1: Seq<char>, s2: Seq<char>)
    requires
        s1.len() == s2.len(),
        forall|i: int| 0 <= i < s1.len() ==> ascii_lower(#[trigger] s1[i]) == ascii_lower(s2[i]),
    ensures
        parse_move(s1) == parse_move(s2),
        parse_ascii(s1) == parse_ascii(s2),
{
    let f = |c: char| ascii_lower(c);
    assert(s1.map_values(f) =~= s2.map_values(f));
}

/// Reading a move ignores a character that is not a letter or a digit, wherever it stands.
pub proof fn lemma_parse_ignores_separator(s1: Seq<char>, s2: Seq<char>, c: char)
    ensures
        !is_alphanumeric(ascii_lower(c)) ==> parse_move(s1 + seq![c] + s2) == parse_move(s1 + s2),
        !is_ascii_alnum(ascii_lower(c)) ==> parse_ascii(s1 + seq![c] + s2) == parse_ascii(s1 + s2),
{
    let f = |x: char| ascii_lower(x);
    let p = |x: char| is_alphanumeric(x);
    let q = |x: char| is_ascii_alnum(x);
    let (a, b, mid) = (s1.map_values(f), s2.map_values(f), seq![ascii_lower(c)]);
    assert((s1 + seq![c] + s2).map_values(f) =~= a + mid + b);
    assert((s1 + s2).map_values(f) =~= a + b);
    Seq::filter_distributes_over_add(a + mid, b, p);
    Seq::filter_distributes_over_add(a, mid, p);
    Seq::filter_distributes_over_add(a, b, p);
    Seq::filter_distributes_over_add(a + mid, b, q);
    Seq::filter_distributes_over_add(a, mid, q);
    Seq::filter_distributes_over_add(a, b, q);
    reveal_with_fuel(Seq::filter, 2);
    assert(mid.drop_last() =~= Seq::<char>::empty());
    if !is_alphanumeric(ascii_lower(c)) {
        assert(mid.filter(p) =~= Seq::<char>::empty());
        assert(a.filter(p) + mid.filter(p) =~= a.filter(p));
    }
    if !is_ascii_alnum(ascii_lower(c)) {
        assert(mid.filter(q) =~= Seq::<char>::empty());
        assert(a.filter(q) + mid.filter(q) =~= a.filter(q));
    }
}

} // verus!

verus! {

proof fn lemma_count_row_insert(
    cells: Map<(int, int), Option<Piece>>,
    sq: (int, int),
    v: Option<Piece>,
    x: int,
    n: nat,
)
    ensures
        count_row(cells.insert(sq, v), x, n) as int == count_row(cells, x, n) + (if x == sq.0 && 0
            <= sq.1 < n {
            occupied(v) - occupied(cells[sq])
        } else {
            0
        }),
    decreases n,
{
    if n > 0 {
        lemma_count_row_insert(cells, sq, v, x, (n - 1) as nat);
    }
}

proof fn lemma_count_rows_insert(
    cells: Map<(int, int), Option<Piece>>,
    sq: (int, int),
    v: Option<Piece>,
    n: nat,
)
    requires
        0 <= sq.1 < 8,
    ensures
        count_rows(cells.insert(sq, v), n) as int == count_rows(cells, n) + (if 0 <= sq.0 < n {
            occupied(v) - occupied(cells[sq])
        } else {
            0
        }),
    decreases n,
{
    if n > 0 {
        lemma_count_rows_insert(cells, sq, v, (n - 1) as nat);
        lemma_count_row_insert(cells, sq, v, n - 1, 8);
    }
}

/// Putting `v` on a square changes the number of pieces by what it adds and removes.
pub proof fn lemma_count_set(b: BoardState, sq: (int, int), v: Option<Piece>)
    requires
        on_board(sq),
    ensures
        b.set(sq, v).piece_count() + occupied(b.at(sq)) == b.piece_count() + occupied(v),
{
    lemma_count_rows_insert(b.cells, sq, v, 8);
}

/// A capture removes exactly one piece from the board; every other move keeps
/// the number of pieces.
pub proof fn lemma_capture_removes_one_piece(b: BoardState, m: MoveView, player: Color)
    requires
        b.valid(),
        m.in_bounds(),
        move_result(b, m, player) is Ok,
    ensures
        ({
            let t = move_result(b, m, player)->Ok_0;
            after_move(b, m, t).piece_count() == b.piece_count() - (if t is Capture {
                1int
            } else {
                0int
            })
        }),
{
    lemma_mover_is_players(b, m, player);
    lemma_accepted_move_fits(b, m, player);
    let t = move_result(b, m, player)->Ok_0;
    match t {
        MoveOk::Move | MoveOk::Promote => {
            assert(b.at(m.to) is None);
            let b1 = b.set(m.from, None);
            let b2 = b1.set(m.to, b.at(m.from));
            lemma_count_set(b, m.from, None);
            lemma_count_set(b1, m.to, b.at(m.from));
            lemma_count_set(b2, m.to, marked(b2.at(m.to)));
        },
        MoveOk::Capture(x, y) => {
            lemma_capture_target(b, m, player, x, y);
            let c = sq_of((x, y));
            let b0 = b.set(c, None);
            let b1 = b0.set(m.from, None);
            let b2 = b1.set(m.to, b0.at(m.from));
            lemma_count_set(b, c, None);
            lemma_count_set(b0, m.from, None);
            lemma_count_set(b1, m.to, b0.at(m.from));
            lemma_count_set(b2, m.to, marked(b2.at(m.to)));
        },
        MoveOk::Castling { king, rook } => {
            lemma_castling_moves(b, m, player);
            let (k, r) = (sq_of(king), sq_of(rook));
            let (k2, r2) = if k.1 < r.1 {
                ((k.0, k.1 + 2), (r.0, r.1 - 2))
            } else {
                ((k.0, k.1 - 2), (r.0, r.1 + 3))
            };
            assert(castle_gap(m.dy(), k2.1) && castle_gap(m.dy(), r2.1));
            assert(b.at(k2) is None && b.at(r2) is None);
            let b1 = b.set(k, None);
            let b2 = b1.set(k2, b.at(k));
            let b3 = b2.set(r, None);
            let b4 = b3.set(r2, b2.at(r));
            let b5 = b4.set(k2, marked(b4.at(k2)));
            lemma_count_set(b, k, None);
            lemma_count_set(b1, k2, b.at(k));
            lemma_count_set(b2, r, None);
            lemma_count_set(b3, r2, b2.at(r));
            lemma_count_set(b4, k2, marked(b4.at(k2)));
            lemma_count_set(b5, r2, marked(b5.at(r2)));
        },
    }
}

} // verus!

verus! {

/// A game starts with 32 pieces; the empty board has none.
pub proof fn lemma_initial_piece_count()
    ensures
        initial_state().piece_count() == 32,
        empty_state().piece_count() == 0,
{
    let (ci, ce) = (initial_state().cells, empty_state().cells);
    reveal_with_fuel(count_row, 9);
    assert(count_row(ci, 0, 8) == 8);
    assert(count_row(ci, 1, 8) == 8);
    assert(count_row(ci, 2, 8) == 0);
    assert(count_row(ci, 3, 8) == 0);
    assert(count_row(ci, 4, 8) == 0);
    assert(count_row(ci, 5, 8) == 0);
    assert(count_row(ci, 6, 8) == 8);
    assert(count_row(ci, 7, 8) == 8);
    assert forall|x: int| 0 <= x < 8 implies #[trigger] count_row(ce, x, 8) == 0 by {}
    reveal_with_fuel(count_rows, 9);
}

} // verus!

verus! {

/// The capital of an ASCII small letter.
pub open spec fn ascii_upper(c: char) -> char {
    if 'a' <= c && c <= 'z' {
        ((c as int) - 32) as char
    } else {
        c
    }
}

proof fn lemma_row_cells(b: BoardState, i: int, n: nat)
    ensures
        row_cells(b, i, n).len() == 2 * n,
        forall|j: int|
            0 <= j < n ==> #[trigger] row_cells(b, i, n)[2 * j] == glyph(b.at((i, j))),
    decreases n,
{
    if n > 0 {
        lemma_row_cells(b, i, (n - 1) as nat);
        let prev = row_cells(b, i, (n - 1) as nat);
        let cur = row_cells(b, i, n);
        assert forall|j: int| 0 <= j < n implies #[trigger] cur[2 * j] == glyph(b.at((i, j))) by {
            if j < n - 1 {
                assert(cur[2 * j] == prev[2 * j]);
            }
        }
    }
}

proof fn lemma_rows_text(b: BoardState, n: nat)
    requires
        n <= 8,
    ensures
        rows_text(b, false, n).len() == 19 * n,
        forall|k: int, o: int|
            0 <= k < n && 0 <= o < 19 ==> #[trigger] rows_text(b, false, n)[19 * k + o] == row_text(
                b,
                k,
            )[o],
    decreases n,
{
    if n > 0 {
        lemma_rows_text(b, (n - 1) as nat);
        lemma_row_cells(b, n - 1, 8);
        let prev = rows_text(b, false, (n - 1) as nat);
        let cur = rows_text(b, false, n);
        assert(row_index(false, n - 1) == n - 1);
        assert forall|k: int, o: int|
            0 <= k < n && 0 <= o < 19 implies #[trigger] cur[19 * k + o] == row_text(b, k)[o] by {
            if k < n - 1 {
                assert(cur[19 * k + o] == prev[19 * k + o]);
            }
        }
    }
}

/// In the drawing of a board (rank 8 at the top), row `sq.0` starts with its rank
/// digit, the square is drawn with its glyph in its column, and the last line
/// names its file.
pub proof fn lemma_square_drawn(b: BoardState, sq: (int, int))
    requires
        on_board(sq),
    ensures
        board_text(b, false)[19 * sq.0] == rank_label(sq.0),
        board_text(b, false)[19 * sq.0 + 2 + 2 * sq.1] == glyph(b.at(sq)),
        board_text(b, false)[154 + 2 * sq.1] == ((('A' as int) + sq.1) as char),
{
    lemma_rows_text(b, 8);
    lemma_row_cells(b, sq.0, 8);
    let t = board_text(b, false);
    let r = rows_text(b, false, 8);
    assert(t[19 * sq.0] == r[19 * sq.0 + 0]);
    assert(t[19 * sq.0 + 2 + 2 * sq.1] == r[19 * sq.0 + (2 + 2 * sq.1)]);
    assert(row_text(b, sq.0)[2 + 2 * sq.1] == row_cells(b, sq.0, 8)[2 * sq.1]);
    assert(t[154 + 2 * sq.1] == files_line()[2 + 2 * sq.1]);
    let y = sq.1;
    if y == 0 {
    } else if y == 1 {
    } else if y == 2 {
    } else if y == 3 {
    } else if y == 4 {
    } else if y == 5 {
    } else if y == 6 {
    } else {
    }
}

/// A square typed in a move is drawn under the rank digit and above the file
/// letter that were typed, holding its piece's glyph.
pub proof fn lemma_parsed_square_drawn(s: Seq<char>, b: BoardState)
    requires
        parse_move(s) is Ok,
    ensures
        ({
            let v = parse_move(s)->Ok_0;
            let c = clean_input(s);
            let t = board_text(b, false);
            &&& t[19 * v.from.0] == c[1]
            &&& t[154 + 2 * v.from.1] == ascii_upper(c[0])
            &&& t[19 * v.from.0 + 2 + 2 * v.from.1] == glyph(b.at(v.from))
            &&& t[19 * v.to.0] == c[3]
            &&& t[154 + 2 * v.to.1] == ascii_upper(c[2])
            &&& t[19 * v.to.0 + 2 + 2 * v.to.1] == glyph(b.at(v.to))
        }),
{
    let v = parse_move(s)->Ok_0;
    let c = clean_input(s);
    lemma_square_drawn(b, v.from);
    lemma_square_drawn(b, v.to);
    assert(rank_label(v.from.0) == c[1]);
    assert(rank_label(v.to.0) == c[3]);
}

} // verus!

verus! {

/// An edit of a move text.
pub enum TextEdit {
    /// The character at the index replaced by another.
    Replace(int, char),
    /// A character put in before the index.
    Insert(int, char),
    /// The character at the index taken out.
    Remove(int),
}

/// The characters of a text, lowered, that `keep` keeps.
pub open spec fn clean_with(s: Seq<char>, keep: spec_fn(char) -> bool) -> Seq<char> {
    s.map_values(|c: char| ascii_lower(c)).filter(keep)
}

/// An edit that only changes the case of a letter, or puts in or takes out a
/// character that `keep` drops.
pub open spec fn edit_ok(s: Seq<char>, e: TextEdit, keep: spec_fn(char) -> bool) -> bool {
    match e {
        TextEdit::Replace(i, c) => 0 <= i < s.len() && ascii_lower(c) == ascii_lower(s[i]),
        TextEdit::Insert(i, c) => 0 <= i <= s.len() && !keep(ascii_lower(c)),
        TextEdit::Remove(i) => 0 <= i < s.len() && !keep(ascii_lower(s[i])),
    }
}

pub open spec fn apply_edit(s: Seq<char>, e: TextEdit) -> Seq<char> {
    match e {
        TextEdit::Replace(i, c) => s.update(i, c),
        TextEdit::Insert(i, c) => s.take(i) + seq![c] + s.skip(i),
        TextEdit::Remove(i) => s.remove(i),
    }
}

/// The text after the edits, first to last.
pub open spec fn apply_edits(s: Seq<char>, es: Seq<TextEdit>) -> Seq<char>
    decreases es.len(),
{
    if es.len() == 0 {
        s
    } else {
        apply_edits(apply_edit(s, es[0]), es.drop_first())
    }
}

/// Each edit, on the text it meets, is of the kind `edit_ok` allows.
pub open spec fn edits_ok(s: Seq<char>, es: Seq<TextEdit>, keep: spec_fn(char) -> bool) -> bool
    decreases es.len(),
{
    es.len() == 0 || (edit_ok(s, es[0], keep) && edits_ok(apply_edit(s, es[0]), es.drop_first(), keep))
}

proof fn lemma_clean_insert(a: Seq<char>, b: Seq<char>, c: char, keep: spec_fn(char) -> bool)
    requires
        !keep(ascii_lower(c)),
    ensures
        clean_with(a + seq![c] + b, keep) == clean_with(a + b, keep),
{
    let f = |x: char| ascii_lower(x);
    let (fa, fb, mid) = (a.map_values(f), b.map_values(f), seq![ascii_lower(c)]);
    assert((a + seq![c] + b).map_values(f) =~= fa + mid + fb);
    assert((a + b).map_values(f) =~= fa + fb);
    Seq::filter_distributes_over_add(fa + mid, fb, keep);
    Seq::filter_distributes_over_add(fa, mid, keep);
    Seq::filter_distributes_over_add(fa, fb, keep);
    reveal_with_fuel(Seq::filter, 2);
    assert(mid.drop_last() =~= Seq::<char>::empty());
    assert(mid.filter(keep) =~= Seq::<char>::empty());
    assert(fa.filter(keep) + mid.filter(keep) =~= fa.filter(keep));
}

proof fn lemma_clean_edit(s: Seq<char>, e: TextEdit, keep: spec_fn(char) -> bool)
    requires
        edit_ok(s, e, keep),
    ensures
        clean_with(apply_edit(s, e), keep) == clean_with(s, keep),
{
    let f = |x: char| ascii_lower(x);
    match e {
        TextEdit::Replace(i, c) => {
            assert(s.update(i, c).map_values(f) =~= s.map_values(f));
        },
        TextEdit::Insert(i, c) => {
            assert(s.take(i) + s.skip(i) =~= s);
            lemma_clean_insert(s.take(i), s.skip(i), c, keep);
        },
        TextEdit::Remove(i) => {
            let (a, b) = (s.take(i), s.skip(i + 1));
            assert(a + seq![s[i]] + b =~= s);
            assert(a + b =~= s.remove(i));
            lemma_clean_insert(a, b, s[i], keep);
        },
    }
}

proof fn lemma_clean_edits(s: Seq<char>, es: Seq<TextEdit>, keep: spec_fn(char) -> bool)
    requires
        edits_ok(s, es, keep),
    ensures
        clean_with(apply_edits(s, es), keep) == clean_with(s, keep),
    decreases es.len(),
{
    if es.len() > 0 {
        lemma_clean_edit(s, es[0], keep);
        lemma_clean_edits(apply_edit(s, es[0]), es.drop_first(), keep);
    }
}

/// Reading a move gives the same result after any sequence of edits that change
/// the case of letters or put in or take out characters that are not letters
/// or digits (for an ASCII text: not ASCII letters or digits).
pub proof fn lemma_parse_ignores_edits(s: Seq<char>, es: Seq<TextEdit>)
    ensures
        edits_ok(s, es, |c: char| is_alphanumeric(c)) ==> parse_move(apply_edits(s, es))
            == parse_move(s),
        edits_ok(s, es, |c: char| is_ascii_alnum(c)) ==> parse_ascii(apply_edits(s, es))
            == parse_ascii(s),
{
    if edits_ok(s, es, |c: char| is_alphanumeric(c)) {
        lemma_clean_edits(s, es, |c: char| is_alphanumeric(c));
    }
    if edits_ok(s, es, |c: char| is_ascii_alnum(c)) {
        lemma_clean_edits(s, es, |c: char| is_ascii_alnum(c));
    }
}

} // verus!

verus! {

/// The board after each of `ms` is asked for in turn, by the given side; a
/// refused move changes nothing.
pub open spec fn play_moves(b: BoardState, ms: Seq<(MoveView, Color)>) -> BoardState
    decreases ms.len(),
{
    if ms.len() == 0 {
        b
    } else {
        let prev = play_moves(b, ms.drop_last());
        let (m, c) = ms.last();
        match move_result(prev, m, c) {
            Ok(t) => after_move(prev, m, t),
            Err(_) => prev,
        }
    }
}

/// How many of `ms` were accepted as captures.
pub open spec fn captures(b: BoardState, ms: Seq<(MoveView, Color)>) -> nat
    decreases ms.len(),
{
    if ms.len() == 0 {
        0
    } else {
        let prev = play_moves(b, ms.drop_last());
        captures(b, ms.drop_last()) + (if move_result(prev, ms.last().0, ms.last().1) matches Ok(
            MoveOk::Capture(_, _),
        ) {
            1nat
        } else {
            0nat
        })
    }
}

/// The last of `ms` that was accepted, if any.
pub open spec fn last_accepted(b: BoardState, ms: Seq<(MoveView, Color)>) -> Option<MoveView>
    decreases ms.len(),
{
    if ms.len() == 0 {
        None
    } else {
        let prev = play_moves(b, ms.drop_last());
        if move_result(prev, ms.last().0, ms.last().1) is Ok {
            Some(ms.last().0)
        } else {
            last_accepted(b, ms.drop_last())
        }
    }
}

/// Over any sequence of moves on a valid board: the board stays valid, it loses
/// one piece per capture and no other, and its last move is the last one accepted.
pub proof fn lemma_play_moves(b: BoardState, ms: Seq<(MoveView, Color)>)
    requires
        b.valid(),
        forall|i: int| 0 <= i < ms.len() ==> (#[trigger] ms[i]).0.in_bounds(),
    ensures
        play_moves(b, ms).valid(),
        play_moves(b, ms).piece_count() == b.piece_count() - captures(b, ms),
        play_moves(b, ms).last_move == (match last_accepted(b, ms) {
            Some(m) => Some(m),
            None => b.last_move,
        }),
    decreases ms.len(),
{
    if ms.len() > 0 {
        let rest = ms.drop_last();
        assert forall|i: int| 0 <= i < rest.len() implies (#[trigger] rest[i]).0.in_bounds() by {
            assert(rest[i] == ms[i]);
        }
        lemma_play_moves(b, rest);
        let prev = play_moves(b, rest);
        let (m, c) = ms.last();
        assert(ms[ms.len() - 1].0.in_bounds());
        if move_result(prev, m, c) is Ok {
            lemma_accepted_move_fits(prev, m, c);
            lemma_after_move_keeps_valid(prev, m, move_result(prev, m, c)->Ok_0);
            lemma_capture_removes_one_piece(prev, m, c);
        }
    }
}

/// A game from the starting position: after any sequence of moves the board is
/// valid, holds 32 pieces less one per capture, and its last move is the last
/// one accepted (none if none was).
pub proof fn lemma_game_from_start(ms: Seq<(MoveView, Color)>)
    requires
        forall|i: int| 0 <= i < ms.len() ==> (#[trigger] ms[i]).0.in_bounds(),
    ensures
        play_moves(initial_state(), ms).valid(),
        play_moves(initial_state(), ms).piece_count() == 32 - captures(initial_state(), ms),
        play_moves(initial_state(), ms).last_move == last_accepted(initial_state(), ms),
{
    assert(initial_state().cells.dom() =~= squares());
    lemma_initial_piece_count();
    lemma_play_moves(initial_state(), ms);
    match last_accepted(initial_state(), ms) {
        Some(_) => {},
        None => {},
    }
}

} // verus!

verus! {

/// On a valid board, a move keeps the last move's record honest: a pawn that
/// has just advanced two rows did so from its side's pawn row.
pub proof fn lemma_after_move_double_step(b: BoardState, m: MoveView, player: Color)
    requires
        b.valid(),
        m.in_bounds(),
        move_result(b, m, player) is Ok,
    ensures
        after_move(b, m, move_result(b, m, player)->Ok_0).double_step_from_home(),
{
    lemma_mover_is_players(b, m, player);
    let t = move_result(b, m, player)->Ok_0;
    if t is Castling {
        lemma_castling_moves(b, m, player);
    } else {
        lemma_move_carries_piece(b, m, player);
        assert(home(m.from) == b.at(m.from) || b.at(m.from)->0.has_moved);
    }
}

/// Castling needs every square of the king's row strictly between the king and
/// the rook's corner empty: columns 1, 2 and 3 on the queen's side, 5 and 6 on
/// the king's side, the king standing on column 4.
pub proof fn lemma_castling_needs_empty_between(b: BoardState, m: MoveView, player: Color)
    requires
        b.valid(),
        m.in_bounds(),
        move_result(b, m, player) is Ok,
        move_result(b, m, player)->Ok_0 is Castling,
    ensures
        ({
            let t = move_result(b, m, player)->Ok_0;
            let (king, rook) = (t->king, t->rook);
            &&& sq_of(king) == m.from
            &&& m.from.1 == 4
            &&& rook.0 as int == m.from.0
            &&& rook.1 == 0 || rook.1 == 7
            &&& rook.1 == 0 ==> b.at((m.from.0, 1)) is None && b.at((m.from.0, 2)) is None && b.at(
                (m.from.0, 3),
            ) is None
            &&& rook.1 == 7 ==> b.at((m.from.0, 5)) is None && b.at((m.from.0, 6)) is None
            &&& forall|y: int|
                (rook.1 < y < m.from.1 || m.from.1 < y < rook.1) ==> #[trigger] b.at((m.from.0, y))
                    is None
        }),
{
    lemma_castling_moves(b, m, player);
    let t = move_result(b, m, player)->Ok_0;
    assert forall|y: int|
        (t->rook.1 < y < m.from.1 || m.from.1 < y < t->rook.1) implies #[trigger] b.at((m.from.0, y))
        is None by {
        assert(castle_gap(m.dy(), y));
    }
    assert(castle_gap(m.dy(), 1) == (m.dy() < 0));
}

/// A capture that takes a piece elsewhere than on the arrival square (en
/// passant) takes the pawn beside the start square that the last move brought
/// two rows along its column from its side's pawn row.
pub proof fn lemma_en_passant_after_double_step(
    b: BoardState,
    m: MoveView,
    player: Color,
    x: usize,
    y: usize,
)
    requires
        b.valid(),
        b.double_step_from_home(),
        m.in_bounds(),
        move_result(b, m, player) == Ok::<MoveOk, MoveErr>(MoveOk::Capture(x, y)),
        sq_of((x, y)) != m.to,
    ensures
        x as int == m.from.0,
        y as int == m.to.1,
        b.at(m.to) is None,
        b.at(m.from) matches Some(p) && p.symbol == Symbol::Pawn && p.color == player,
        b.last_move matches Some(l) && l.to == sq_of((x, y)) && l.from.1 == l.to.1 && (l.to.0
            - l.from.0 == 2 || l.from.0 - l.to.0 == 2),
        b.at(sq_of((x, y))) matches Some(q) && q.symbol == Symbol::Pawn && b.last_move->0.from.0
            == pawn_home_row(q.color),
{
    lemma_mover_is_players(b, m, player);
}

/// The sign of an offset.
pub open spec fn sign(d: int) -> int {
    if d > 0 {
        1
    } else if d < 0 {
        -1
    } else {
        0
    }
}

/// The square `i` steps from the start of `m` towards its arrival, one row and
/// one column per step as far as the move goes in each.
pub open spec fn line_square(m: MoveView, i: int) -> (int, int) {
    (m.from.0 + sign(m.dx()) * i, m.from.1 + sign(m.dy()) * i)
}

proof fn lemma_sign_times(d: int, i: int)
    ensures
        sign(d) * i == crate::rules::offset(d, i),
{
    if d > 0 {
        assert(1 * i == i) by (nonlinear_arith);
    } else if d < 0 {
        assert((-1) * i == -i) by (nonlinear_arith);
    } else {
        assert(0 * i == 0) by (nonlinear_arith);
    }
}

proof fn lemma_line_square_is_step(m: MoveView, i: int)
    ensures
        line_square(m, i) == crate::rules::step(m, i),
{
    lemma_sign_times(m.dx(), i);
    lemma_sign_times(m.dy(), i);
}

/// A rook, bishop or queen moves along a row, a column or a diagonal, and every
/// square strictly between its start and its arrival is empty.
pub proof fn lemma_line_moves_jump_nothing(b: BoardState, m: MoveView, player: Color)
    requires
        move_result(b, m, player) is Ok,
        b.at(m.from) matches Some(p) && (p.symbol == Symbol::Rook || p.symbol == Symbol::Bishop
            || p.symbol == Symbol::Queen),
    ensures
        m.dx() == 0 || m.dy() == 0 || abs(m.dx()) == abs(m.dy()),
        forall|i: int|
            1 <= i < (if abs(m.dx()) < abs(m.dy()) {
                abs(m.dy())
            } else {
                abs(m.dx())
            }) ==> #[trigger] b.at(line_square(m, i)) is None,
{
    assert forall|i: int|
        1 <= i < (if abs(m.dx()) < abs(m.dy()) {
            abs(m.dy())
        } else {
            abs(m.dx())
        }) implies #[trigger] b.at(line_square(m, i)) is None by {
        assert(b.at(crate::rules::step(m, i)) is None);
        lemma_line_square_is_step(m, i);
        assert(line_square(m, i) == crate::rules::step(m, i));
    }
}

/// A pawn stepping forward onto the empty last row of its side is promoted:
/// a white pawn from row 1 to row 0, a black pawn from row 6 to row 7.
pub proof fn lemma_pawn_on_last_row_is_promoted(b: BoardState, m: MoveView, player: Color)
    requires
        b.at(m.from) matches Some(p) && p.symbol == Symbol::Pawn && p.color == player,
        m.dy() == 0,
        b.at(m.to) is None,
        (player == Color::White && m.from.0 == 1 && m.to.0 == 0) || (player == Color::Black
            && m.from.0 == 6 && m.to.0 == 7),
    ensures
        move_result(b, m, player) == Ok::<MoveOk, MoveErr>(MoveOk::Promote),
{
}

} // verus!

verus! {

/// Each piece moves in its own way: a knight jumps two squares one way and one
/// the other, a bishop along a diagonal, a rook along a row or a column, a queen
/// along either, a king one square (or two sideways when castling), and a pawn
/// straight ahead onto an empty square (two from its side's pawn row with the
/// square between empty) or one diagonal square ahead.
pub proof fn lemma_move_shapes(b: BoardState, m: MoveView, player: Color)
    requires
        b.valid(),
        m.in_bounds(),
        move_result(b, m, player) is Ok,
    ensures
        ({
            let p = b.at(m.from)->0;
            let t = move_result(b, m, player)->Ok_0;
            let (dx, dy) = (m.dx(), m.dy());
            let ahead: int = if player == Color::White {
                -1
            } else {
                1
            };
            &&& p.symbol == Symbol::Knight ==> (abs(dx) == 1 && abs(dy) == 2) || (abs(dx) == 2
                && abs(dy) == 1)
            &&& p.symbol == Symbol::Bishop ==> abs(dx) == abs(dy) && dx != 0
            &&& p.symbol == Symbol::Rook ==> (dx == 0) != (dy == 0)
            &&& p.symbol == Symbol::Queen ==> (abs(dx) == abs(dy) || dx == 0 || dy == 0) && !(dx
                == 0 && dy == 0)
            &&& p.symbol == Symbol::King ==> (abs(dx) <= 1 && abs(dy) <= 1) || (dx == 0 && abs(dy)
                == 2 && t is Castling)
            &&& p.symbol == Symbol::Pawn ==> {
                ||| dx == ahead && dy == 0 && b.at(m.to) is None
                ||| dx == 2 * ahead && dy == 0 && b.at(m.to) is None && b.at((m.from.0 + ahead, m.from.1))
                    is None && m.from.0 == (if player == Color::White {
                    6int
                } else {
                    1int
                })
                ||| dx == ahead && abs(dy) == 1 && t is Capture
            }
        }),
{
    lemma_mover_is_players(b, m, player);
    let p = b.at(m.from)->0;
    if p.symbol == Symbol::Pawn && !p.has_moved {
        assert(home(m.from) == b.at(m.from));
    }
}

/// Why a move is refused at first sight: a piece of the other side stands on
/// the start square, or the start square is empty.
pub proof fn lemma_first_refusals(b: BoardState, m: MoveView, player: Color)
    ensures
        (move_result(b, m, player) == Err::<MoveOk, MoveErr>(MoveErr::BadColor)) <==> (b.at(
            m.from,
        ) matches Some(p) && p.color != player),
        (move_result(b, m, player) == Err::<MoveOk, MoveErr>(MoveErr::EmptyCase)) <==> (b.at(
            m.from,
        ) is None && m.from != m.to),
{
}

} // verus!
