use chess::{
    accepts_draw, game_step, Board, Check, Color, GameAction, GameEvent, GameState, Move, MoveErr,
    MoveOk, Outcome, PlayerInput,
};

fn mv(s: &str) -> Move {
    Move::from_str(s).unwrap()
}

fn play(board: &mut Board, moves: &[(&str, Color)]) -> Vec<Result<MoveOk, MoveErr>> {
    moves.iter().map(|(m, c)| board.apply(mv(m), *c)).collect()
}

/// The drawn line of a rank; pieces by letter, upper case for white, `.` for empty.
fn line(rank: u32, cells: &str) -> String {
    let mut s = format!("{} ", rank);
    for c in cells.chars() {
        let g = match c {
            'p' => '♙',
            'n' => '♘',
            'b' => '♗',
            'r' => '♖',
            'q' => '♕',
            'k' => '♔',
            'P' => '♟',
            'N' => '♞',
            'B' => '♝',
            'R' => '♜',
            'Q' => '♛',
            'K' => '♚',
            _ => ' ',
        };
        s.push(g);
        s.push(' ');
    }
    s
}

fn empty_row(rank: u32) -> String {
    format!("{}\n", line(rank, "........"))
}

fn initial_text() -> String {
    let mut s = String::new();
    s.push_str("8 ♖ ♘ ♗ ♕ ♔ ♗ ♘ ♖ \n");
    s.push_str("7 ♙ ♙ ♙ ♙ ♙ ♙ ♙ ♙ \n");
    for r in [6, 5, 4, 3] {
        s.push_str(&empty_row(r));
    }
    s.push_str("2 ♟ ♟ ♟ ♟ ♟ ♟ ♟ ♟ \n");
    s.push_str("1 ♜ ♞ ♝ ♛ ♚ ♝ ♞ ♜ \n");
    s.push_str("  A B C D E F G H\n");
    s
}

#[test]
fn from_str_reads_squares() {
    assert_eq!(format!("{:?}", mv("e2e4")), "Move { from: (6, 4), to: (4, 4) }");
    assert_eq!(format!("{:?}", mv("a8h1")), "Move { from: (0, 0), to: (7, 7) }");
    assert_eq!(format!("{:?}", mv("h1a8")), "Move { from: (7, 7), to: (0, 0) }");
}

#[test]
fn from_str_lowers_and_drops_separators() {
    assert_eq!(format!("{:?}", mv("E2E4")), "Move { from: (6, 4), to: (4, 4) }");
    assert_eq!(format!("{:?}", mv("e2-e4\n")), "Move { from: (6, 4), to: (4, 4) }");
    assert_eq!(format!("{:?}", mv(" b1 c3 ")), "Move { from: (7, 1), to: (5, 2) }");
}

#[test]
fn from_str_wrong_length_is_invalid_input() {
    assert_eq!(Move::from_str("e2e").unwrap_err(), MoveErr::InvalidInput);
    assert_eq!(Move::from_str("e2e4e5").unwrap_err(), MoveErr::InvalidInput);
    assert_eq!(Move::from_str("").unwrap_err(), MoveErr::InvalidInput);
    assert_eq!(Move::from_str("--").unwrap_err(), MoveErr::InvalidInput);
}

#[test]
fn from_str_off_board_is_out_of_bound() {
    assert_eq!(Move::from_str("i2e4").unwrap_err(), MoveErr::OutOfBound);
    assert_eq!(Move::from_str("e9e4").unwrap_err(), MoveErr::OutOfBound);
    assert_eq!(Move::from_str("e2e0").unwrap_err(), MoveErr::OutOfBound);
    assert_eq!(Move::from_str("22e4").unwrap_err(), MoveErr::OutOfBound);
    assert_eq!(Move::from_str("draw\n").unwrap_err(), MoveErr::OutOfBound);
    // a non-ASCII letter is kept, and lies off the board
    assert_eq!(Move::from_str("é2e4").unwrap_err(), MoveErr::OutOfBound);
}

#[test]
fn from_clean_takes_kept_characters() {
    let m = Move::from_clean(&vec!['g', '1', 'f', '3']).unwrap();
    assert_eq!(format!("{:?}", m), "Move { from: (7, 6), to: (5, 5) }");
    assert_eq!(Move::from_clean(&vec!['g', '1', 'f']).unwrap_err(), MoveErr::InvalidInput);
    assert_eq!(Move::from_clean(&vec!['G', '1', 'f', '3']).unwrap_err(), MoveErr::OutOfBound);
}

#[test]
fn new_board_drawing() {
    assert_eq!(Board::new().to_string(false), initial_text());
}

#[test]
fn inverted_drawing_lists_ranks_upwards() {
    let text = Board::new().to_string(true);
    let lines: Vec<&str> = text.lines().collect();
    assert_eq!(lines.len(), 9);
    assert_eq!(lines[0], "1 ♜ ♞ ♝ ♛ ♚ ♝ ♞ ♜ ");
    assert_eq!(lines[1], "2 ♟ ♟ ♟ ♟ ♟ ♟ ♟ ♟ ");
    assert_eq!(lines[6], "7 ♙ ♙ ♙ ♙ ♙ ♙ ♙ ♙ ");
    assert_eq!(lines[7], "8 ♖ ♘ ♗ ♕ ♔ ♗ ♘ ♖ ");
    assert_eq!(lines[8], "  A B C D E F G H");
}

#[test]
fn empty_board_drawing() {
    let text = Board::empty().to_string(false);
    let mut expected = String::new();
    for r in (1..=8).rev() {
        expected.push_str(&empty_row(r));
    }
    expected.push_str("  A B C D E F G H\n");
    assert_eq!(text, expected);
}

#[test]
fn empty_board_has_nothing_to_move() {
    let mut b = Board::empty();
    assert_eq!(b.apply(mv("e2e4"), Color::White), Err(MoveErr::EmptyCase));
    assert_eq!(b.check_state(), Check::No);
}

#[test]
fn pawn_single_and_double_steps() {
    let mut b = Board::new();
    assert_eq!(b.apply(mv("e2e4"), Color::White), Ok(MoveOk::Move));
    assert_eq!(b.apply(mv("d7d6"), Color::Black), Ok(MoveOk::Move));
    // a pawn that has moved cannot step twice
    assert_eq!(b.apply(mv("e4e6"), Color::White), Err(MoveErr::InvalidMove));
    // nor backwards
    assert_eq!(b.apply(mv("e4e3"), Color::White), Err(MoveErr::InvalidMove));
    assert_eq!(b.apply(mv("e4e5"), Color::White), Ok(MoveOk::Move));
}

#[test]
fn pawn_double_step_needs_free_way() {
    let mut b = Board::new();
    assert_eq!(b.apply(mv("g1f3"), Color::White), Ok(MoveOk::Move));
    assert_eq!(b.apply(mv("f2f4"), Color::White), Err(MoveErr::InvalidMove));
}

#[test]
fn wrong_side_is_bad_color() {
    let mut b = Board::new();
    assert_eq!(b.apply(mv("e7e5"), Color::White), Err(MoveErr::BadColor));
    assert_eq!(b.apply(mv("e2e4"), Color::Black), Err(MoveErr::BadColor));
}

#[test]
fn empty_start_square_is_empty_case() {
    let mut b = Board::new();
    assert_eq!(b.apply(mv("e3e4"), Color::White), Err(MoveErr::EmptyCase));
}

#[test]
fn staying_put_is_invalid() {
    let mut b = Board::new();
    assert_eq!(b.apply(mv("e2e2"), Color::White), Err(MoveErr::InvalidMove));
    assert_eq!(b.apply(mv("e4e4"), Color::White), Err(MoveErr::InvalidMove));
}

#[test]
fn blocked_and_own_square_moves_are_invalid() {
    let mut b = Board::new();
    assert_eq!(b.apply(mv("a1a3"), Color::White), Err(MoveErr::InvalidMove));
    assert_eq!(b.apply(mv("d1d2"), Color::White), Err(MoveErr::InvalidMove));
    assert_eq!(b.apply(mv("c1e3"), Color::White), Err(MoveErr::InvalidMove));
    assert_eq!(b.apply(mv("b1d2"), Color::White), Err(MoveErr::InvalidMove));
}

#[test]
fn refused_move_leaves_board_unchanged() {
    let mut b = Board::new();
    let before = b.to_string(false);
    assert!(b.apply(mv("a1a5"), Color::White).is_err());
    assert!(b.apply(mv("e7e5"), Color::White).is_err());
    assert_eq!(b.to_string(false), before);
}

#[test]
fn knight_and_bishop_and_queen_moves() {
    let mut b = Board::new();
    let res = play(
        &mut b,
        &[
            ("g1f3", Color::White),
            ("e7e6", Color::Black),
            ("e2e3", Color::White),
            ("d8h4", Color::Black),
            ("f1c4", Color::White),
            ("h4f2", Color::Black),
        ],
    );
    assert_eq!(
        res,
        vec![
            Ok(MoveOk::Move),
            Ok(MoveOk::Move),
            Ok(MoveOk::Move),
            Ok(MoveOk::Move),
            Ok(MoveOk::Move),
            Ok(MoveOk::Capture(6, 5)),
        ]
    );
    // a knight does not move like a bishop
    assert_eq!(b.apply(mv("f3h5"), Color::White), Err(MoveErr::InvalidMove));
}

#[test]
fn pawn_capture() {
    let mut b = Board::new();
    let res = play(&mut b, &[("e2e4", Color::White), ("d7d5", Color::Black), ("e4d5", Color::White)]);
    assert_eq!(res[2], Ok(MoveOk::Capture(3, 3)));
    let text = b.to_string(false);
    assert_eq!(text.lines().nth(3).unwrap(), line(5, "...P...."));
    assert_eq!(text.lines().nth(4).unwrap(), line(4, "........"));
}

#[test]
fn pawn_cannot_capture_forward() {
    let mut b = Board::new();
    let res = play(&mut b, &[("e2e4", Color::White), ("e7e5", Color::Black), ("e4e5", Color::White)]);
    assert_eq!(res[2], Err(MoveErr::InvalidMove));
}

#[test]
fn diagonal_pawn_step_to_empty_square_is_invalid() {
    let mut b = Board::new();
    assert_eq!(b.apply(mv("e2d3"), Color::White), Err(MoveErr::InvalidMove));
}

#[test]
fn en_passant_by_white() {
    let mut b = Board::new();
    let res = play(
        &mut b,
        &[
            ("e2e4", Color::White),
            ("a7a6", Color::Black),
            ("e4e5", Color::White),
            ("d7d5", Color::Black),
            ("e5d6", Color::White),
        ],
    );
    assert_eq!(res[4], Ok(MoveOk::Capture(3, 3)));
    let text = b.to_string(false);
    // the passed pawn is gone, the capturing pawn stands on d6
    assert_eq!(text.lines().nth(2).unwrap(), line(6, "p..P...."));
    assert_eq!(text.lines().nth(3).unwrap(), line(5, "........"));
}

#[test]
fn en_passant_only_right_after_the_double_step() {
    let mut b = Board::new();
    let res = play(
        &mut b,
        &[
            ("e2e4", Color::White),
            ("a7a6", Color::Black),
            ("e4e5", Color::White),
            ("d7d5", Color::Black),
            ("h2h3", Color::White),
            ("a6a5", Color::Black),
            ("e5d6", Color::White),
        ],
    );
    assert_eq!(res[6], Err(MoveErr::InvalidMove));
}

#[test]
fn promotion_on_last_row() {
    let mut b = Board::new();
    let res = play(
        &mut b,
        &[
            ("h2h4", Color::White),
            ("g7g5", Color::Black),
            ("h4g5", Color::White),
            ("h7h5", Color::Black),
            ("g5g6", Color::White),
            ("h8h6", Color::Black),
            ("g6g7", Color::White),
            ("g8f6", Color::Black),
            ("g7g8", Color::White),
        ],
    );
    assert_eq!(res[2], Ok(MoveOk::Capture(3, 6)));
    assert!(res[..8].iter().all(|r| r.is_ok()));
    assert_eq!(res[8], Ok(MoveOk::Promote));
}

#[test]
fn castling_king_side() {
    let mut b = Board::new();
    let res = play(
        &mut b,
        &[
            ("e2e4", Color::White),
            ("e7e5", Color::Black),
            ("g1f3", Color::White),
            ("b8c6", Color::Black),
            ("f1c4", Color::White),
            ("g8f6", Color::Black),
            ("e1g1", Color::White),
        ],
    );
    assert_eq!(res[6], Ok(MoveOk::Castling { king: (7, 4), rook: (7, 7) }));
    let text = b.to_string(false);
    assert_eq!(text.lines().nth(7).unwrap(), line(1, "RNBQ.RK."));
}

#[test]
fn castling_queen_side() {
    let mut b = Board::new();
    let res = play(
        &mut b,
        &[
            ("e2e4", Color::White),
            ("d7d5", Color::Black),
            ("a2a3", Color::White),
            ("b8c6", Color::Black),
            ("a3a4", Color::White),
            ("c8f5", Color::Black),
            ("h2h3", Color::White),
            ("d8d7", Color::Black),
            ("h3h4", Color::White),
            ("e8c8", Color::Black),
        ],
    );
    assert!(res[..9].iter().all(|r| r.is_ok()));
    assert_eq!(res[9], Ok(MoveOk::Castling { king: (0, 4), rook: (0, 0) }));
    let text = b.to_string(false);
    assert_eq!(text.lines().next().unwrap(), line(8, "..kr.bnr"));
}

#[test]
fn castling_refused_when_way_blocked_or_king_moved() {
    let mut b = Board::new();
    assert_eq!(b.apply(mv("e1g1"), Color::White), Err(MoveErr::InvalidMove));
    let res = play(
        &mut b,
        &[
            ("e2e4", Color::White),
            ("e7e5", Color::Black),
            ("g1f3", Color::White),
            ("b8c6", Color::Black),
            ("f1c4", Color::White),
            ("g8f6", Color::Black),
            ("e1e2", Color::White),
            ("a7a6", Color::Black),
            ("e2e1", Color::White),
            ("a6a5", Color::Black),
        ],
    );
    assert!(res.iter().all(|r| r.is_ok()));
    assert_eq!(b.apply(mv("e1g1"), Color::White), Err(MoveErr::InvalidMove));
}

#[test]
fn king_steps_one_square() {
    let mut b = Board::new();
    assert!(b.apply(mv("e2e4"), Color::White).is_ok());
    assert_eq!(b.apply(mv("e1e3"), Color::White), Err(MoveErr::InvalidMove));
    assert_eq!(b.apply(mv("e1e2"), Color::White), Ok(MoveOk::Move));
    assert_eq!(b.apply(mv("e2d3"), Color::White), Ok(MoveOk::Move));
}

#[test]
fn check_status_is_for_the_side_that_moved() {
    let mut b = Board::new();
    assert_eq!(b.check_state(), Check::No);
    let res = play(
        &mut b,
        &[
            ("f2f3", Color::White),
            ("e7e5", Color::Black),
            ("g2g4", Color::White),
            ("d8h4", Color::Black),
        ],
    );
    assert!(res.iter().all(|r| r.is_ok()));
    // the black queen attacks the white king, but Black's own king is safe
    assert_eq!(b.check_state(), Check::No);
    // White plays on without answering: White's king is left attacked
    assert_eq!(b.apply(mv("a2a3"), Color::White), Ok(MoveOk::Move));
    assert_eq!(b.check_state(), Check::Check);
}

#[test]
fn king_cannot_step_into_check() {
    let mut b = Board::new();
    let res = play(
        &mut b,
        &[
            ("e2e4", Color::White),
            ("d7d5", Color::Black),
            ("e1e2", Color::White),
            ("d5d4", Color::Black),
        ],
    );
    assert!(res.iter().all(|r| r.is_ok()));
    // e3 is attacked by the pawn on d4
    assert_eq!(b.apply(mv("e2e3"), Color::White), Err(MoveErr::KingCheck));
    assert_eq!(b.apply(mv("e2d3"), Color::White), Ok(MoveOk::Move));
    assert_eq!(b.check_state(), Check::No);
}

#[test]
fn castling_refused_onto_attacked_square() {
    let mut b = Board::new();
    let res = play(
        &mut b,
        &[
            ("e2e4", Color::White),
            ("e7e6", Color::Black),
            ("g1h3", Color::White),
            ("f8c5", Color::Black),
            ("f1e2", Color::White),
            ("a7a6", Color::Black),
            ("f2f3", Color::White),
            ("a6a5", Color::Black),
        ],
    );
    assert!(res.iter().all(|r| r.is_ok()));
    // the bishop on c5 sees g1 through d4, e3 and f2
    assert_eq!(b.apply(mv("e1g1"), Color::White), Err(MoveErr::InvalidMove));
    // once the diagonal is closed, castling is allowed
    assert_eq!(b.apply(mv("d2d4"), Color::White), Ok(MoveOk::Move));
    assert_eq!(b.apply(mv("a5a4"), Color::Black), Ok(MoveOk::Move));
    assert_eq!(b.apply(mv("e1g1"), Color::White), Ok(MoveOk::Castling { king: (7, 4), rook: (7, 7) }));
}

#[test]
fn en_passant_by_black() {
    let mut b = Board::new();
    let res = play(
        &mut b,
        &[
            ("a2a3", Color::White),
            ("d7d5", Color::Black),
            ("a3a4", Color::White),
            ("d5d4", Color::Black),
            ("e2e4", Color::White),
            ("d4e3", Color::Black),
        ],
    );
    assert!(res[..5].iter().all(|r| r.is_ok()));
    assert_eq!(res[5], Ok(MoveOk::Capture(4, 4)));
    let text = b.to_string(false);
    assert_eq!(text.lines().nth(4).unwrap(), line(4, "P......."));
    assert_eq!(text.lines().nth(5).unwrap(), line(3, "....p..."));
}

#[test]
fn color_invert() {
    assert_eq!(Color::White.invert(), Color::Black);
    assert_eq!(Color::Black.invert(), Color::White);
}

#[test]
fn board_is_copied_not_shared() {
    let mut b = Board::new();
    let c = b.clone();
    assert!(b.apply(mv("e2e4"), Color::White).is_ok());
    assert_eq!(c.to_string(false), initial_text());
    assert_ne!(b.to_string(false), initial_text());
}

fn start() -> GameState {
    GameState { turn: Color::White, draw_asked: false }
}

#[test]
fn game_accepted_move_passes_turn() {
    let (s, a) = game_step(start(), GameEvent::Played(Ok(MoveOk::Move)), Check::No);
    assert_eq!(s, GameState { turn: Color::Black, draw_asked: false });
    assert_eq!(a, GameAction::Continue);
}

#[test]
fn game_refused_move_changes_nothing() {
    let (s, a) = game_step(start(), GameEvent::Played(Err(MoveErr::BadColor)), Check::No);
    assert_eq!(s, start());
    assert_eq!(a, GameAction::Refused(MoveErr::BadColor));
}

#[test]
fn game_reports_check_of_the_mover() {
    let (s, a) = game_step(start(), GameEvent::Played(Ok(MoveOk::Move)), Check::Check);
    assert_eq!(s.turn, Color::Black);
    assert_eq!(a, GameAction::InCheck(Color::White));
    let (_, a) = game_step(start(), GameEvent::Played(Ok(MoveOk::Move)), Check::Checkmate);
    assert_eq!(a, GameAction::Finished(Outcome::Checkmate(Color::Black)));
}

#[test]
fn game_draw_offer_and_answers() {
    let (s, a) = game_step(start(), GameEvent::DrawOffered, Check::No);
    assert_eq!(s, GameState { turn: Color::Black, draw_asked: true });
    assert_eq!(a, GameAction::Continue);
    let (s2, a2) = game_step(s, GameEvent::DrawAnswered(false), Check::No);
    assert_eq!(s2, GameState { turn: Color::Black, draw_asked: false });
    assert_eq!(a2, GameAction::Continue);
    let (_, a3) = game_step(s, GameEvent::DrawAnswered(true), Check::No);
    assert_eq!(a3, GameAction::Finished(Outcome::Draw));
}

#[test]
fn game_surrender_ends_with_current_side_losing() {
    let s = GameState { turn: Color::Black, draw_asked: false };
    let (s2, a) = game_step(s, GameEvent::Surrendered, Check::No);
    assert_eq!(s2, s);
    assert_eq!(a, GameAction::Finished(Outcome::Surrender(Color::Black)));
}

fn pieces_drawn(b: &Board) -> usize {
    b.to_string(false).chars().filter(|c| ('♔'..='♟').contains(c)).count()
}

#[test]
fn captures_remove_one_piece_each() {
    let mut b = Board::new();
    assert_eq!(pieces_drawn(&b), 32);
    let res = play(
        &mut b,
        &[
            ("e2e4", Color::White),
            ("d7d5", Color::Black),
            ("e4d5", Color::White),
            ("d8d5", Color::Black),
            ("g1f3", Color::White),
        ],
    );
    let captures = res.iter().filter(|r| matches!(r, Ok(MoveOk::Capture(_, _)))).count();
    assert_eq!(captures, 2);
    assert_eq!(pieces_drawn(&b), 32 - captures);
}

#[test]
fn typed_keywords_and_moves() {
    assert!(matches!(PlayerInput::read("DRAW"), Ok(PlayerInput::Draw)));
    assert!(matches!(PlayerInput::read("Surrend"), Ok(PlayerInput::Surrender)));
    assert!(matches!(PlayerInput::read("surrender"), Ok(PlayerInput::Surrender)));
    match PlayerInput::read("E2E4") {
        Ok(PlayerInput::Move(m)) => assert_eq!(format!("{:?}", m), "Move { from: (6, 4), to: (4, 4) }"),
        _ => panic!("a move was expected"),
    }
    assert!(matches!(PlayerInput::read("draws"), Err(MoveErr::InvalidInput)));
    assert!(matches!(PlayerInput::read("e2"), Err(MoveErr::InvalidInput)));
    // the line as read keeps its line break, and is then no keyword
    assert!(matches!(PlayerInput::read("draw\n"), Err(MoveErr::OutOfBound)));
}

#[test]
fn draw_answers() {
    assert!(accepts_draw("YES"));
    assert!(accepts_draw("y"));
    assert!(accepts_draw("Ok"));
    assert!(!accepts_draw("no"));
    assert!(!accepts_draw("yes\n"));
}
