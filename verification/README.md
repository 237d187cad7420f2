# chess

A chess board for two players, verified with Verus.

- `src/piece.rs`: pieces, colors, check status.
- `src/movement.rs`: moves, their results, and reading a move such as `e2e4`.
- `src/rules.rs`: the model of a board (`BoardState`) and the rules of play as spec functions,
  among them what a square being attacked and a king being in check mean.
- `src/board.rs`: the board, the validation of moves and their execution, proved against the rules.
- `src/render.rs`: the board drawn as text.
- `src/game.rs`: the turn-by-turn decisions of a game (turns, draw offers, surrender, the end).
- `src/command.rs`: what a player types: a move, `draw`, `surrender`, or the answer to a draw offer.
- `src/laws.rs`: properties of the rules (validity kept by play, a move never lands on the mover's
  own piece, a king never moves into check, what castling and captures do, the piece count over a
  whole game, reading a move ignores any edits of case and separators, a typed square is drawn
  under its own rank and file, ...).
- `app/main.rs`: the interactive game on the terminal.

The check status of a board says whether the side that made the last move has its king
attacked. Moves of the king, castling included, are refused when they would leave it attacked;
other moves are not tested for that. Checkmate is not detected, and a promoted pawn stays a pawn.
