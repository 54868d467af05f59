//! The chessboard: what every square holds, and what was captured so far.

use crate::error::ChessError;
use crate::layout::{
    count, empty_squares, find, find_piece, initial_squares, is_first_place, lemma_count_bound,
    lemma_count_push, lemma_count_total, lemma_count_update, lemma_find, lemma_initial_census,
    lemma_line_up_is_initial, line_up, occupied, placed, side_count, with_team, with_team_first,
};
use crate::piece::{lemma_home_on_board, Piece};
use crate::position::Position;
use crate::rules::{
    after_move, assailant, can_move, checkmated, first_attacker, has_legal_move, in_check,
    is_checkmated, is_in_check, judge, judged,
};
use crate::team::Team;
use vstd::prelude::*;
use vstd::string::StringExecFns;

verus! {

/// What a board is, for the contracts: the pieces on the 64 squares in row-major order,
/// and the captured pieces in the order of their capture.
pub struct BoardView {
    pub squares: Seq<Piece>,
    pub captured: Seq<Piece>,
}

impl BoardView {
    /// The board at the start of a game: every piece on its starting square, and nothing
    /// captured.
    pub open spec fn initial() -> BoardView {
        BoardView { squares: initial_squares(), captured: Seq::empty() }
    }

    /// What the square at `position` holds.
    pub open spec fn piece_at(self, position: Position) -> Piece {
        self.squares[position.index()]
    }

    /// The first square, in row-major order, that holds `piece`; `None` when no square
    /// does. The empty square is no piece, so it is never found.
    pub open spec fn find(self, piece: Piece) -> Option<Position> {
        find(self.squares, piece)
    }

    /// The board after what stands on `from` was moved to `to`, whatever the rules of the
    /// game say of such a move. What stood on `to` is captured, and `from` is left empty.
    /// Nothing changes when `from` is empty.
    pub open spec fn moved(self, from: Position, to: Position) -> BoardView {
        if self.piece_at(from) == Piece::Empty {
            self
        } else {
            BoardView {
                squares: after_move(self.squares, from, to),
                captured: if self.piece_at(to) == Piece::Empty {
                    self.captured
                } else {
                    self.captured.push(self.piece_at(to))
                },
            }
        }
    }

    /// The board as text for a terminal: every square in row-major order, one rank to a
    /// line.
    pub open spec fn text(self) -> Seq<char> {
        cells_text(self.squares, 64)
    }

    /// The board after it was set up anew.
    pub open spec fn reset(self) -> BoardView {
        BoardView::initial()
    }

    /// Whether the board holds the pieces of one game: there are 64 squares, every piece
    /// of the game is either on one of them or among the captured, and nothing else is.
    pub open spec fn conserved(self) -> bool {
        &&& self.squares.len() == 64
        &&& count(self.captured, Piece::Empty) == 0
        &&& forall|piece: Piece|
            piece != Piece::Empty ==> #[trigger] count(self.squares, piece) + count(
                self.captured,
                piece,
            ) == piece.roster()
    }
}

/// How the square at place `i` is shown: what it holds in bold, its name in italics and a
/// bar, with a line feed after the last square of every rank but the top one.
pub open spec fn cell_text(squares: Seq<Piece>, i: int) -> Seq<char> {
    "\x1b[1;37m"@ + squares[i].text() + "\x1b[0m \x1b[3m"@ + Position::at(i).text()
        + "\x1b[0m | "@ + if i % 8 == 7 && i != 63 {
        "\n"@
    } else {
        Seq::empty()
    }
}

/// How the first `n` squares are shown, one after the other.
pub open spec fn cells_text(squares: Seq<Piece>, n: int) -> Seq<char>
    decreases n,
{
    if n <= 0 {
        Seq::empty()
    } else {
        cells_text(squares, n - 1) + cell_text(squares, n - 1)
    }
}

/// The chessboard with its pieces.
///
/// White starts on ranks 1 and 2, Black on ranks 7 and 8. The squares are kept in
/// row-major order, rank 1 first.
pub struct Board {
    squares: [Piece; 64],
    captured_pieces: Vec<Piece>,
}

impl View for Board {
    type V = BoardView;

    /// What the squares hold, and what was captured.
    closed spec fn view(&self) -> BoardView {
        BoardView { squares: self.squares@, captured: self.captured_pieces@ }
    }
}

impl Board {
    /// Whether the board holds the pieces of one game.
    pub open spec fn wf(&self) -> bool {
        self@.conserved()
    }

    /// A board always has 64 squares.
    pub proof fn lemma_squares_len(&self)
        ensures
            self@.squares.len() == 64,
    {
    }

    /// Makes a board set up for the start of a game.
    pub fn new() -> (board: Self)
        ensures
            board@ == BoardView::initial(),
            board.wf(),
    {
        let mut board = Self { squares: [Piece::Empty;64], captured_pieces: Vec::new() };
        board.reset();
        board
    }

    /// Sets the board up for the start of a game: every square is emptied, both sides are
    /// put on their starting squares, and the captured pieces are forgotten.
    pub fn reset(&mut self)
        ensures
            final(self)@ == old(self)@.reset(),
            final(self).wf(),
    {
        self.squares = [Piece::Empty;64];
        self.captured_pieces = Vec::new();
        assert(self.squares@ =~= empty_squares());
        self.reset_team(Team::White);
        self.reset_team(Team::Black);
        proof {
            lemma_line_up_is_initial();
            lemma_initial_conserved();
        }
    }

    /// Puts the pieces of one side on their starting squares, over whatever stood there.
    fn reset_team(&mut self, team: Team)
        ensures
            final(self)@.squares == with_team(old(self)@.squares, team),
            final(self)@.captured == old(self)@.captured,
    {
        let pieces: Vec<Piece> = vec![
            Piece::King(team),
            Piece::Queen(team),
            Piece::Rook(team),
            Piece::Bishop(team),
            Piece::Knight(team),
            Piece::Pawn(team),
        ];
        let mut n: usize = 0;
        while n < pieces.len()
            invariant
                n <= 6,
                pieces@ == line_up(team),
                self.squares@ == with_team_first(old(self).squares@, team, n as int),
                self.captured_pieces@ == old(self).captured_pieces@,
            decreases 6 - n,
        {
            let piece: Piece = pieces[n];
            if let Ok(positions) = piece.initial_positions() {
                let mut k: usize = 0;
                while k < positions.len()
                    invariant
                        k <= positions@.len(),
                        positions@ == piece.home(),
                        self.squares@ == placed(
                            with_team_first(old(self).squares@, team, n as int),
                            piece,
                            k as int,
                        ),
                        self.captured_pieces@ == old(self).captured_pieces@,
                    decreases positions@.len() - k,
                {
                    proof {
                        lemma_home_on_board(piece);
                    }
                    self.squares[positions[k].to_index()] = piece;
                    k += 1;
                }
            }
            n += 1;
        }
    }

    /// What the square at `position` holds; `Piece::Empty` when nothing stands there.
    pub fn get_piece(&self, position: &Position) -> (piece: Piece)
        requires
            position.on_board(),
        ensures
            piece == self@.piece_at(*position),
    {
        self.squares[position.to_index()]
    }

    /// The first square, in row-major order, that holds `piece_with_team`; `None` when no
    /// square does, as when every such piece was captured. The empty square is no piece and
    /// is never found.
    pub fn get_position(&self, piece_with_team: Piece) -> (position: Option<Position>)
        ensures
            position == self@.find(piece_with_team),
    {
        find_piece(&self.squares, piece_with_team)
    }

    /// Moves what stands on `from_position` to `to_position`, whatever the rules of the
    /// game say of such a move: see [`Board::check_piece_move`] for those.
    ///
    /// What stood on `to_position` is added to the captured pieces, and `from_position` is
    /// left empty. A move from an empty square is declined, and nothing changes.
    pub fn move_piece(&mut self, from_position: Position, to_position: Position) -> (done: Result<
        (),
        ChessError,
    >)
        requires
            from_position.on_board(),
            to_position.on_board(),
        ensures
            final(self)@ == old(self)@.moved(from_position, to_position),
            old(self)@.piece_at(from_position) == Piece::Empty ==> done == Err::<(), ChessError>(
                ChessError::EmptySource,
            ),
            old(self)@.piece_at(from_position) != Piece::Empty ==> done == Ok::<(), ChessError>(
                (),
            ),
            old(self).wf() ==> final(self).wf(),
    {
        proof {
            if old(self).wf() {
                lemma_moved_conserved(old(self)@, from_position, to_position);
            }
        }
        let piece: Piece = self.get_piece(&from_position);
        if piece == Piece::Empty {
            return Err(ChessError::EmptySource);
        }
        let to_piece: Piece = self.get_piece(&to_position);
        if to_piece != Piece::Empty {
            self.captured_pieces.push(to_piece);
        }
        self.squares[to_position.to_index()] = piece;
        self.squares[from_position.to_index()] = Piece::Empty;
        Ok(())
    }

    /// What the rules say of moving what stands on `from_position` to `to_position`. The
    /// board is not changed: a legal move is made by [`Board::move_piece`].
    ///
    /// The move is declined for an empty `from_position`; then as blocked when the piece
    /// does not move that way or something stands in its path; then as a capture of a
    /// friend when `to_position` holds a piece of the mover's side; then when it would
    /// leave the mover's own king in check.
    pub fn check_piece_move(&self, from_position: Position, to_position: Position) -> (verdict:
        Result<(), ChessError>)
        requires
            from_position.on_board(),
            to_position.on_board(),
        ensures
            verdict == judged(self@.squares, from_position, to_position),
    {
        judge(&self.squares, &from_position, &to_position)
    }

    /// The board as text for a terminal: the squares in row-major order, one rank to a
    /// line, each square with what it holds and its name.
    pub fn to_string(&self) -> (text: String)
        ensures
            text@ == self@.text(),
    {
        let mut text = String::new();
        let mut i: usize = 0;
        while i < 64
            invariant
                i <= 64,
                text@ == cells_text(self.squares@, i as int),
            decreases 64 - i,
        {
            text.append("\x1b[1;37m");
            text.append(self.squares[i].to_string().as_str());
            text.append("\x1b[0m \x1b[3m");
            text.append(Position::from_index(i).unwrap().to_string().as_str());
            text.append("\x1b[0m | ");
            if i % 8 == 7 && i != 63 {
                text.append("\n");
            }
            i += 1;
        }
        text
    }

    /// The first square, in row-major order, with a piece of side `by` that bears on
    /// `target`: it could capture there, were an enemy on `target`. `None` when no piece
    /// of that side does.
    pub fn attacker_of(&self, target: Position, by: Team) -> (attacker: Option<Position>)
        requires
            target.on_board(),
        ensures
            attacker == assailant(self@.squares, by, target),
    {
        first_attacker(&self.squares, by, &target)
    }

    /// Whether the king of `team` is in check.
    pub fn is_in_check(&self, team: Team) -> (check: bool)
        ensures
            check == in_check(self@.squares, team),
    {
        is_in_check(&self.squares, team)
    }

    /// Whether `team` has a legal move at all.
    pub fn has_legal_move(&self, team: Team) -> (any: bool)
        ensures
            any == can_move(self@.squares, team),
    {
        has_legal_move(&self.squares, team)
    }

    /// Whether `team` is checkmated: its king is in check and no legal move is left to it.
    pub fn is_checkmate(&self, team: Team) -> (mate: bool)
        ensures
            mate == checkmated(self@.squares, team),
    {
        is_checkmated(&self.squares, team)
    }

    /// The captured pieces, in the order of their capture.
    pub fn captured_pieces(&self) -> (captured: &Vec<Piece>)
        ensures
            captured@ == self@.captured,
    {
        &self.captured_pieces
    }
}

/// The board at the start of a game holds the pieces of one game.
pub proof fn lemma_initial_conserved()
    ensures
        BoardView::initial().conserved(),
{
    let start = BoardView::initial();
    assert forall|piece: Piece| piece != Piece::Empty implies #[trigger] count(
        start.squares,
        piece,
    ) + count(start.captured, piece) == piece.roster() by {
        lemma_initial_census(piece);
    }
}

/// A move keeps the pieces of the game: what leaves the squares joins the captured.
pub proof fn lemma_moved_conserved(board: BoardView, from: Position, to: Position)
    requires
        board.conserved(),
        from.on_board(),
        to.on_board(),
    ensures
        board.moved(from, to).conserved(),
{
    let mover = board.piece_at(from);
    let target = board.piece_at(to);
    let after = board.moved(from, to);
    if mover != Piece::Empty {
        let landed = board.squares.update(to.index(), mover);
        assert(count(after.captured, Piece::Empty) == 0) by {
            if target != Piece::Empty {
                lemma_count_push(board.captured, target, Piece::Empty);
            }
        }
        assert forall|piece: Piece| piece != Piece::Empty implies #[trigger] count(
            after.squares,
            piece,
        ) + count(after.captured, piece) == piece.roster() by {
            lemma_count_update(board.squares, to.index(), mover, piece);
            lemma_count_update(landed, from.index(), Piece::Empty, piece);
            if target != Piece::Empty {
                lemma_count_push(board.captured, target, piece);
            }
        }
    }
}

/// On a board that holds the pieces of one game, the pieces of a side that stand on the
/// squares and those that were captured make sixteen together.
pub proof fn lemma_conserved_side(board: BoardView, team: Team)
    requires
        board.conserved(),
    ensures
        side_count(board.squares, team) + side_count(board.captured, team) == 16,
        count(board.squares, Piece::King(team)) <= 1,
{
    let on_board = board.squares;
    let taken = board.captured;
    assert(count(on_board, Piece::King(team)) + count(taken, Piece::King(team)) == 1);
    assert(count(on_board, Piece::Queen(team)) + count(taken, Piece::Queen(team)) == 1);
    assert(count(on_board, Piece::Rook(team)) + count(taken, Piece::Rook(team)) == 2);
    assert(count(on_board, Piece::Bishop(team)) + count(taken, Piece::Bishop(team)) == 2);
    assert(count(on_board, Piece::Knight(team)) + count(taken, Piece::Knight(team)) == 2);
    assert(count(on_board, Piece::Pawn(team)) + count(taken, Piece::Pawn(team)) == 8);
}

/// On a board that holds the pieces of one game, the occupied squares and the captured
/// pieces make thirty-two together.
pub proof fn lemma_conserved_tally(board: BoardView)
    requires
        board.conserved(),
    ensures
        occupied(board.squares) + board.captured.len() == 32,
        0 <= occupied(board.squares) <= 32,
{
    lemma_count_total(board.squares);
    lemma_count_total(board.captured);
    lemma_count_bound(board.squares, Piece::Empty);
    lemma_conserved_side(board, Team::White);
    lemma_conserved_side(board, Team::Black);
}

/// Moving a piece onto another square that is occupied captures what stood there: that
/// piece, and nothing else, is added at the end of the captured pieces; the square then
/// holds the piece that moved, the square it left is empty, and one square fewer is
/// occupied.
pub proof fn lemma_capture(board: BoardView, from: Position, to: Position)
    requires
        board.squares.len() == 64,
        from.on_board(),
        to.on_board(),
        from != to,
        board.piece_at(from) != Piece::Empty,
        board.piece_at(to) != Piece::Empty,
    ensures
        board.moved(from, to).captured == board.captured.push(board.piece_at(to)),
        board.moved(from, to).piece_at(to) == board.piece_at(from),
        board.moved(from, to).piece_at(from) == Piece::Empty,
        occupied(board.moved(from, to).squares) == occupied(board.squares) - 1,
{
    let landed = board.squares.update(to.index(), board.piece_at(from));
    lemma_count_update(board.squares, to.index(), board.piece_at(from), Piece::Empty);
    lemma_count_update(landed, from.index(), Piece::Empty, Piece::Empty);
}

/// Moving a piece onto an empty square captures nothing, and as many squares are occupied
/// as before; so is a move from an empty square, which changes nothing at all.
pub proof fn lemma_quiet_move(board: BoardView, from: Position, to: Position)
    requires
        board.squares.len() == 64,
        from.on_board(),
        to.on_board(),
        board.piece_at(from) == Piece::Empty || board.piece_at(to) == Piece::Empty,
    ensures
        board.moved(from, to).captured == board.captured,
        occupied(board.moved(from, to).squares) == occupied(board.squares),
        board.piece_at(from) == Piece::Empty ==> board.moved(from, to) == board,
        board.piece_at(from) != Piece::Empty ==> board.moved(from, to).piece_at(to)
            == board.piece_at(from) && board.moved(from, to).piece_at(from) == Piece::Empty,
{
    if board.piece_at(from) != Piece::Empty {
        let landed = board.squares.update(to.index(), board.piece_at(from));
        lemma_count_update(board.squares, to.index(), board.piece_at(from), Piece::Empty);
        lemma_count_update(landed, from.index(), Piece::Empty, Piece::Empty);
    }
}

/// A move changes no square but the two it names.
pub proof fn lemma_move_elsewhere(board: BoardView, from: Position, to: Position, other: Position)
    requires
        board.squares.len() == 64,
        from.on_board(),
        to.on_board(),
        other.on_board(),
        other != from,
        other != to,
    ensures
        board.moved(from, to).piece_at(other) == board.piece_at(other),
{
}

/// At the start of a game a piece is found on the first of its starting squares: the white
/// king on e1 and the black queen on d8, for two.
pub proof fn lemma_initial_find(piece: Piece)
    requires
        piece != Piece::Empty,
    ensures
        BoardView::initial().find(piece) == Some(piece.home()[0]),
        BoardView::initial().find(Piece::King(Team::White)) == Some(Position { x: 'e', y: 1 }),
        BoardView::initial().find(Piece::Queen(Team::Black)) == Some(Position { x: 'd', y: 8 }),
{
    lemma_initial_first_place(piece);
    lemma_initial_first_place(Piece::King(Team::White));
    lemma_initial_first_place(Piece::Queen(Team::Black));
}

/// At the start of a game the first square to hold a piece is the first of its starting
/// squares.
proof fn lemma_initial_first_place(piece: Piece)
    requires
        piece != Piece::Empty,
    ensures
        find(initial_squares(), piece) == Some(piece.home()[0]),
{
    let first = piece.home()[0];
    assert(is_first_place(initial_squares(), piece, first.index()));
    lemma_find(initial_squares(), piece);
}

/// Setting a board up twice gives what setting it up once gives, whatever it held.
pub proof fn lemma_reset_idempotent(board: BoardView)
    ensures
        board.reset().reset() == board.reset(),
        board.reset() == BoardView::initial(),
{
}

} // verus!
