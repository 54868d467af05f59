//! The pieces, and where each of them starts the game.

use crate::error::ChessError;
use crate::position::{square, Position};
use crate::team::Team;
use vstd::prelude::*;
use vstd::string::StringExecFns;

verus! {

/// What a square holds: a piece of one of the six kinds with its side, or nothing.
///
/// `Piece::Empty` stands for the empty square, so that a square needs no `Option`.
#[derive(Debug, Clone, Copy, PartialEq, Eq, Structural)]
pub enum Piece {
    King(Team),
    Queen(Team),
    Rook(Team),
    Bishop(Team),
    Knight(Team),
    Pawn(Team),
    Empty,
}

impl Piece {
    /// The side of the piece; the empty square has none.
    pub open spec fn side(self) -> Option<Team> {
        match self {
            Piece::King(team) => Some(team),
            Piece::Queen(team) => Some(team),
            Piece::Rook(team) => Some(team),
            Piece::Bishop(team) => Some(team),
            Piece::Knight(team) => Some(team),
            Piece::Pawn(team) => Some(team),
            Piece::Empty => None,
        }
    }

    /// The squares on which the pieces of this kind and side start the game, by file
    /// ascending: one for a king or a queen, two for a rook, a bishop or a knight, and the
    /// eight of the side's second rank for a pawn. The empty square starts nowhere.
    pub open spec fn home(self) -> Seq<Position> {
        match self {
            Piece::King(team) => seq![square(4, team.back_rank())],
            Piece::Queen(team) => seq![square(3, team.back_rank())],
            Piece::Rook(team) => seq![square(0, team.back_rank()), square(7, team.back_rank())],
            Piece::Bishop(team) => seq![square(2, team.back_rank()), square(5, team.back_rank())],
            Piece::Knight(team) => seq![square(1, team.back_rank()), square(6, team.back_rank())],
            Piece::Pawn(team) => Seq::new(8, |file: int| square(file, team.pawn_rank())),
            Piece::Empty => Seq::empty(),
        }
    }

    /// How many pieces of this kind and side there are in a game.
    pub open spec fn roster(self) -> nat {
        self.home().len()
    }

    /// The written form of the piece: its kind, then its side in round brackets, such as
    /// `Queen(Black)`; `Empty` for the empty square.
    pub open spec fn text(self) -> Seq<char> {
        match self {
            Piece::King(team) => "King("@ + team.title() + ")"@,
            Piece::Queen(team) => "Queen("@ + team.title() + ")"@,
            Piece::Rook(team) => "Rook("@ + team.title() + ")"@,
            Piece::Bishop(team) => "Bishop("@ + team.title() + ")"@,
            Piece::Knight(team) => "Knight("@ + team.title() + ")"@,
            Piece::Pawn(team) => "Pawn("@ + team.title() + ")"@,
            Piece::Empty => "Empty"@,
        }
    }

    /// The side of the piece; the empty square has none.
    pub fn team(&self) -> (team: Option<Team>)
        ensures
            team == self.side(),
    {
        match self {
            Piece::King(team) => Some(*team),
            Piece::Queen(team) => Some(*team),
            Piece::Rook(team) => Some(*team),
            Piece::Bishop(team) => Some(*team),
            Piece::Knight(team) => Some(*team),
            Piece::Pawn(team) => Some(*team),
            Piece::Empty => None,
        }
    }

    /// The squares on which the pieces of this kind and side start the game, by file
    /// ascending. The empty square has no such squares: asking for them is declined as an
    /// invalid operation.
    pub fn initial_positions(&self) -> (squares: Result<Vec<Position>, ChessError>)
        ensures
            *self == Piece::Empty ==> squares == Err::<Vec<Position>, ChessError>(
                ChessError::InvalidOperation,
            ),
            *self != Piece::Empty ==> squares is Ok && squares->Ok_0@ == self.home(),
    {
        let mut squares: Vec<Position> = Vec::new();
        match self {
            Piece::King(team) => {
                squares.push(Position::new('e', back_rank_of(*team)));
            },
            Piece::Queen(team) => {
                squares.push(Position::new('d', back_rank_of(*team)));
            },
            Piece::Rook(team) => {
                squares.push(Position::new('a', back_rank_of(*team)));
                squares.push(Position::new('h', back_rank_of(*team)));
            },
            Piece::Bishop(team) => {
                squares.push(Position::new('c', back_rank_of(*team)));
                squares.push(Position::new('f', back_rank_of(*team)));
            },
            Piece::Knight(team) => {
                squares.push(Position::new('b', back_rank_of(*team)));
                squares.push(Position::new('g', back_rank_of(*team)));
            },
            Piece::Pawn(team) => {
                let rank: u32 = pawn_rank_of(*team);
                let mut file: u8 = 0;
                while file < 8
                    invariant
                        file <= 8,
                        rank == team.pawn_rank() + 1,
                        squares@ == Seq::new(file as nat, |f: int| square(f, team.pawn_rank())),
                    decreases 8 - file,
                {
                    squares.push(Position::new((97 + file) as char, rank));
                    file += 1;
                }
            },
            Piece::Empty => {
                return Err(ChessError::InvalidOperation);
            },
        }
        Ok(squares)
    }

    /// The written form of the piece, such as `Queen(Black)`, or `Empty` for the empty
    /// square.
    pub fn to_string(&self) -> (text: String)
        ensures
            text@ == self.text(),
    {
        match self {
            Piece::King(team) => side_in_brackets("King(", *team),
            Piece::Queen(team) => side_in_brackets("Queen(", *team),
            Piece::Rook(team) => side_in_brackets("Rook(", *team),
            Piece::Bishop(team) => side_in_brackets("Bishop(", *team),
            Piece::Knight(team) => side_in_brackets("Knight(", *team),
            Piece::Pawn(team) => side_in_brackets("Pawn(", *team),
            Piece::Empty => String::from_str("Empty"),
        }
    }
}

/// The number of the rank on which the side's king starts.
fn back_rank_of(team: Team) -> (rank: u32)
    ensures
        rank == team.back_rank() + 1,
{
    match team {
        Team::Black => 8,
        Team::White => 1,
    }
}

/// The number of the rank on which the side's pawns start.
fn pawn_rank_of(team: Team) -> (rank: u32)
    ensures
        rank == team.pawn_rank() + 1,
{
    match team {
        Team::Black => 7,
        Team::White => 2,
    }
}

/// `opening`, the side's name with a capital, and a closing bracket.
fn side_in_brackets(opening: &str, team: Team) -> (text: String)
    ensures
        text@ == opening@ + team.title() + ")"@,
{
    let mut text = String::from_str(opening);
    match team {
        Team::Black => text.append("Black"),
        Team::White => text.append("White"),
    }
    text.append(")");
    text
}

/// The starting squares of every piece lie on the board, and no two of them are the same.
pub proof fn lemma_home_on_board(piece: Piece)
    ensures
        forall|k: int| 0 <= k < piece.home().len() ==> (#[trigger] piece.home()[k]).on_board(),
        forall|j: int, k: int|
            0 <= j < k < piece.home().len() ==> piece.home()[j] != piece.home()[k],
{
}

} // verus!
