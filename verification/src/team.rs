//! The two sides of a game.

use vstd::prelude::*;
use vstd::string::StringExecFns;

verus! {

/// One of the two sides of a game.
#[derive(Debug, Clone, Copy, PartialEq, Eq, Structural)]
pub enum Team {
    Black,
    White,
}

impl Team {
    /// The side that plays against this one.
    pub open spec fn rival(self) -> Team {
        match self {
            Team::Black => Team::White,
            Team::White => Team::Black,
        }
    }

    /// The rank, counted from 0, on which the side's king, queen, rooks, bishops and
    /// knights start.
    pub open spec fn back_rank(self) -> int {
        match self {
            Team::Black => 7,
            Team::White => 0,
        }
    }

    /// The rank, counted from 0, on which the side's pawns start.
    pub open spec fn pawn_rank(self) -> int {
        match self {
            Team::Black => 6,
            Team::White => 1,
        }
    }

    /// The change of rank when a pawn of the side steps forward: up for White, down for
    /// Black.
    pub open spec fn forward(self) -> int {
        match self {
            Team::Black => -1,
            Team::White => 1,
        }
    }

    /// The name of the side in lower case.
    pub open spec fn text(self) -> Seq<char> {
        match self {
            Team::Black => "black"@,
            Team::White => "white"@,
        }
    }

    /// The name of the side with a capital.
    pub open spec fn title(self) -> Seq<char> {
        match self {
            Team::Black => "Black"@,
            Team::White => "White"@,
        }
    }

    /// The side that plays against this one.
    pub fn opponent(&self) -> (other: Team)
        ensures
            other == self.rival(),
    {
        match self {
            Team::Black => Team::White,
            Team::White => Team::Black,
        }
    }

    /// The name of the side in lower case, `black` or `white`.
    pub fn to_string(&self) -> (text: String)
        ensures
            text@ == self.text(),
    {
        match self {
            Team::Black => String::from_str("black"),
            Team::White => String::from_str("white"),
        }
    }
}

} // verus!
