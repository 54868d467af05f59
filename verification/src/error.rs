//! The ways in which a request to the board can be declined.

use vstd::prelude::*;

verus! {

/// Why a request was declined. The board is left as it was in every case.
#[derive(Debug, Clone, Copy, PartialEq, Eq, Structural)]
pub enum ChessError {
    /// The square to move from holds no piece.
    EmptySource,
    /// The piece does not move that way, or something stands in its path.
    Blocked,
    /// The square to move to holds a piece of the mover's own side.
    FriendlyCapture,
    /// The move would leave the mover's own king attacked.
    SelfCheck,
    /// The request has no meaning, such as the starting squares of no piece.
    InvalidOperation,
}

impl ChessError {
    /// A sentence that says what went wrong.
    pub open spec fn text(self) -> Seq<char> {
        match self {
            ChessError::EmptySource => "there is no piece on the square to move from"@,
            ChessError::Blocked => "the piece cannot reach that square"@,
            ChessError::FriendlyCapture => "the square is held by a piece of the same side"@,
            ChessError::SelfCheck => "the move would leave the king in check"@,
            ChessError::InvalidOperation => "the operation has no meaning for this value"@,
        }
    }

    /// A sentence that says what went wrong.
    pub fn message(&self) -> (text: &'static str)
        ensures
            text@ == self.text(),
    {
        match self {
            ChessError::EmptySource => "there is no piece on the square to move from",
            ChessError::Blocked => "the piece cannot reach that square",
            ChessError::FriendlyCapture => "the square is held by a piece of the same side",
            ChessError::SelfCheck => "the move would leave the king in check",
            ChessError::InvalidOperation => "the operation has no meaning for this value",
        }
    }
}

} // verus!
