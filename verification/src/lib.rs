//! A chessboard with its pieces, the rules by which the pieces move, and a journal of what
//! happened in a game.

pub mod arbiter;
pub mod board;
pub mod error;
pub mod journal;
pub mod layout;
pub mod piece;
pub mod position;
pub mod rules;
pub mod team;
pub mod text;
