//! Playing a move: the rules are asked, the board is changed, and what happened is written
//! to the journal.

use crate::board::Board;
use crate::error::ChessError;
use crate::journal::{Journal, JournalLog};
use crate::layout::{find, lemma_find};
use crate::piece::Piece;
use crate::position::Position;
use crate::rules::{
    after_move, assailant, can_move, checkmated, in_check, judged, lemma_assailant,
};
use crate::team::Team;
use vstd::prelude::*;

verus! {

/// The event that tells of the danger in which the king of `team` is: none when no piece
/// of the other side bears on the square where the king is found, or when there is no
/// king; else a check by the first such piece in row-major order, which is a checkmate
/// when `team` has no legal move.
pub open spec fn threat(squares: Seq<Piece>, team: Team) -> Option<JournalLog> {
    match find(squares, Piece::King(team)) {
        Some(king) => match assailant(squares, team.rival(), king) {
            Some(attacker) => if can_move(squares, team) {
                Some(JournalLog::Check(squares[attacker.index()], attacker, king))
            } else {
                Some(JournalLog::CheckMate(squares[attacker.index()], attacker, king))
            },
            None => None,
        },
        None => None,
    }
}

/// What a legal move from `from` to `to` on `squares` adds to the journal: the move; the
/// capture, when `to` was occupied; and the check or checkmate that the move gives to the
/// other side.
pub open spec fn events_of_move(squares: Seq<Piece>, from: Position, to: Position) -> Seq<
    JournalLog,
> {
    let piece = squares[from.index()];
    let target = squares[to.index()];
    let moved = seq![JournalLog::Move(piece, from, to)];
    let captured = if target == Piece::Empty {
        moved
    } else {
        moved.push(JournalLog::Capture(piece, target))
    };
    match piece.side() {
        Some(team) => match threat(after_move(squares, from, to), team.rival()) {
            Some(event) => captured.push(event),
            None => captured,
        },
        None => captured,
    }
}

/// The event that tells of the danger in which the king of `team` is, if it is in any.
pub fn threat_to(board: &Board, team: Team) -> (event: Option<JournalLog>)
    ensures
        event == threat(board@.squares, team),
{
    proof {
        board.lemma_squares_len();
        lemma_find(board@.squares, Piece::King(team));
    }
    match board.get_position(Piece::King(team)) {
        Some(king) => match board.attacker_of(king, team.opponent()) {
            Some(attacker) => {
                proof {
                    lemma_assailant(board@.squares, team.rival(), king);
                }
                let piece: Piece = board.get_piece(&attacker);
                if board.has_legal_move(team) {
                    Some(JournalLog::Check(piece, attacker, king))
                } else {
                    Some(JournalLog::CheckMate(piece, attacker, king))
                }
            },
            None => None,
        },
        None => None,
    }
}

/// Plays the move from `from` to `to` if the rules allow it.
///
/// A move that the rules decline changes neither the board nor the journal, and the reason
/// is returned. A legal move is made on the board, and the journal receives the move, the
/// capture if there was one, and the check or checkmate that the move gives.
pub fn play(board: &mut Board, journal: &mut Journal, from: Position, to: Position) -> (done:
    Result<(), ChessError>)
    requires
        from.on_board(),
        to.on_board(),
    ensures
        done == judged(old(board)@.squares, from, to),
        done is Err ==> final(board)@ == old(board)@ && final(journal)@ == old(journal)@,
        done is Ok ==> final(board)@ == old(board)@.moved(from, to) && final(journal)@ == old(
            journal,
        )@ + events_of_move(old(board)@.squares, from, to),
        old(board).wf() ==> final(board).wf(),
{
    match board.check_piece_move(from, to) {
        Err(error) => Err(error),
        Ok(()) => {
            let piece: Piece = board.get_piece(&from);
            let target: Piece = board.get_piece(&to);
            let _ = board.move_piece(from, to);
            journal.add_log(JournalLog::Move(piece, from, to));
            if target != Piece::Empty {
                journal.add_log(JournalLog::Capture(piece, target));
            }
            if let Some(team) = piece.team() {
                if let Some(event) = threat_to(board, team.opponent()) {
                    journal.add_log(event);
                }
            }
            Ok(())
        },
    }
}

/// An event tells of danger exactly when the king is in check, and it is a checkmate
/// exactly when the side is checkmated.
pub proof fn lemma_threat(squares: Seq<Piece>, team: Team)
    ensures
        threat(squares, team) is Some <==> in_check(squares, team),
        threat(squares, team) matches Some(JournalLog::CheckMate(_, _, _)) <==> checkmated(
            squares,
            team,
        ),
        threat(squares, team) matches Some(JournalLog::Check(_, _, _)) <==> in_check(
            squares,
            team,
        ) && can_move(squares, team),
{
    if let Some(king) = find(squares, Piece::King(team)) {
        lemma_assailant(squares, team.rival(), king);
    }
}

} // verus!
