use pawn::arbiter::{play, threat_to};
use pawn::board::Board;
use pawn::error::ChessError;
use pawn::journal::{Journal, JournalLog};
use pawn::piece::Piece;
use pawn::position::Position;
use pawn::team::Team;

fn at(name: &str) -> Position {
    let mut letters = name.chars();
    let file = letters.next().unwrap();
    let rank = letters.next().unwrap().to_digit(10).unwrap();
    let position = Position::new(file, rank);
    assert!(position.is_on_board());
    position
}

fn relocate(board: &mut Board, from: &str, to: &str) {
    assert_eq!(board.move_piece(at(from), at(to)), Ok(()));
}

#[test]
fn move_from_an_empty_square_is_declined() {
    let mut board = Board::new();
    assert_eq!(board.check_piece_move(at("e4"), at("e5")), Err(ChessError::EmptySource));
    assert_eq!(board.move_piece(at("e4"), at("e5")), Err(ChessError::EmptySource));
    assert_eq!(board.get_piece(&at("e5")), Piece::Empty);
    assert_eq!(board.captured_pieces().len(), 0);
}

#[test]
fn rook_does_not_pass_the_first_obstruction() {
    let mut board = Board::new();
    // On the first rank and on file a every square next to the rook is taken.
    assert_eq!(board.check_piece_move(at("a1"), at("a3")), Err(ChessError::Blocked));
    assert_eq!(board.check_piece_move(at("a1"), at("a8")), Err(ChessError::Blocked));
    assert_eq!(board.check_piece_move(at("a1"), at("c1")), Err(ChessError::Blocked));
    assert_eq!(board.check_piece_move(at("a1"), at("h1")), Err(ChessError::Blocked));
    // The obstruction itself is a friend.
    assert_eq!(board.check_piece_move(at("a1"), at("a2")), Err(ChessError::FriendlyCapture));
    assert_eq!(board.check_piece_move(at("a1"), at("b1")), Err(ChessError::FriendlyCapture));
    // A rook does not move along a diagonal.
    assert_eq!(board.check_piece_move(at("a1"), at("b2")), Err(ChessError::Blocked));

    // With the pawn out of the way the file is open up to the black pawn on a7.
    relocate(&mut board, "a2", "b3");
    assert_eq!(board.check_piece_move(at("a1"), at("a2")), Ok(()));
    assert_eq!(board.check_piece_move(at("a1"), at("a6")), Ok(()));
    assert_eq!(board.check_piece_move(at("a1"), at("a7")), Ok(()));
    assert_eq!(board.check_piece_move(at("a1"), at("a8")), Err(ChessError::Blocked));
}

#[test]
fn knight_jumps_over_its_neighbours() {
    let mut board = Board::new();
    assert_eq!(board.check_piece_move(at("b1"), at("a3")), Ok(()));
    assert_eq!(board.check_piece_move(at("b1"), at("c3")), Ok(()));
    assert_eq!(board.check_piece_move(at("b1"), at("d2")), Err(ChessError::FriendlyCapture));
    assert_eq!(board.check_piece_move(at("b1"), at("b3")), Err(ChessError::Blocked));
    assert_eq!(board.check_piece_move(at("b1"), at("c2")), Err(ChessError::Blocked));
    assert_eq!(board.check_piece_move(at("b1"), at("b1")), Err(ChessError::Blocked));

    relocate(&mut board, "d2", "d3");
    assert_eq!(board.check_piece_move(at("b1"), at("d2")), Ok(()));
}

#[test]
fn knight_on_an_otherwise_empty_board() {
    let mut board = Board::new();
    // The knight of b1 takes everything else off the board, square by square.
    relocate(&mut board, "b1", "a1");
    let mut knight = at("a1");
    for index in 0..64 {
        let square = Position::from_index(index).unwrap();
        if square != knight {
            assert_eq!(board.move_piece(knight, square), Ok(()));
            knight = square;
        }
    }
    assert_eq!(knight, at("h8"));
    assert_eq!(board.captured_pieces().len(), 31);
    relocate(&mut board, "h8", "b1");
    for index in 0..64 {
        let square = Position::from_index(index).unwrap();
        let expected = if square == at("b1") { Piece::Knight(Team::White) } else { Piece::Empty };
        assert_eq!(board.get_piece(&square), expected);
    }

    assert_eq!(board.check_piece_move(at("b1"), at("a3")), Ok(()));
    assert_eq!(board.check_piece_move(at("b1"), at("c3")), Ok(()));
    assert_eq!(board.check_piece_move(at("b1"), at("d2")), Ok(()));
    assert_eq!(board.check_piece_move(at("b1"), at("d1")), Err(ChessError::Blocked));
    assert_eq!(board.check_piece_move(at("b1"), at("b3")), Err(ChessError::Blocked));
}

#[test]
fn pawn_steps_and_captures() {
    let mut board = Board::new();
    assert_eq!(board.check_piece_move(at("e2"), at("e3")), Ok(()));
    assert_eq!(board.check_piece_move(at("e2"), at("e4")), Ok(()));
    assert_eq!(board.check_piece_move(at("e2"), at("e5")), Err(ChessError::Blocked));
    assert_eq!(board.check_piece_move(at("e2"), at("d3")), Err(ChessError::Blocked));
    assert_eq!(board.check_piece_move(at("e2"), at("e1")), Err(ChessError::Blocked));
    assert_eq!(board.check_piece_move(at("e7"), at("e6")), Ok(()));
    assert_eq!(board.check_piece_move(at("e7"), at("e5")), Ok(()));
    assert_eq!(board.check_piece_move(at("e7"), at("e8")), Err(ChessError::Blocked));

    // Only from its starting rank does a pawn step two squares.
    relocate(&mut board, "e2", "e3");
    assert_eq!(board.check_piece_move(at("e3"), at("e5")), Err(ChessError::Blocked));
    assert_eq!(board.check_piece_move(at("e3"), at("e4")), Ok(()));
    assert_eq!(board.check_piece_move(at("e3"), at("e2")), Err(ChessError::Blocked));

    // Nothing may stand in the way of the double step, nor on its target.
    relocate(&mut board, "b8", "d3");
    assert_eq!(board.check_piece_move(at("d2"), at("d4")), Err(ChessError::Blocked));
    assert_eq!(board.check_piece_move(at("d2"), at("d3")), Err(ChessError::Blocked));
    relocate(&mut board, "d3", "c4");
    assert_eq!(board.check_piece_move(at("c2"), at("c4")), Err(ChessError::Blocked));
    assert_eq!(board.check_piece_move(at("c2"), at("c3")), Ok(()));

    // A pawn captures diagonally forward, and only an enemy.
    relocate(&mut board, "c4", "d4");
    assert_eq!(board.check_piece_move(at("e3"), at("d4")), Ok(()));
    assert_eq!(board.check_piece_move(at("e3"), at("f4")), Err(ChessError::Blocked));
    relocate(&mut board, "g1", "f4");
    assert_eq!(board.check_piece_move(at("e3"), at("f4")), Err(ChessError::FriendlyCapture));
    assert_eq!(board.check_piece_move(at("d4"), at("e3")), Err(ChessError::Blocked));
    // Black pawns go down the board.
    relocate(&mut board, "d7", "d4");
    assert_eq!(board.get_piece(&at("d4")), Piece::Pawn(Team::Black));
    assert_eq!(board.check_piece_move(at("d4"), at("e3")), Ok(()));
    assert_eq!(board.check_piece_move(at("d4"), at("d3")), Ok(()));
    assert_eq!(board.check_piece_move(at("d4"), at("d5")), Err(ChessError::Blocked));
    assert_eq!(board.check_piece_move(at("d4"), at("d2")), Err(ChessError::Blocked));
}

#[test]
fn king_steps_one_square() {
    let mut board = Board::new();
    assert_eq!(board.check_piece_move(at("e1"), at("e2")), Err(ChessError::FriendlyCapture));
    relocate(&mut board, "e1", "e4");
    for target in ["d3", "e3", "f3", "d4", "f4", "d5", "e5", "f5"] {
        assert_eq!(board.check_piece_move(at("e4"), at(target)), Ok(()), "{}", target);
    }
    assert_eq!(board.check_piece_move(at("e4"), at("e4")), Err(ChessError::Blocked));
    assert_eq!(board.check_piece_move(at("e4"), at("e6")), Err(ChessError::Blocked));
    assert_eq!(board.check_piece_move(at("e4"), at("g4")), Err(ChessError::Blocked));
    assert_eq!(board.check_piece_move(at("e4"), at("g6")), Err(ChessError::Blocked));
    // On the fifth rank the king would stand next to nothing, but on the sixth the black
    // pawns bear on it.
    relocate(&mut board, "e4", "e5");
    assert_eq!(board.check_piece_move(at("e5"), at("e6")), Err(ChessError::SelfCheck));
    assert_eq!(board.check_piece_move(at("e5"), at("d6")), Err(ChessError::SelfCheck));
    assert_eq!(board.check_piece_move(at("e5"), at("e4")), Ok(()));
}

#[test]
fn bishop_and_queen_lines() {
    let mut board = Board::new();
    assert_eq!(board.check_piece_move(at("c1"), at("a3")), Err(ChessError::Blocked));
    assert_eq!(board.check_piece_move(at("d1"), at("d3")), Err(ChessError::Blocked));
    relocate(&mut board, "d2", "d4");
    assert_eq!(board.check_piece_move(at("c1"), at("d2")), Ok(()));
    assert_eq!(board.check_piece_move(at("c1"), at("h6")), Ok(()));
    assert_eq!(board.check_piece_move(at("c1"), at("c3")), Err(ChessError::Blocked));
    assert_eq!(board.check_piece_move(at("d1"), at("d2")), Ok(()));
    assert_eq!(board.check_piece_move(at("d1"), at("d3")), Ok(()));
    assert_eq!(board.check_piece_move(at("d1"), at("d4")), Err(ChessError::FriendlyCapture));
    assert_eq!(board.check_piece_move(at("d1"), at("d5")), Err(ChessError::Blocked));
    assert_eq!(board.check_piece_move(at("d1"), at("e3")), Err(ChessError::Blocked));

    relocate(&mut board, "c1", "e4");
    assert_eq!(board.check_piece_move(at("e4"), at("h7")), Ok(()));
    assert_eq!(board.check_piece_move(at("e4"), at("b7")), Ok(()));
    assert_eq!(board.check_piece_move(at("e4"), at("a8")), Err(ChessError::Blocked));
    assert_eq!(board.check_piece_move(at("e4"), at("g2")), Err(ChessError::FriendlyCapture));
    assert_eq!(board.check_piece_move(at("e4"), at("h1")), Err(ChessError::Blocked));
    assert_eq!(board.check_piece_move(at("e4"), at("e5")), Err(ChessError::Blocked));

    relocate(&mut board, "d1", "d3");
    assert_eq!(board.check_piece_move(at("d3"), at("a3")), Ok(()));
    assert_eq!(board.check_piece_move(at("d3"), at("h3")), Ok(()));
    assert_eq!(board.check_piece_move(at("d3"), at("a6")), Ok(()));
    assert_eq!(board.check_piece_move(at("d3"), at("f5")), Err(ChessError::Blocked));
    assert_eq!(board.check_piece_move(at("d3"), at("d1")), Ok(()));
    assert_eq!(board.check_piece_move(at("d3"), at("e5")), Err(ChessError::Blocked));
}

#[test]
fn pinned_piece_may_not_leave_the_line() {
    let mut board = Board::new();
    relocate(&mut board, "e2", "a3");
    relocate(&mut board, "e7", "a6");
    relocate(&mut board, "d8", "e7");
    assert!(board.is_in_check(Team::White));
    assert!(!board.is_in_check(Team::Black));
    assert_eq!(board.attacker_of(at("e1"), Team::Black), Some(at("e7")));
    assert_eq!(board.attacker_of(at("e1"), Team::White), Some(at("d1")));

    // The bishop steps in between, and must then stay there.
    assert_eq!(board.check_piece_move(at("f1"), at("e2")), Ok(()));
    assert_eq!(board.check_piece_move(at("f1"), at("d3")), Err(ChessError::SelfCheck));
    relocate(&mut board, "f1", "e2");
    assert!(!board.is_in_check(Team::White));
    assert_eq!(board.check_piece_move(at("e2"), at("d3")), Err(ChessError::SelfCheck));
    assert_eq!(board.check_piece_move(at("e2"), at("f1")), Err(ChessError::SelfCheck));
    assert_eq!(board.check_piece_move(at("b1"), at("c3")), Ok(()));
    // Nothing was changed by all the questions.
    assert_eq!(board.get_piece(&at("e2")), Piece::Bishop(Team::White));
    assert_eq!(board.get_piece(&at("d3")), Piece::Empty);
    assert_eq!(board.captured_pieces().len(), 0);
}

#[test]
fn fools_mate_is_written_down() {
    let mut board = Board::new();
    let mut journal = Journal::new();
    assert_eq!(play(&mut board, &mut journal, at("f2"), at("f3")), Ok(()));
    assert_eq!(play(&mut board, &mut journal, at("e7"), at("e5")), Ok(()));
    assert_eq!(play(&mut board, &mut journal, at("g2"), at("g4")), Ok(()));
    assert!(board.has_legal_move(Team::White));
    assert!(!board.is_checkmate(Team::White));
    assert_eq!(threat_to(&board, Team::White), None);
    assert_eq!(play(&mut board, &mut journal, at("d8"), at("h4")), Ok(()));

    assert!(board.is_in_check(Team::White));
    assert!(!board.has_legal_move(Team::White));
    assert!(board.is_checkmate(Team::White));
    assert!(!board.is_checkmate(Team::Black));
    assert_eq!(
        journal.logs(),
        &vec![
            JournalLog::Move(Piece::Pawn(Team::White), at("f2"), at("f3")),
            JournalLog::Move(Piece::Pawn(Team::Black), at("e7"), at("e5")),
            JournalLog::Move(Piece::Pawn(Team::White), at("g2"), at("g4")),
            JournalLog::Move(Piece::Queen(Team::Black), at("d8"), at("h4")),
            JournalLog::CheckMate(Piece::Queen(Team::Black), at("h4"), at("e1")),
        ]
    );
    assert_eq!(
        journal.to_string(),
        "Move of Pawn(White) from f2 to f3\n\
         Move of Pawn(Black) from e7 to e5\n\
         Move of Pawn(White) from g2 to g4\n\
         Move of Queen(Black) from d8 to h4\n\
         Checkmate on e1 by Queen(Black) from h4\n"
    );
}

#[test]
fn play_writes_captures_and_checks() {
    let mut board = Board::new();
    let mut journal = Journal::new();
    assert_eq!(play(&mut board, &mut journal, at("e2"), at("e4")), Ok(()));
    assert_eq!(play(&mut board, &mut journal, at("d7"), at("d5")), Ok(()));
    assert_eq!(play(&mut board, &mut journal, at("e4"), at("d5")), Ok(()));
    assert_eq!(board.captured_pieces(), &vec![Piece::Pawn(Team::Black)]);
    assert_eq!(play(&mut board, &mut journal, at("e7"), at("e6")), Ok(()));
    assert_eq!(play(&mut board, &mut journal, at("f1"), at("b5")), Ok(()));
    assert_eq!(
        journal.logs()[3..],
        [
            JournalLog::Capture(Piece::Pawn(Team::White), Piece::Pawn(Team::Black)),
            JournalLog::Move(Piece::Pawn(Team::Black), at("e7"), at("e6")),
            JournalLog::Move(Piece::Bishop(Team::White), at("f1"), at("b5")),
            JournalLog::Check(Piece::Bishop(Team::White), at("b5"), at("e8")),
        ]
    );
    assert_eq!(journal.logs().len(), 7);
    assert_eq!(
        threat_to(&board, Team::Black),
        Some(JournalLog::Check(Piece::Bishop(Team::White), at("b5"), at("e8")))
    );
    assert_eq!(
        JournalLog::Check(Piece::Bishop(Team::White), at("b5"), at("e8")).to_string(),
        "Check on e8 by Bishop(White) from b5"
    );

    // A declined move leaves everything as it was.
    let before = journal.logs().clone();
    assert_eq!(play(&mut board, &mut journal, at("a7"), at("a6")), Err(ChessError::SelfCheck));
    assert_eq!(play(&mut board, &mut journal, at("a4"), at("a5")), Err(ChessError::EmptySource));
    assert_eq!(play(&mut board, &mut journal, at("a8"), at("a5")), Err(ChessError::Blocked));
    assert_eq!(play(&mut board, &mut journal, at("a8"), at("a7")), Err(ChessError::FriendlyCapture));
    assert_eq!(journal.logs(), &before);
    assert_eq!(board.get_piece(&at("a7")), Piece::Pawn(Team::Black));
    assert_eq!(board.captured_pieces().len(), 1);
    // The check is met by a piece that steps in between.
    assert_eq!(play(&mut board, &mut journal, at("c7"), at("c6")), Ok(()));
    assert_eq!(journal.logs().len(), 8);
}
