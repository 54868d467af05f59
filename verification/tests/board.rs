use pawn::board::Board;
use pawn::error::ChessError;
use pawn::piece::Piece;
use pawn::position::Position;
use pawn::team::Team;

#[test]
fn board_positions() {
    let chessboard = Board::new();

    println!("{}", chessboard.to_string());

    assert_eq!(
        chessboard.get_position(Piece::Rook(Team::White)),
        Some(Position::new('a', 1))
    );

    assert_eq!(
        chessboard.get_position(Piece::King(Team::Black)),
        Some(Position::new('e', 8))
    );
}

#[test]
fn move_pieces() {
    let mut chessboard = Board::new();
    println!("1:\n{}", chessboard.to_string());

    // The bishop on c1 cannot go to b2: its own pawn stands there.
    match chessboard.check_piece_move(Position::new('c', 1), Position::new('b', 2)) {
        Err(error) => assert_eq!(error, ChessError::FriendlyCapture),
        Ok(()) => panic!("a piece may not capture one of its own side"),
    }

    assert_eq!(chessboard.move_piece(Position::new('b', 2), Position::new('b', 3)), Ok(()));
    println!("2:\n{}", chessboard.to_string());

    assert_eq!(chessboard.get_piece(&Position::new('b', 2)), Piece::Empty);
    assert_eq!(chessboard.get_piece(&Position::new('b', 3)), Piece::Pawn(Team::White));
}

fn every_square() -> Vec<Position> {
    (0..64).map(|i| Position::from_index(i).unwrap()).collect()
}

fn squares_of(board: &Board) -> Vec<Piece> {
    every_square().iter().map(|square| board.get_piece(square)).collect()
}

#[test]
fn board_after_reset() {
    let mut board = Board::new();
    board.reset();
    assert_eq!(board.get_position(Piece::King(Team::White)), Some(Position::new('e', 1)));
    assert_eq!(board.get_position(Piece::Queen(Team::Black)), Some(Position::new('d', 8)));
    assert_eq!(board.get_position(Piece::Pawn(Team::White)), Some(Position::new('a', 2)));
    assert_eq!(board.get_position(Piece::Pawn(Team::Black)), Some(Position::new('a', 7)));
    assert_eq!(board.get_position(Piece::Knight(Team::Black)), Some(Position::new('b', 8)));
    assert_eq!(board.get_position(Piece::Empty), None);

    let squares = squares_of(&board);
    let white = squares.iter().filter(|piece| piece.team() == Some(Team::White)).count();
    let black = squares.iter().filter(|piece| piece.team() == Some(Team::Black)).count();
    let empty = squares.iter().filter(|piece| **piece == Piece::Empty).count();
    assert_eq!(white, 16);
    assert_eq!(black, 16);
    assert_eq!(empty, 32);
    assert_eq!(board.captured_pieces().len(), 0);
}

#[test]
fn starting_squares_hold_their_pieces() {
    let board = Board::new();
    let back = [
        Piece::Rook, Piece::Knight, Piece::Bishop, Piece::Queen,
        Piece::King, Piece::Bishop, Piece::Knight, Piece::Rook,
    ];
    for (n, x) in ('a'..='h').enumerate() {
        assert_eq!(board.get_piece(&Position::new(x, 1)), back[n](Team::White));
        assert_eq!(board.get_piece(&Position::new(x, 2)), Piece::Pawn(Team::White));
        for y in 3..=6 {
            assert_eq!(board.get_piece(&Position::new(x, y)), Piece::Empty);
        }
        assert_eq!(board.get_piece(&Position::new(x, 7)), Piece::Pawn(Team::Black));
        assert_eq!(board.get_piece(&Position::new(x, 8)), back[n](Team::Black));
    }
    for team in [Team::White, Team::Black] {
        for kind in [Piece::King, Piece::Queen, Piece::Rook, Piece::Bishop, Piece::Knight, Piece::Pawn] {
            let piece = kind(team);
            for square in piece.initial_positions().unwrap() {
                assert_eq!(board.get_piece(&square), piece);
            }
        }
    }
}

#[test]
fn reset_twice_is_reset_once() {
    let mut once = Board::new();
    assert_eq!(once.move_piece(Position::new('e', 2), Position::new('e', 7)), Ok(()));
    assert_eq!(once.move_piece(Position::new('a', 8), Position::new('c', 3)), Ok(()));
    let mut twice = Board::new();
    assert_eq!(twice.move_piece(Position::new('b', 1), Position::new('d', 8)), Ok(()));
    once.reset();
    twice.reset();
    twice.reset();
    assert_eq!(squares_of(&once), squares_of(&twice));
    assert_eq!(squares_of(&once), squares_of(&Board::new()));
    assert_eq!(once.captured_pieces(), twice.captured_pieces());
    assert_eq!(once.captured_pieces().len(), 0);
    assert_eq!(once.to_string(), twice.to_string());
}

#[test]
fn capture_is_recorded_in_order() {
    let mut board = Board::new();
    // Onto an empty square: nothing is captured.
    assert_eq!(board.move_piece(Position::new('d', 1), Position::new('d', 4)), Ok(()));
    assert_eq!(board.captured_pieces().len(), 0);
    // Onto enemies, one after the other.
    assert_eq!(board.move_piece(Position::new('d', 4), Position::new('d', 7)), Ok(()));
    assert_eq!(board.captured_pieces(), &vec![Piece::Pawn(Team::Black)]);
    assert_eq!(board.get_piece(&Position::new('d', 7)), Piece::Queen(Team::White));
    assert_eq!(board.get_piece(&Position::new('d', 4)), Piece::Empty);
    assert_eq!(board.move_piece(Position::new('d', 7), Position::new('c', 8)), Ok(()));
    assert_eq!(board.move_piece(Position::new('b', 8), Position::new('c', 8)), Ok(()));
    assert_eq!(
        board.captured_pieces(),
        &vec![Piece::Pawn(Team::Black), Piece::Bishop(Team::Black), Piece::Queen(Team::White)]
    );
    assert_eq!(board.get_piece(&Position::new('c', 8)), Piece::Knight(Team::Black));
    assert_eq!(board.get_piece(&Position::new('b', 8)), Piece::Empty);
    assert_eq!(board.get_position(Piece::Queen(Team::White)), None);
    assert_eq!(board.get_position(Piece::Bishop(Team::Black)), Some(Position::new('f', 8)));

    let occupied = squares_of(&board).iter().filter(|piece| **piece != Piece::Empty).count();
    assert_eq!(occupied + board.captured_pieces().len(), 32);
    assert_eq!(occupied, 29);
}

#[test]
fn move_onto_the_same_square_takes_the_piece_off() {
    let mut board = Board::new();
    assert_eq!(board.move_piece(Position::new('a', 1), Position::new('a', 1)), Ok(()));
    assert_eq!(board.get_piece(&Position::new('a', 1)), Piece::Empty);
    assert_eq!(board.captured_pieces(), &vec![Piece::Rook(Team::White)]);
    assert_eq!(board.get_position(Piece::Rook(Team::White)), Some(Position::new('h', 1)));
}

#[test]
fn reset_forgets_the_captured() {
    let mut board = Board::new();
    assert_eq!(board.move_piece(Position::new('a', 1), Position::new('a', 8)), Ok(()));
    assert_eq!(board.captured_pieces().len(), 1);
    board.reset();
    assert_eq!(board.captured_pieces().len(), 0);
    assert_eq!(board.get_piece(&Position::new('a', 8)), Piece::Rook(Team::Black));
}

#[test]
fn board_as_text() {
    let board = Board::new();
    let text = board.to_string();
    let lines: Vec<&str> = text.split('\n').collect();
    assert_eq!(lines.len(), 8);
    assert!(text.starts_with("\x1b[1;37mRook(White)\x1b[0m \x1b[3ma1\x1b[0m | \x1b[1;37mKnight(White)\x1b[0m \x1b[3mb1\x1b[0m | "));
    assert!(lines[2].starts_with("\x1b[1;37mEmpty\x1b[0m \x1b[3ma3\x1b[0m | "));
    assert!(text.ends_with("\x1b[1;37mRook(Black)\x1b[0m \x1b[3mh8\x1b[0m | "));
    for line in lines {
        assert_eq!(line.matches(" | ").count(), 8);
    }
}
