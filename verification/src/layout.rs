//! Arrangements of pieces on the 64 squares, taken as sequences in row-major order: the
//! arrangement at the start of a game, and how many pieces of each kind one holds.

use crate::piece::Piece;
use crate::position::Position;
use crate::team::Team;
use vstd::prelude::*;

verus! {

/// The piece that starts on file `file`, counted from 0, of a side's back rank.
pub open spec fn back_row(file: int, team: Team) -> Piece {
    if file == 0 || file == 7 {
        Piece::Rook(team)
    } else if file == 1 || file == 6 {
        Piece::Knight(team)
    } else if file == 2 || file == 5 {
        Piece::Bishop(team)
    } else if file == 3 {
        Piece::Queen(team)
    } else {
        Piece::King(team)
    }
}

/// What the square at place `i` holds at the start of a game.
pub open spec fn initial_piece(i: int) -> Piece {
    if i / 8 == Team::White.back_rank() {
        back_row(i % 8, Team::White)
    } else if i / 8 == Team::White.pawn_rank() {
        Piece::Pawn(Team::White)
    } else if i / 8 == Team::Black.pawn_rank() {
        Piece::Pawn(Team::Black)
    } else if i / 8 == Team::Black.back_rank() {
        back_row(i % 8, Team::Black)
    } else {
        Piece::Empty
    }
}

/// The arrangement at the start of a game.
pub open spec fn initial_squares() -> Seq<Piece> {
    Seq::new(64, |i: int| initial_piece(i))
}

/// The arrangement with no piece at all.
pub open spec fn empty_squares() -> Seq<Piece> {
    Seq::new(64, |i: int| Piece::Empty)
}

/// `squares` after `piece` was put on the first `n` of its starting squares.
pub open spec fn placed(squares: Seq<Piece>, piece: Piece, n: int) -> Seq<Piece>
    decreases n,
{
    if n <= 0 {
        squares
    } else {
        placed(squares, piece, n - 1).update(piece.home()[n - 1].index(), piece)
    }
}

/// The six pieces of a side, in the order in which they are put on the board.
pub open spec fn line_up(team: Team) -> Seq<Piece> {
    seq![
        Piece::King(team),
        Piece::Queen(team),
        Piece::Rook(team),
        Piece::Bishop(team),
        Piece::Knight(team),
        Piece::Pawn(team),
    ]
}

/// `squares` after the first `n` pieces of a side's line-up were put on all their starting
/// squares.
pub open spec fn with_team_first(squares: Seq<Piece>, team: Team, n: int) -> Seq<Piece>
    decreases n,
{
    if n <= 0 {
        squares
    } else {
        let piece = line_up(team)[n - 1];
        placed(with_team_first(squares, team, n - 1), piece, piece.home().len() as int)
    }
}

/// `squares` after every piece of a side was put on its starting squares.
pub open spec fn with_team(squares: Seq<Piece>, team: Team) -> Seq<Piece> {
    with_team_first(squares, team, 6)
}

/// Whether `i` is the first place of `squares` that holds `piece`.
pub open spec fn is_first_place(squares: Seq<Piece>, piece: Piece, i: int) -> bool {
    &&& 0 <= i < squares.len()
    &&& squares[i] == piece
    &&& forall|j: int| 0 <= j < i ==> squares[j] != piece
}

/// The first square, in row-major order, that holds `piece`; `None` when no square does.
/// The empty square is no piece, so it is never found.
pub open spec fn find(squares: Seq<Piece>, piece: Piece) -> Option<Position> {
    if piece != Piece::Empty && exists|i: int| is_first_place(squares, piece, i) {
        Some(Position::at(choose|i: int| is_first_place(squares, piece, i)))
    } else {
        None
    }
}

/// The first square, in row-major order, that holds `piece`; `None` when no square does,
/// and for the empty square.
pub fn find_piece(squares: &[Piece; 64], piece: Piece) -> (position: Option<Position>)
    ensures
        position == find(squares@, piece),
{
    let mut i: usize = 0;
    while i < 64
        invariant
            i <= 64,
            forall|j: int| 0 <= j < i ==> squares@[j] != piece,
        decreases 64 - i,
    {
        if squares[i] == piece {
            if piece != Piece::Empty {
                assert(is_first_place(squares@, piece, i as int));
                return Position::from_index(i);
            }
            return None;
        }
        i += 1;
    }
    None
}

/// What a search finds is a square of the board that holds the piece, and no square
/// before it does; a search finds nothing only when no square holds the piece.
pub proof fn lemma_find(squares: Seq<Piece>, piece: Piece)
    requires
        squares.len() == 64,
        piece != Piece::Empty,
    ensures
        match find(squares, piece) {
            Some(position) => position.on_board() && is_first_place(
                squares,
                piece,
                position.index(),
            ),
            None => forall|i: int| 0 <= i < 64 ==> squares[i] != piece,
        },
{
    if exists|i: int| is_first_place(squares, piece, i) {
    } else {
        lemma_no_first_place(squares, piece, 64);
    }
}

/// Where no place is the first to hold a piece, none of the first `n` places holds it.
proof fn lemma_no_first_place(squares: Seq<Piece>, piece: Piece, n: int)
    requires
        0 <= n <= squares.len(),
        forall|i: int| !is_first_place(squares, piece, i),
    ensures
        forall|i: int| 0 <= i < n ==> squares[i] != piece,
    decreases n,
{
    if n > 0 {
        lemma_no_first_place(squares, piece, n - 1);
        assert(!is_first_place(squares, piece, n - 1));
    }
}

/// How many of the first `n` squares of `squares` hold `piece`.
pub open spec fn count_first(squares: Seq<Piece>, piece: Piece, n: int) -> nat
    decreases n,
{
    if n <= 0 {
        0
    } else {
        count_first(squares, piece, n - 1) + if squares[n - 1] == piece {
            1nat
        } else {
            0nat
        }
    }
}

/// How many squares of `squares` hold `piece`.
pub open spec fn count(squares: Seq<Piece>, piece: Piece) -> nat {
    count_first(squares, piece, squares.len() as int)
}

/// How many squares of `squares` hold a piece.
pub open spec fn occupied(squares: Seq<Piece>) -> int {
    squares.len() - count(squares, Piece::Empty)
}

/// Whether `piece` starts the game on the square at place `i`.
pub open spec fn starts_at(piece: Piece, i: int) -> bool {
    exists|k: int| 0 <= k < piece.home().len() && (#[trigger] piece.home()[k]).index() == i
}

/// A piece starts on a square exactly when the arrangement at the start of a game shows it
/// there.
pub proof fn lemma_home_is_initial(piece: Piece, i: int)
    requires
        piece != Piece::Empty,
        0 <= i < 64,
    ensures
        starts_at(piece, i) <==> initial_piece(i) == piece,
{
    if initial_piece(i) == piece {
        let k = match piece {
            Piece::Pawn(_) => i % 8,
            Piece::King(_) | Piece::Queen(_) => 0,
            _ => if i % 8 < 3 {
                0
            } else {
                1
            },
        };
        assert(piece.home()[k].index() == i);
    }
}

/// Putting a piece on the first `n` of its starting squares changes those squares and no
/// others.
proof fn lemma_placed(squares: Seq<Piece>, piece: Piece, n: int, i: int)
    requires
        squares.len() == 64,
        0 <= n <= piece.home().len(),
        0 <= i < 64,
    ensures
        placed(squares, piece, n).len() == 64,
        placed(squares, piece, n)[i] == if exists|k: int|
            0 <= k < n && (#[trigger] piece.home()[k]).index() == i {
            piece
        } else {
            squares[i]
        },
    decreases n,
{
    if n > 0 {
        lemma_placed(squares, piece, n - 1, i);
        crate::piece::lemma_home_on_board(piece);
    }
}

/// Putting the first `n` pieces of a side's line-up on their starting squares gives each
/// of those squares what it holds at the start of a game, and changes no other square.
proof fn lemma_with_team_first(squares: Seq<Piece>, team: Team, n: int, i: int)
    requires
        squares.len() == 64,
        0 <= n <= 6,
        0 <= i < 64,
    ensures
        with_team_first(squares, team, n).len() == 64,
        with_team_first(squares, team, n)[i] == if exists|j: int|
            0 <= j < n && #[trigger] line_up(team)[j] == initial_piece(i) {
            initial_piece(i)
        } else {
            squares[i]
        },
    decreases n,
{
    if n > 0 {
        let before = with_team_first(squares, team, n - 1);
        let piece = line_up(team)[n - 1];
        lemma_with_team_first(squares, team, n - 1, i);
        lemma_placed(before, piece, piece.home().len() as int, i);
        lemma_home_is_initial(piece, i);
    }
}

/// Putting both sides on an empty board, each piece on its starting squares, gives the
/// arrangement at the start of a game.
pub proof fn lemma_line_up_is_initial()
    ensures
        with_team(with_team(empty_squares(), Team::White), Team::Black) == initial_squares(),
{
    let white = with_team(empty_squares(), Team::White);
    let both = with_team(white, Team::Black);
    assert forall|i: int| 0 <= i < 64 implies #[trigger] both[i] == initial_piece(i) by {
        lemma_with_team_first(empty_squares(), Team::White, 6, i);
        lemma_with_team_first(white, Team::Black, 6, i);
    }
    lemma_with_team_first(empty_squares(), Team::White, 6, 0);
    lemma_with_team_first(white, Team::Black, 6, 0);
    assert(both =~= initial_squares());
}

/// Counting is not affected by what lies beyond the squares that are counted.
proof fn lemma_count_first_same(a: Seq<Piece>, b: Seq<Piece>, piece: Piece, n: int)
    requires
        n <= a.len(),
        n <= b.len(),
        forall|i: int| 0 <= i < n ==> a[i] == b[i],
    ensures
        count_first(a, piece, n) == count_first(b, piece, n),
    decreases n,
{
    if n > 0 {
        lemma_count_first_same(a, b, piece, n - 1);
    }
}

/// Changing one of the first `n` squares takes one from the count of what it held and
/// adds one to the count of what it holds now.
proof fn lemma_count_first_update(squares: Seq<Piece>, i: int, new: Piece, piece: Piece, n: int)
    requires
        0 <= i < squares.len(),
        0 <= n <= squares.len(),
    ensures
        count_first(squares.update(i, new), piece, n) + (if i < n && squares[i] == piece {
            1nat
        } else {
            0nat
        }) == count_first(squares, piece, n) + (if i < n && new == piece {
            1nat
        } else {
            0nat
        }),
    decreases n,
{
    if n > 0 {
        lemma_count_first_update(squares, i, new, piece, n - 1);
    }
}

/// Changing what a square holds takes one from the count of what it held and adds one to
/// the count of what it holds now.
pub proof fn lemma_count_update(squares: Seq<Piece>, i: int, new: Piece, piece: Piece)
    requires
        0 <= i < squares.len(),
    ensures
        count(squares.update(i, new), piece) + (if squares[i] == piece {
            1nat
        } else {
            0nat
        }) == count(squares, piece) + (if new == piece {
            1nat
        } else {
            0nat
        }),
{
    lemma_count_first_update(squares, i, new, piece, squares.len() as int);
}

/// Appending a piece adds one to its count and leaves the other counts alone.
pub proof fn lemma_count_push(squares: Seq<Piece>, new: Piece, piece: Piece)
    ensures
        count(squares.push(new), piece) == count(squares, piece) + (if new == piece {
            1nat
        } else {
            0nat
        }),
{
    lemma_count_first_same(squares, squares.push(new), piece, squares.len() as int);
}

/// No piece is counted more often than there are squares.
pub proof fn lemma_count_bound(squares: Seq<Piece>, piece: Piece)
    ensures
        count(squares, piece) <= squares.len(),
{
    lemma_count_first_bound(squares, piece, squares.len() as int);
}

/// Among the first `n` squares no piece is counted more than `n` times.
proof fn lemma_count_first_bound(squares: Seq<Piece>, piece: Piece, n: int)
    requires
        0 <= n,
    ensures
        count_first(squares, piece, n) <= n,
    decreases n,
{
    if n > 0 {
        lemma_count_first_bound(squares, piece, n - 1);
    }
}

/// One if the square at place `i` holds `piece`, and zero if not.
pub open spec fn hit(squares: Seq<Piece>, piece: Piece, i: int) -> nat {
    if squares[i] == piece {
        1
    } else {
        0
    }
}

/// How many squares of rank `rank`, counted from 0, hold `piece`.
#[verifier::opaque]
pub open spec fn rank_hits(squares: Seq<Piece>, piece: Piece, rank: int) -> nat {
    hit(squares, piece, 8 * rank) + hit(squares, piece, 8 * rank + 1) + hit(
        squares,
        piece,
        8 * rank + 2,
    ) + hit(squares, piece, 8 * rank + 3) + hit(squares, piece, 8 * rank + 4) + hit(
        squares,
        piece,
        8 * rank + 5,
    ) + hit(squares, piece, 8 * rank + 6) + hit(squares, piece, 8 * rank + 7)
}

/// The count over the ranks up to `rank` is the count over the ranks below it and the
/// hits on `rank` itself.
proof fn lemma_count_rank(squares: Seq<Piece>, piece: Piece, rank: int)
    requires
        0 <= rank < 8,
    ensures
        count_first(squares, piece, 8 * rank + 8) == count_first(squares, piece, 8 * rank)
            + rank_hits(squares, piece, rank),
{
    reveal(rank_hits);
    reveal_with_fuel(count_first, 9);
}

/// The count of a piece over a whole board is the sum of its hits on the eight ranks.
pub proof fn lemma_count_by_rank(squares: Seq<Piece>, piece: Piece)
    requires
        squares.len() == 64,
    ensures
        count(squares, piece) == rank_hits(squares, piece, 0) + rank_hits(squares, piece, 1)
            + rank_hits(squares, piece, 2) + rank_hits(squares, piece, 3) + rank_hits(
            squares,
            piece,
            4,
        ) + rank_hits(squares, piece, 5) + rank_hits(squares, piece, 6) + rank_hits(
            squares,
            piece,
            7,
        ),
{
    lemma_count_rank(squares, piece, 0);
    lemma_count_rank(squares, piece, 1);
    lemma_count_rank(squares, piece, 2);
    lemma_count_rank(squares, piece, 3);
    lemma_count_rank(squares, piece, 4);
    lemma_count_rank(squares, piece, 5);
    lemma_count_rank(squares, piece, 6);
    lemma_count_rank(squares, piece, 7);
}

/// On the arrangement at the start of a game: the hits of a piece on each rank.
proof fn lemma_initial_rank_hits(piece: Piece, rank: int)
    requires
        0 <= rank < 8,
    ensures
        rank_hits(initial_squares(), piece, rank) == if rank == 0 || rank == 7 {
            let team = if rank == 0 {
                Team::White
            } else {
                Team::Black
            };
            if piece == Piece::King(team) || piece == Piece::Queen(team) {
                1nat
            } else if piece == Piece::Rook(team) || piece == Piece::Bishop(team) || piece
                == Piece::Knight(team) {
                2nat
            } else {
                0nat
            }
        } else if rank == 1 {
            if piece == Piece::Pawn(Team::White) {
                8nat
            } else {
                0nat
            }
        } else if rank == 6 {
            if piece == Piece::Pawn(Team::Black) {
                8nat
            } else {
                0nat
            }
        } else if piece == Piece::Empty {
            8nat
        } else {
            0nat
        },
{
    reveal(rank_hits);
}

/// The arrangement at the start of a game holds of each piece as many as its roster says,
/// which leaves thirty-two squares empty and thirty-two occupied.
pub proof fn lemma_initial_census(piece: Piece)
    ensures
        piece != Piece::Empty ==> count(initial_squares(), piece) == piece.roster(),
        count(initial_squares(), Piece::Empty) == 32,
        occupied(initial_squares()) == 32,
{
    let start = initial_squares();
    lemma_count_by_rank(start, piece);
    lemma_count_by_rank(start, Piece::Empty);
    lemma_initial_rank_hits(piece, 0);
    lemma_initial_rank_hits(piece, 1);
    lemma_initial_rank_hits(piece, 2);
    lemma_initial_rank_hits(piece, 3);
    lemma_initial_rank_hits(piece, 4);
    lemma_initial_rank_hits(piece, 5);
    lemma_initial_rank_hits(piece, 6);
    lemma_initial_rank_hits(piece, 7);
    lemma_initial_rank_hits(Piece::Empty, 0);
    lemma_initial_rank_hits(Piece::Empty, 1);
    lemma_initial_rank_hits(Piece::Empty, 2);
    lemma_initial_rank_hits(Piece::Empty, 3);
    lemma_initial_rank_hits(Piece::Empty, 4);
    lemma_initial_rank_hits(Piece::Empty, 5);
    lemma_initial_rank_hits(Piece::Empty, 6);
    lemma_initial_rank_hits(Piece::Empty, 7);
}

/// How many squares of `squares` hold a piece of `team`.
pub open spec fn side_count(squares: Seq<Piece>, team: Team) -> nat {
    count(squares, Piece::King(team)) + count(squares, Piece::Queen(team)) + count(
        squares,
        Piece::Rook(team),
    ) + count(squares, Piece::Bishop(team)) + count(squares, Piece::Knight(team)) + count(
        squares,
        Piece::Pawn(team),
    )
}

/// Each side starts the game with sixteen pieces.
pub proof fn lemma_initial_sides(team: Team)
    ensures
        side_count(initial_squares(), team) == 16,
{
    lemma_initial_census(Piece::King(team));
    lemma_initial_census(Piece::Queen(team));
    lemma_initial_census(Piece::Rook(team));
    lemma_initial_census(Piece::Bishop(team));
    lemma_initial_census(Piece::Knight(team));
    lemma_initial_census(Piece::Pawn(team));
}

/// Every one of the first `n` squares is empty or holds a piece of one of the two sides.
proof fn lemma_count_first_total(squares: Seq<Piece>, n: int)
    requires
        0 <= n,
    ensures
        count_first(squares, Piece::Empty, n) + side_first(squares, Team::White, n) + side_first(
            squares,
            Team::Black,
            n,
        ) == n,
    decreases n,
{
    if n > 0 {
        lemma_count_first_total(squares, n - 1);
    }
}

/// How many of the first `n` squares of `squares` hold a piece of `team`.
pub open spec fn side_first(squares: Seq<Piece>, team: Team, n: int) -> nat {
    count_first(squares, Piece::King(team), n) + count_first(squares, Piece::Queen(team), n)
        + count_first(squares, Piece::Rook(team), n) + count_first(
        squares,
        Piece::Bishop(team),
        n,
    ) + count_first(squares, Piece::Knight(team), n) + count_first(squares, Piece::Pawn(team), n)
}

/// Every square is empty or holds a piece of one of the two sides: the occupied squares
/// are those of White and those of Black.
pub proof fn lemma_count_total(squares: Seq<Piece>)
    ensures
        occupied(squares) == side_count(squares, Team::White) + side_count(squares, Team::Black),
{
    lemma_count_first_total(squares, squares.len() as int);
}

} // verus!
