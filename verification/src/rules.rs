//! How the pieces move: the shape of each kind's move, the squares that must be free on
//! its way, and what makes a move legal.
//!
//! Castling, capture in passing and promotion are not among the moves that are known here.

use crate::error::ChessError;
use crate::layout::{find, find_piece, lemma_find};
use crate::piece::Piece;
use crate::position::{square, Position};
use crate::team::Team;
use vstd::prelude::*;

verus! {

/// The size of `d` without its sign.
pub open spec fn abs(d: int) -> int {
    if d < 0 {
        -d
    } else {
        d
    }
}

/// How many files `to` lies to the right of `from`.
pub open spec fn file_shift(from: Position, to: Position) -> int {
    to.file() - from.file()
}

/// How many ranks `to` lies above `from`.
pub open spec fn rank_shift(from: Position, to: Position) -> int {
    to.rank() - from.rank()
}

/// The number of king's steps from `from` to `to`: the larger of the two shifts.
pub open spec fn distance(from: Position, to: Position) -> int {
    if abs(file_shift(from, to)) < abs(rank_shift(from, to)) {
        abs(rank_shift(from, to))
    } else {
        abs(file_shift(from, to))
    }
}

/// Whether the two squares differ and lie on one rank or on one file.
pub open spec fn straight(from: Position, to: Position) -> bool {
    (file_shift(from, to) == 0) != (rank_shift(from, to) == 0)
}

/// Whether the two squares differ and lie on one diagonal.
pub open spec fn diagonal(from: Position, to: Position) -> bool {
    file_shift(from, to) != 0 && abs(file_shift(from, to)) == abs(rank_shift(from, to))
}

/// Whether `to` is a knight's jump away from `from`: one file and two ranks, or two files
/// and one rank.
pub open spec fn knight_jump(from: Position, to: Position) -> bool {
    ||| abs(file_shift(from, to)) == 1 && abs(rank_shift(from, to)) == 2
    ||| abs(file_shift(from, to)) == 2 && abs(rank_shift(from, to)) == 1
}

/// `k` steps in the direction of the shift `d`.
pub open spec fn toward(d: int, k: int) -> int {
    if d > 0 {
        k
    } else if d < 0 {
        -k
    } else {
        0
    }
}

/// The square `k` steps away from `from` on the line to `to`.
pub open spec fn waypoint(from: Position, to: Position, k: int) -> Position {
    square(
        from.file() + toward(file_shift(from, to), k),
        from.rank() + toward(rank_shift(from, to), k),
    )
}

/// Whether every square strictly between `from` and `to` is empty. It is meant for two
/// squares on one rank, file or diagonal.
pub open spec fn path_clear(squares: Seq<Piece>, from: Position, to: Position) -> bool {
    forall|k: int|
        0 < k < distance(from, to) ==> squares[(#[trigger] waypoint(from, to, k)).index()]
            == Piece::Empty
}

/// Whether the piece on `from` bears on `to`: it could capture there, were an enemy on
/// `to`. What stands on `to` plays no part.
///
/// A king bears on the squares next to it; a queen, a rook and a bishop on the squares of
/// their lines up to the first piece in the way; a knight on the squares a jump away; a
/// pawn on the two squares diagonally in front of it.
pub open spec fn attacks(squares: Seq<Piece>, from: Position, to: Position) -> bool {
    match squares[from.index()] {
        Piece::King(_) => distance(from, to) == 1,
        Piece::Queen(_) => (straight(from, to) || diagonal(from, to)) && path_clear(
            squares,
            from,
            to,
        ),
        Piece::Rook(_) => straight(from, to) && path_clear(squares, from, to),
        Piece::Bishop(_) => diagonal(from, to) && path_clear(squares, from, to),
        Piece::Knight(_) => knight_jump(from, to),
        Piece::Pawn(team) => abs(file_shift(from, to)) == 1 && rank_shift(from, to)
            == team.forward(),
        Piece::Empty => false,
    }
}

/// Whether a pawn of `team` on `from` may advance to `to` without capturing: one square
/// straight ahead onto an empty square, or two from its starting rank over an empty
/// square onto an empty square.
pub open spec fn pawn_advance(
    squares: Seq<Piece>,
    team: Team,
    from: Position,
    to: Position,
) -> bool {
    &&& file_shift(from, to) == 0
    &&& squares[to.index()] == Piece::Empty
    &&& {
        ||| rank_shift(from, to) == team.forward()
        ||| {
            &&& rank_shift(from, to) == 2 * team.forward()
            &&& from.rank() == team.pawn_rank()
            &&& squares[waypoint(from, to, 1).index()] == Piece::Empty
        }
    }
}

/// Whether the piece on `from` can go to `to` by the shape of its move and the state of
/// its path, whichever side owns what stands on `to`.
///
/// For every kind but the pawn these are the squares it bears on. A pawn advances straight
/// onto empty squares only, and goes diagonally only onto an occupied square.
pub open spec fn reachable(squares: Seq<Piece>, from: Position, to: Position) -> bool {
    match squares[from.index()] {
        Piece::Pawn(team) => pawn_advance(squares, team, from, to) || (attacks(squares, from, to)
            && squares[to.index()] != Piece::Empty),
        _ => attacks(squares, from, to),
    }
}

/// The squares after what stands on `from` was put on `to`, leaving `from` empty.
pub open spec fn after_move(squares: Seq<Piece>, from: Position, to: Position) -> Seq<Piece> {
    squares.update(to.index(), squares[from.index()]).update(from.index(), Piece::Empty)
}

/// Whether the square at place `s` holds a piece of side `by` that bears on `target`.
pub open spec fn is_attacker(squares: Seq<Piece>, by: Team, target: Position, s: int) -> bool {
    &&& 0 <= s < 64
    &&& squares[s].side() == Some(by)
    &&& attacks(squares, Position::at(s), target)
}

/// Whether the square at place `s` is the first, in row-major order, to hold a piece of
/// side `by` that bears on `target`.
pub open spec fn is_first_attacker(
    squares: Seq<Piece>,
    by: Team,
    target: Position,
    s: int,
) -> bool {
    &&& is_attacker(squares, by, target, s)
    &&& forall|j: int| 0 <= j < s ==> !is_attacker(squares, by, target, j)
}

/// Whether some piece of side `by` bears on `target`.
pub open spec fn attacked(squares: Seq<Piece>, by: Team, target: Position) -> bool {
    exists|s: int| is_attacker(squares, by, target, s)
}

/// The first square, in row-major order, with a piece of side `by` that bears on
/// `target`; `None` when no piece of that side does.
pub open spec fn assailant(squares: Seq<Piece>, by: Team, target: Position) -> Option<Position> {
    if exists|s: int| is_first_attacker(squares, by, target, s) {
        Some(Position::at(choose|s: int| is_first_attacker(squares, by, target, s)))
    } else {
        None
    }
}

/// What is found as the first attacker is a square of the board with a piece of side `by`
/// that bears on `target`, and no square before it has one; nothing is found only when no
/// piece of that side bears on `target`.
pub proof fn lemma_assailant(squares: Seq<Piece>, by: Team, target: Position)
    ensures
        match assailant(squares, by, target) {
            Some(position) => position.on_board() && is_first_attacker(
                squares,
                by,
                target,
                position.index(),
            ),
            None => !attacked(squares, by, target),
        },
{
    if exists|s: int| is_first_attacker(squares, by, target, s) {
    } else {
        lemma_no_first_attacker(squares, by, target, 64);
    }
}

/// Where no place is the first to hold an attacker, none of the first `n` places holds one.
proof fn lemma_no_first_attacker(squares: Seq<Piece>, by: Team, target: Position, n: int)
    requires
        0 <= n <= 64,
        forall|s: int| !is_first_attacker(squares, by, target, s),
    ensures
        forall|s: int| 0 <= s < n ==> !is_attacker(squares, by, target, s),
    decreases n,
{
    if n > 0 {
        lemma_no_first_attacker(squares, by, target, n - 1);
        assert(!is_first_attacker(squares, by, target, n - 1));
    }
}

/// Whether the king of `team` is in check: a piece of the other side bears on the square
/// where the king is found. A side without a king is never in check.
pub open spec fn in_check(squares: Seq<Piece>, team: Team) -> bool {
    match find(squares, Piece::King(team)) {
        Some(king) => attacked(squares, team.rival(), king),
        None => false,
    }
}

/// What the rules say of moving what stands on `from` to `to`.
///
/// The move is declined for an empty `from`; then as blocked when the piece cannot reach
/// `to`; then as a capture of a friend when `to` holds a piece of the mover's side; then
/// when it would leave the mover's own king in check. Any other move is legal.
pub open spec fn judged(squares: Seq<Piece>, from: Position, to: Position) -> Result<
    (),
    ChessError,
> {
    let piece = squares[from.index()];
    if piece == Piece::Empty {
        Err(ChessError::EmptySource)
    } else if !reachable(squares, from, to) {
        Err(ChessError::Blocked)
    } else if squares[to.index()].side() == piece.side() {
        Err(ChessError::FriendlyCapture)
    } else if in_check(after_move(squares, from, to), piece.side().unwrap()) {
        Err(ChessError::SelfCheck)
    } else {
        Ok(())
    }
}

/// Whether moving from the square at place `from` to the square at place `to` is a legal
/// move of a piece of `team`.
pub open spec fn is_legal_pair(squares: Seq<Piece>, team: Team, from: int, to: int) -> bool {
    &&& 0 <= from < 64
    &&& 0 <= to < 64
    &&& squares[from].side() == Some(team)
    &&& judged(squares, Position::at(from), Position::at(to)) is Ok
}

/// Whether `team` has a legal move at all.
pub open spec fn can_move(squares: Seq<Piece>, team: Team) -> bool {
    exists|from: int, to: int| is_legal_pair(squares, team, from, to)
}

/// Whether `team` is checkmated: its king is in check and no legal move is left to it.
pub open spec fn checkmated(squares: Seq<Piece>, team: Team) -> bool {
    in_check(squares, team) && !can_move(squares, team)
}

/// The file of a square of the board, counted from 0.
fn file_of(position: &Position) -> (file: i32)
    requires
        position.on_board(),
    ensures
        file == position.file(),
{
    (position.x() as u32 - 97) as i32
}

/// The rank of a square of the board, counted from 0.
fn rank_of(position: &Position) -> (rank: i32)
    requires
        position.on_board(),
    ensures
        rank == position.rank(),
{
    (position.y() - 1) as i32
}

/// The size of `d` without its sign.
fn size(d: i32) -> (n: i32)
    requires
        -8 < d < 8,
    ensures
        n == abs(d as int),
{
    if d < 0 {
        -d
    } else {
        d
    }
}

/// One step in the direction of `d`.
fn direction(d: i32) -> (s: i32)
    ensures
        s == toward(d as int, 1),
{
    if d > 0 {
        1
    } else if d < 0 {
        -1
    } else {
        0
    }
}

/// Whether every square strictly between two squares of one line is empty.
pub fn is_path_clear(squares: &[Piece; 64], from: &Position, to: &Position) -> (clear: bool)
    requires
        from.on_board(),
        to.on_board(),
        straight(*from, *to) || diagonal(*from, *to),
    ensures
        clear == path_clear(squares@, *from, *to),
{
    let file_step: i32 = direction(file_of(to) - file_of(from));
    let rank_step: i32 = direction(rank_of(to) - rank_of(from));
    let files: i32 = size(file_of(to) - file_of(from));
    let ranks: i32 = size(rank_of(to) - rank_of(from));
    let steps: i32 = if files < ranks {
        ranks
    } else {
        files
    };
    let mut k: i32 = 1;
    let mut file: i32 = file_of(from) + file_step;
    let mut rank: i32 = rank_of(from) + rank_step;
    while k < steps
        invariant
            1 <= k,
            from.on_board(),
            to.on_board(),
            straight(*from, *to) || diagonal(*from, *to),
            steps == distance(*from, *to),
            file_step == toward(file_shift(*from, *to), 1),
            rank_step == toward(rank_shift(*from, *to), 1),
            file == from.file() + toward(file_shift(*from, *to), k as int),
            rank == from.rank() + toward(rank_shift(*from, *to), k as int),
            forall|j: int|
                0 < j < k ==> squares@[(#[trigger] waypoint(*from, *to, j)).index()]
                    == Piece::Empty,
        decreases steps - k,
    {
        assert(waypoint(*from, *to, k as int).index() == rank * 8 + file);
        if squares[(rank * 8 + file) as usize] != Piece::Empty {
            return false;
        }
        k += 1;
        file += file_step;
        rank += rank_step;
    }
    true
}

/// Whether the piece on `from` bears on `to`.
pub fn bears_on(squares: &[Piece; 64], from: &Position, to: &Position) -> (bears: bool)
    requires
        from.on_board(),
        to.on_board(),
    ensures
        bears == attacks(squares@, *from, *to),
{
    let files: i32 = size(file_of(to) - file_of(from));
    let ranks: i32 = size(rank_of(to) - rank_of(from));
    let is_straight: bool = (files == 0) != (ranks == 0);
    let is_diagonal: bool = files != 0 && files == ranks;
    match squares[from.to_index()] {
        Piece::King(_) => files <= 1 && ranks <= 1 && (files == 1 || ranks == 1),
        Piece::Queen(_) => (is_straight || is_diagonal) && is_path_clear(squares, from, to),
        Piece::Rook(_) => is_straight && is_path_clear(squares, from, to),
        Piece::Bishop(_) => is_diagonal && is_path_clear(squares, from, to),
        Piece::Knight(_) => (files == 1 && ranks == 2) || (files == 2 && ranks == 1),
        Piece::Pawn(team) => files == 1 && rank_of(to) - rank_of(from) == forward_of(team),
        Piece::Empty => false,
    }
}

/// The change of rank when a pawn of the side steps forward.
fn forward_of(team: Team) -> (step: i32)
    ensures
        step == team.forward(),
{
    match team {
        Team::Black => -1,
        Team::White => 1,
    }
}

/// Whether the piece on `from` can go to `to` by the shape of its move and the state of
/// its path.
pub fn can_reach(squares: &[Piece; 64], from: &Position, to: &Position) -> (reaches: bool)
    requires
        from.on_board(),
        to.on_board(),
    ensures
        reaches == reachable(squares@, *from, *to),
{
    match squares[from.to_index()] {
        Piece::Pawn(team) => {
            let target: Piece = squares[to.to_index()];
            let ahead: i32 = rank_of(to) - rank_of(from);
            if file_of(to) != file_of(from) {
                target != Piece::Empty && bears_on(squares, from, to)
            } else if target != Piece::Empty {
                false
            } else if ahead == forward_of(team) {
                true
            } else if ahead == 2 * forward_of(team) && rank_of(from) == pawn_rank_of(team) {
                let middle: i32 = rank_of(from) + forward_of(team);
                squares[(middle * 8 + file_of(from)) as usize] == Piece::Empty
            } else {
                false
            }
        },
        _ => bears_on(squares, from, to),
    }
}

/// The rank, counted from 0, on which the side's pawns start.
fn pawn_rank_of(team: Team) -> (rank: i32)
    ensures
        rank == team.pawn_rank(),
{
    match team {
        Team::Black => 6,
        Team::White => 1,
    }
}

/// The first square, in row-major order, that holds a piece of side `by` which bears on
/// `target`; `None` when no piece of that side does.
pub fn first_attacker(squares: &[Piece; 64], by: Team, target: &Position) -> (attacker: Option<
    Position,
>)
    requires
        target.on_board(),
    ensures
        attacker == assailant(squares@, by, *target),
{
    let mut s: usize = 0;
    while s < 64
        invariant
            s <= 64,
            target.on_board(),
            forall|j: int| 0 <= j < s ==> !is_attacker(squares@, by, *target, j),
        decreases 64 - s,
    {
        let position: Position = Position::from_index(s).unwrap();
        if squares[s].team() == Some(by) && bears_on(squares, &position, target) {
            assert(is_first_attacker(squares@, by, *target, s as int));
            return Some(position);
        }
        s += 1;
    }
    None
}

/// Whether the king of `team` is in check.
pub fn is_in_check(squares: &[Piece; 64], team: Team) -> (check: bool)
    ensures
        check == in_check(squares@, team),
{
    match find_piece(squares, Piece::King(team)) {
        Some(king) => {
            proof {
                lemma_find(squares@, Piece::King(team));
                lemma_assailant(squares@, team.rival(), king);
            }
            first_attacker(squares, team.opponent(), &king).is_some()
        },
        None => false,
    }
}

/// What the rules say of moving what stands on `from` to `to`.
pub fn judge(squares: &[Piece; 64], from: &Position, to: &Position) -> (verdict: Result<
    (),
    ChessError,
>)
    requires
        from.on_board(),
        to.on_board(),
    ensures
        verdict == judged(squares@, *from, *to),
{
    let piece: Piece = squares[from.to_index()];
    match piece.team() {
        None => Err(ChessError::EmptySource),
        Some(team) => {
            if !can_reach(squares, from, to) {
                return Err(ChessError::Blocked);
            }
            if squares[to.to_index()].team() == Some(team) {
                return Err(ChessError::FriendlyCapture);
            }
            let mut after: [Piece; 64] = *squares;
            after[to.to_index()] = piece;
            after[from.to_index()] = Piece::Empty;
            if is_in_check(&after, team) {
                return Err(ChessError::SelfCheck);
            }
            Ok(())
        },
    }
}

/// Whether `team` has a legal move at all.
pub fn has_legal_move(squares: &[Piece; 64], team: Team) -> (any: bool)
    ensures
        any == can_move(squares@, team),
{
    let mut from: usize = 0;
    while from < 64
        invariant
            from <= 64,
            forall|f: int, t: int| 0 <= f < from ==> !is_legal_pair(squares@, team, f, t),
        decreases 64 - from,
    {
        if squares[from].team() == Some(team) {
            let start: Position = Position::from_index(from).unwrap();
            let mut to: usize = 0;
            while to < 64
                invariant
                    from < 64,
                    to <= 64,
                    start == Position::at(from as int),
                    start.on_board(),
                    squares@[from as int].side() == Some(team),
                    forall|f: int, t: int| 0 <= f < from ==> !is_legal_pair(squares@, team, f, t),
                    forall|t: int| 0 <= t < to ==> !is_legal_pair(squares@, team, from as int, t),
                decreases 64 - to,
            {
                let end: Position = Position::from_index(to).unwrap();
                if judge(squares, &start, &end).is_ok() {
                    assert(is_legal_pair(squares@, team, from as int, to as int));
                    return true;
                }
                to += 1;
            }
        }
        from += 1;
    }
    false
}

/// Whether `team` is checkmated.
pub fn is_checkmated(squares: &[Piece; 64], team: Team) -> (mate: bool)
    ensures
        mate == checkmated(squares@, team),
{
    is_in_check(squares, team) && !has_legal_move(squares, team)
}

/// A knight jumps: which squares it bears on and can reach depends on the two squares
/// alone, and on nothing that stands on any other square.
pub proof fn lemma_knight_jumps(squares: Seq<Piece>, team: Team, from: Position, to: Position)
    requires
        squares[from.index()] == Piece::Knight(team),
    ensures
        attacks(squares, from, to) == knight_jump(from, to),
        reachable(squares, from, to) == knight_jump(from, to),
{
}

/// A queen, a rook or a bishop does not pass a piece that stands on its line: a square
/// beyond the first obstruction is declined as blocked, whatever it holds.
pub proof fn lemma_obstruction_blocks(squares: Seq<Piece>, from: Position, to: Position, k: int)
    requires
        squares[from.index()] is Queen || squares[from.index()] is Rook || squares[from.index()]
            is Bishop,
        0 < k < distance(from, to),
        squares[waypoint(from, to, k).index()] != Piece::Empty,
    ensures
        !attacks(squares, from, to),
        judged(squares, from, to) == Err::<(), ChessError>(ChessError::Blocked),
{
}

/// A move that the rules allow is made by a piece, does not capture a piece of the mover's
/// side, and leaves the mover's king out of check.
pub proof fn lemma_legal_move(squares: Seq<Piece>, from: Position, to: Position)
    requires
        judged(squares, from, to) is Ok,
    ensures
        squares[from.index()].side() is Some,
        reachable(squares, from, to),
        from != to,
        squares[to.index()].side() != squares[from.index()].side(),
        !in_check(after_move(squares, from, to), squares[from.index()].side().unwrap()),
{
}

} // verus!
