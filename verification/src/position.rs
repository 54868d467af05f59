//! Squares of the board: their two coordinates, their place in the row-major order of the
//! 64 squares, and their neighbours.

use crate::text::{decimal, push_char, push_decimal};
use vstd::prelude::*;

verus! {

/// A square named by its file, a letter from `'a'` to `'h'`, and its rank, a number from
/// 1 to 8.
///
/// Nothing is checked when a value is made, so one may also name a place off the board;
/// [`Position::on_board`] tells the two apart.
#[derive(Debug, Clone, Copy, PartialEq, Eq, Structural)]
pub struct Position {
    pub x: char,
    pub y: u32,
}

/// Whether file `file` and rank `rank`, both counted from 0, name a square of the board.
pub open spec fn in_bounds(file: int, rank: int) -> bool {
    0 <= file < 8 && 0 <= rank < 8
}

/// The square on file `file` and rank `rank`, both counted from 0.
pub open spec fn square(file: int, rank: int) -> Position {
    Position { x: (97 + file) as char, y: (rank + 1) as u32 }
}

impl Position {
    /// The file counted from 0, so that `'a'` is 0 and `'h'` is 7.
    pub open spec fn file(self) -> int {
        self.x as int - 97
    }

    /// The rank counted from 0, so that rank 1 is 0 and rank 8 is 7.
    pub open spec fn rank(self) -> int {
        self.y as int - 1
    }

    /// Whether the position names one of the 64 squares.
    pub open spec fn on_board(self) -> bool {
        in_bounds(self.file(), self.rank())
    }

    /// The place of the square in the row-major order of the board: rank by rank from
    /// rank 1, and within a rank from file `'a'`. It runs from 0 to 63.
    pub open spec fn index(self) -> int {
        self.rank() * 8 + self.file()
    }

    /// The square at place `i` of the row-major order.
    pub open spec fn at(i: int) -> Position {
        square(i % 8, i / 8)
    }

    /// The `k`-th cell, for `k` from 0 to 8, of the three by three block of squares centred
    /// on this one, as a file and a rank counted from 0. The cells go rank by rank upwards,
    /// and within a rank by file, so cell 4 is the centre.
    pub open spec fn block_cell(self, k: int) -> (int, int) {
        (self.file() + k % 3 - 1, self.rank() + k / 3 - 1)
    }

    /// Whether the `k`-th cell of the block round this square is one of its neighbours: a
    /// square of the board other than the centre.
    pub open spec fn is_neighbour_cell(self, k: int) -> bool {
        k != 4 && in_bounds(self.block_cell(k).0, self.block_cell(k).1)
    }

    /// The neighbours among the first `k` cells of the block round this square, in the
    /// order of the cells.
    pub open spec fn around_first(self, k: int) -> Seq<Position>
        decreases k,
    {
        if k <= 0 {
            Seq::empty()
        } else if self.is_neighbour_cell(k - 1) {
            self.around_first(k - 1).push(
                square(self.block_cell(k - 1).0, self.block_cell(k - 1).1),
            )
        } else {
            self.around_first(k - 1)
        }
    }

    /// The squares of the board that touch this one by a side or a corner, by rank
    /// ascending and within a rank by file ascending.
    pub open spec fn around(self) -> Seq<Position> {
        self.around_first(9)
    }

    /// The written form of the position: the file letter, then the rank in decimal.
    pub open spec fn text(self) -> Seq<char> {
        seq![self.x] + decimal(self.y as nat)
    }

    /// Makes the position with file `x` and rank `y`, whatever they are.
    pub fn new(x: char, y: u32) -> (p: Self)
        ensures
            p == (Position { x, y }),
    {
        Self { x, y }
    }

    /// Whether the position names one of the 64 squares.
    pub fn is_on_board(&self) -> (b: bool)
        ensures
            b == self.on_board(),
    {
        'a' <= self.x && self.x <= 'h' && 1 <= self.y && self.y <= 8
    }

    /// The square whose place in the row-major order, counted from 1, is `i`; `None` when
    /// `i` is not between 1 and 64. This undoes [`Position::to_u32`].
    pub fn from_u32(i: u32) -> (p: Option<Self>)
        ensures
            1 <= i <= 64 ==> p == Some(Position::at(i - 1)),
            !(1 <= i <= 64) ==> p is None,
            p matches Some(q) ==> q.on_board() && q.index() + 1 == i,
    {
        if i < 1 || i > 64 {
            return None;
        }
        let file: u8 = ((i - 1) % 8) as u8;
        Some(Self { x: (97 + file) as char, y: (i - 1) / 8 + 1 })
    }

    /// The square at place `i` of the row-major order, counted from 0; `None` when `i` is
    /// 64 or more. This undoes [`Position::to_index`].
    pub fn from_index(i: usize) -> (p: Option<Self>)
        ensures
            i < 64 ==> p == Some(Position::at(i as int)),
            i >= 64 ==> p is None,
            p matches Some(q) ==> q.on_board() && q.index() == i,
    {
        if i >= 64 {
            return None;
        }
        let file: u8 = (i % 8) as u8;
        Some(Self { x: (97 + file) as char, y: (i / 8 + 1) as u32 })
    }

    /// The place of the square in the row-major order, counted from 1.
    pub fn to_u32(&self) -> (i: u32)
        requires
            self.on_board(),
        ensures
            i == self.index() + 1,
    {
        (self.y - 1) * 8 + (self.x as u32 - 96)
    }

    /// The place of the square in the row-major order, counted from 0.
    pub fn to_index(&self) -> (i: usize)
        requires
            self.on_board(),
        ensures
            i == self.index(),
    {
        (self.to_u32() - 1) as usize
    }

    /// The squares of the board that touch this one by a side or a corner, by rank
    /// ascending and within a rank by file ascending. The position itself may lie off the
    /// board; its neighbours never do.
    pub fn positions_around(&self) -> (around: Vec<Position>)
        ensures
            around@ == self.around(),
    {
        let mut around: Vec<Position> = Vec::new();
        let code: u64 = self.x as u64;
        let mut k: u64 = 0;
        while k < 9
            invariant
                k <= 9,
                code == self.x as int,
                around@ == self.around_first(k as int),
            decreases 9 - k,
        {
            // Both coordinates are kept one too high, so that nothing goes below zero.
            let file: u64 = code + k % 3;
            let rank: u64 = self.y as u64 + k / 3;
            if k != 4 && 98 <= file && file <= 105 && 2 <= rank && rank <= 9 {
                around.push(Position { x: ((file - 1) as u8) as char, y: (rank - 1) as u32 });
            }
            k += 1;
        }
        around
    }

    /// Puts the position on file `x`.
    pub fn set_x(&mut self, x: char) -> (same: &mut Self)
        ensures
            *same == (Position { x, y: old(self).y }),
            *final(self) == *final(same),
    {
        self.x = x;
        self
    }

    /// Puts the position on rank `y`.
    pub fn set_y(&mut self, y: u32) -> (same: &mut Self)
        ensures
            *same == (Position { x: old(self).x, y }),
            *final(self) == *final(same),
    {
        self.y = y;
        self
    }

    /// The file letter.
    pub fn x(&self) -> (x: char)
        ensures
            x == self.x,
    {
        self.x
    }

    /// The rank number.
    pub fn y(&self) -> (y: u32)
        ensures
            y == self.y,
    {
        self.y
    }

    /// The written form of the position, such as `e4`.
    pub fn to_string(&self) -> (text: String)
        ensures
            text@ == self.text(),
    {
        let mut text = String::new();
        push_char(&mut text, self.x);
        push_decimal(&mut text, self.y);
        text
    }
}

/// Every place of the row-major order holds a square of the board, and that square is at
/// the place it was taken from.
pub proof fn lemma_index_round_trip(i: int)
    requires
        0 <= i < 64,
    ensures
        Position::at(i).on_board(),
        Position::at(i).index() == i,
{
}

/// A square of the board is the one that stands at its own place of the row-major order,
/// and that place is below 64.
pub proof fn lemma_position_round_trip(p: Position)
    requires
        p.on_board(),
    ensures
        0 <= p.index() < 64,
        Position::at(p.index()) == p,
{
}

/// Two squares of the board at the same place of the row-major order are the same square.
pub proof fn lemma_index_injective(p: Position, q: Position)
    requires
        p.on_board(),
        q.on_board(),
        p.index() == q.index(),
    ensures
        p == q,
{
}

/// A corner of the board has three neighbours, any other square on its edge has five, and
/// a square inside has eight.
pub proof fn lemma_around_count(p: Position)
    requires
        p.on_board(),
    ensures
        p.around().len() == if (p.file() == 0 || p.file() == 7) && (p.rank() == 0 || p.rank()
            == 7) {
            3nat
        } else if p.file() == 0 || p.file() == 7 || p.rank() == 0 || p.rank() == 7 {
            5nat
        } else {
            8nat
        },
{
    reveal_with_fuel(Position::around_first, 10);
}

/// What the first `k` cells of the block round `p` give: each neighbour cell its square,
/// and nothing else.
proof fn lemma_around_first_members(p: Position, k: int, q: Position)
    requires
        0 <= k <= 9,
    ensures
        p.around_first(k).contains(q) <==> exists|j: int|
            0 <= j < k && #[trigger] p.is_neighbour_cell(j) && q == square(
                p.block_cell(j).0,
                p.block_cell(j).1,
            ),
    decreases k,
{
    if k > 0 {
        lemma_around_first_members(p, k - 1, q);
        let prev = p.around_first(k - 1);
        let cell = square(p.block_cell(k - 1).0, p.block_cell(k - 1).1);
        if p.is_neighbour_cell(k - 1) {
            assert forall|x: Position| prev.push(cell).contains(x) <==> (prev.contains(x) || x
                == cell) by {
                if prev.contains(x) {
                    let i = choose|i: int| 0 <= i < prev.len() && prev[i] == x;
                    assert(prev.push(cell)[i] == x);
                }
                if x == cell {
                    assert(prev.push(cell)[prev.len() as int] == x);
                }
            }
        }
    }
}

/// The neighbours of a position are the squares of the board, other than the position
/// itself, that lie at most one file and at most one rank away from it.
pub proof fn lemma_around_members(p: Position, q: Position)
    ensures
        p.around().contains(q) <==> (q.on_board() && q != p && -1 <= q.file() - p.file() <= 1
            && -1 <= q.rank() - p.rank() <= 1),
{
    lemma_around_first_members(p, 9, q);
    if q.on_board() && q != p && -1 <= q.file() - p.file() <= 1 && -1 <= q.rank() - p.rank()
        <= 1 {
        let j = (q.rank() - p.rank() + 1) * 3 + (q.file() - p.file() + 1);
        assert(p.is_neighbour_cell(j));
    }
}

/// The neighbours of a position come in row-major order, so none comes twice.
pub proof fn lemma_around_ordered(p: Position, i: int, j: int)
    requires
        0 <= i < j < p.around().len(),
    ensures
        p.around()[i].index() < p.around()[j].index(),
{
    lemma_around_first_ordered(p, 9);
}

/// The neighbours among the first `k` cells come in row-major order, and all of them
/// before the place of cell `k`.
proof fn lemma_around_first_ordered(p: Position, k: int)
    requires
        0 <= k <= 9,
    ensures
        forall|i: int, j: int|
            0 <= i < j < p.around_first(k).len() ==> (#[trigger] p.around_first(k)[i]).index() < (
            #[trigger] p.around_first(k)[j]).index(),
        forall|i: int|
            0 <= i < p.around_first(k).len() ==> (#[trigger] p.around_first(k)[i]).index()
                < p.block_cell(k).1 * 8 + p.block_cell(k).0,
    decreases k,
{
    if k > 0 {
        lemma_around_first_ordered(p, k - 1);
        let before = p.around_first(k - 1);
        let now = p.around_first(k);
        let place = p.block_cell(k - 1).1 * 8 + p.block_cell(k - 1).0;
        assert(place < p.block_cell(k).1 * 8 + p.block_cell(k).0);
        if p.is_neighbour_cell(k - 1) {
            // The new neighbour comes last, and every other comes before its place.
            assert(now.last().index() == place);
            assert forall|i: int| 0 <= i < now.len() - 1 implies now[i] == before[i] by {}
        }
    }
}

} // verus!
