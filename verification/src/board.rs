//! The fixed-size grid of locked cells.
//!
//! The board is `BOARD_WIDTH` columns by `BOARD_HEIGHT` rows, addressed by
//! `(x, y)` with `y` increasing upward from the bottom. Each cell holds either
//! nothing or an occupied marker carrying the color of the piece that filled
//! it. The board owns placement, occupancy queries, and row clearing; callers
//! are responsible for bounds-checking coordinates before handing them in.

use vstd::prelude::*;
use crate::color::Color;
use crate::piece::Piece;

verus! {

pub const BOARD_WIDTH: usize = 10;
pub const BOARD_HEIGHT: usize = 20;

/// The row at which new pieces are anchored when they enter play: the top
/// visible row of the board.
pub const INSERTION_POINT: i8 = 19;

/// An occupied cell, remembering the color of the piece that filled it.
#[derive(Debug, Copy, Clone, PartialEq, Eq, Structural)]
pub struct BoardSquare(pub Color);

/// The grid itself. Viewed as a sequence of `BOARD_HEIGHT` rows, bottom row
/// first, each a sequence of `BOARD_WIDTH` optional squares.
pub struct Board {
    data: Vec<Option<BoardSquare>>,
}

/// A row in which every cell is occupied, and is therefore cleared.
pub open spec fn row_full(row: Seq<Option<BoardSquare>>) -> bool {
    forall|x: int| 0 <= x < BOARD_WIDTH ==> row[x] is Some
}

/// A row with every cell empty.
pub open spec fn empty_row() -> Seq<Option<BoardSquare>> {
    Seq::new(BOARD_WIDTH as nat, |x: int| None)
}

/// The rows among the first `i` of `rows` that are not full, in order: what a
/// line clear keeps of that prefix.
pub open spec fn kept_rows_upto(
    rows: Seq<Seq<Option<BoardSquare>>>,
    i: int,
) -> Seq<Seq<Option<BoardSquare>>>
    decreases i,
{
    if i <= 0 {
        Seq::empty()
    } else if row_full(rows[i - 1]) {
        kept_rows_upto(rows, i - 1)
    } else {
        kept_rows_upto(rows, i - 1).push(rows[i - 1])
    }
}

/// The rows that a line clear keeps, in order.
pub open spec fn kept_rows(rows: Seq<Seq<Option<BoardSquare>>>) -> Seq<Seq<Option<BoardSquare>>> {
    kept_rows_upto(rows, rows.len() as int)
}

pub proof fn lemma_kept_rows_upto_len(rows: Seq<Seq<Option<BoardSquare>>>, i: int)
    requires
        0 <= i,
    ensures
        kept_rows_upto(rows, i).len() <= i,
    decreases i,
{
    if i > 0 {
        lemma_kept_rows_upto_len(rows, i - 1);
    }
}

proof fn lemma_kept_rows_upto_no_full(rows: Seq<Seq<Option<BoardSquare>>>, i: int)
    requires
        0 <= i <= rows.len(),
        forall|y: int| 0 <= y < i ==> !row_full(#[trigger] rows[y]),
    ensures
        kept_rows_upto(rows, i) == rows.take(i),
    decreases i,
{
    if i > 0 {
        lemma_kept_rows_upto_no_full(rows, i - 1);
        assert(rows.take(i) =~= rows.take(i - 1).push(rows[i - 1]));
    } else {
        assert(rows.take(0) =~= Seq::empty());
    }
}

proof fn lemma_kept_rows_upto_prefix(rows: Seq<Seq<Option<BoardSquare>>>, k: int, i: int)
    requires
        0 <= k <= i <= rows.len(),
        forall|y: int| 0 <= y < k ==> !row_full(#[trigger] rows[y]),
    ensures
        kept_rows_upto(rows, i).len() >= k,
        forall|y: int| 0 <= y < k ==> kept_rows_upto(rows, i)[y] == rows[y],
    decreases i,
{
    if i == k {
        lemma_kept_rows_upto_no_full(rows, k);
        assert forall|y: int| 0 <= y < k implies kept_rows_upto(rows, i)[y] == rows[y] by {
            assert(rows.take(k)[y] == rows[y]);
        }
    } else {
        lemma_kept_rows_upto_prefix(rows, k, i - 1);
    }
}

/// Rows that lie below every full row survive a clear in place: the cleared
/// board agrees with the old one on each row below the lowest full row.
pub proof fn lemma_rows_below_full_rows_kept(rows: Seq<Seq<Option<BoardSquare>>>, k: int)
    requires
        0 <= k <= rows.len(),
        forall|y: int| 0 <= y < k ==> !row_full(#[trigger] rows[y]),
    ensures
        kept_rows(rows).len() >= k,
        forall|y: int| 0 <= y < k ==> kept_rows(rows)[y] == rows[y],
{
    lemma_kept_rows_upto_prefix(rows, k, rows.len() as int);
}

/// Clearing an empty board removes nothing: a board with every cell empty
/// has no full row, so a clear keeps every row, in place, and reports zero
/// rows removed.
pub proof fn lemma_clearing_empty_board_keeps_all(rows: Seq<Seq<Option<BoardSquare>>>)
    requires
        rows.len() == BOARD_HEIGHT,
        forall|y: int, x: int|
            0 <= y < BOARD_HEIGHT && 0 <= x < BOARD_WIDTH ==> rows[y][x] is None,
    ensures
        kept_rows(rows) == rows,
{
    assert forall|y: int| 0 <= y < BOARD_HEIGHT implies !row_full(#[trigger] rows[y]) by {
        assert(rows[y][0] is None);
    }
    lemma_kept_rows_upto_no_full(rows, BOARD_HEIGHT as int);
    assert(rows.take(BOARD_HEIGHT as int) =~= rows);
}

impl View for Board {
    type V = Seq<Seq<Option<BoardSquare>>>;

    closed spec fn view(&self) -> Seq<Seq<Option<BoardSquare>>> {
        Seq::new(
            BOARD_HEIGHT as nat,
            |y: int| Seq::new(BOARD_WIDTH as nat, |x: int| self.data@[y * BOARD_WIDTH + x]),
        )
    }
}

/// The view of any board is a full grid: `BOARD_HEIGHT` rows of
/// `BOARD_WIDTH` cells each.
pub proof fn lemma_view_shape(b: &Board)
    ensures
        b@.len() == BOARD_HEIGHT,
        forall|y: int| 0 <= y < BOARD_HEIGHT ==> (#[trigger] b@[y]).len() == BOARD_WIDTH,
{
}

impl Board {
    /// A board holds exactly one cell of storage per grid position.
    pub closed spec fn wf(self) -> bool {
        self.data@.len() == BOARD_WIDTH * BOARD_HEIGHT
    }

    /// A board with every cell empty.
    pub fn new() -> (b: Board)
        ensures
            b.wf(),
            forall|y: int, x: int|
                0 <= y < BOARD_HEIGHT && 0 <= x < BOARD_WIDTH ==> b@[y][x] is None,
    {
        let mut data: Vec<Option<BoardSquare>> = Vec::new();
        let mut i: usize = 0;
        while i < BOARD_WIDTH * BOARD_HEIGHT
            invariant
                data@.len() == i,
                i <= BOARD_WIDTH * BOARD_HEIGHT,
                forall|k: int| 0 <= k < i ==> data@[k] is None,
            decreases BOARD_WIDTH * BOARD_HEIGHT - i,
        {
            data.push(None);
            i = i + 1;
        }
        Board { data }
    }

    /// Overwrite one cell with the given contents.
    fn put(&mut self, x: usize, y: usize, cell: Option<BoardSquare>)
        requires
            old(self).wf(),
            x < BOARD_WIDTH,
            y < BOARD_HEIGHT,
        ensures
            final(self).wf(),
            forall|yy: int, xx: int|
                0 <= yy < BOARD_HEIGHT && 0 <= xx < BOARD_WIDTH ==> final(self)@[yy][xx] == (
                if yy == y && xx == x {
                    cell
                } else {
                    old(self)@[yy][xx]
                }),
    {
        self.data.set(y * BOARD_WIDTH + x, cell);
    }

    /// Mark one cell occupied.
    fn set(&mut self, x: usize, y: usize, board_square: BoardSquare)
        requires
            old(self).wf(),
            x < BOARD_WIDTH,
            y < BOARD_HEIGHT,
        ensures
            final(self).wf(),
            forall|yy: int, xx: int|
                0 <= yy < BOARD_HEIGHT && 0 <= xx < BOARD_WIDTH ==> final(self)@[yy][xx] == (
                if yy == y && xx == x {
                    Some(board_square)
                } else {
                    old(self)@[yy][xx]
                }),
    {
        self.put(x, y, Some(board_square));
    }

    /// The occupant of the cell at `(x, y)`, if any. Coordinates must be in
    /// bounds; the caller checks them first.
    pub fn get(&self, x: usize, y: usize) -> (r: Option<BoardSquare>)
        requires
            self.wf(),
            x < BOARD_WIDTH,
            y < BOARD_HEIGHT,
        ensures
            r == self@[y as int][x as int],
    {
        self.data[y * BOARD_WIDTH + x]
    }

    /// Lock a piece into the grid: mark each of its four absolute cells
    /// occupied with the piece's color. The caller has already validated
    /// that every cell lies inside the visible board; the board itself does
    /// not defend against out-of-range cells.
    pub fn place(&mut self, piece: &Piece)
        requires
            old(self).wf(),
            piece.locs_fit(),
            forall|i: int|
                0 <= i < 4 ==> 0 <= (#[trigger] piece.loc(i)).0 < BOARD_WIDTH && 0 <= piece.loc(
                    i,
                ).1 < BOARD_HEIGHT,
        ensures
            final(self).wf(),
            forall|y: int, x: int|
                0 <= y < BOARD_HEIGHT && 0 <= x < BOARD_WIDTH ==> final(self)@[y][x] == (
                if piece.covers(x, y) {
                    Some(BoardSquare(piece.color))
                } else {
                    old(self)@[y][x]
                }),
    {
        let locations = piece.real_locations();
        let square = BoardSquare(piece.color);
        proof {
            assert(piece.loc(0) == piece.loc(0));
            assert(piece.loc(1) == piece.loc(1));
            assert(piece.loc(2) == piece.loc(2));
            assert(piece.loc(3) == piece.loc(3));
        }
        self.set(locations[0].0 as usize, locations[0].1 as usize, square);
        self.set(locations[1].0 as usize, locations[1].1 as usize, square);
        self.set(locations[2].0 as usize, locations[2].1 as usize, square);
        self.set(locations[3].0 as usize, locations[3].1 as usize, square);
        proof {
            assert forall|y: int, x: int|
                0 <= y < BOARD_HEIGHT && 0 <= x < BOARD_WIDTH implies self@[y][x] == (
            if piece.covers(x, y) {
                Some(square)
            } else {
                old(self)@[y][x]
            }) by {
                if piece.covers(x, y) {
                    let i = choose|i: int| 0 <= i < 4 && (#[trigger] piece.loc(i)) == (x, y);
                    assert(i == 0 || i == 1 || i == 2 || i == 3);
                } else {
                    assert(piece.loc(0) != (x, y));
                    assert(piece.loc(1) != (x, y));
                    assert(piece.loc(2) != (x, y));
                    assert(piece.loc(3) != (x, y));
                }
            }
        }
    }

    /// True if every cell of row `y` is occupied.
    fn row_is_full(&self, y: usize) -> (r: bool)
        requires
            self.wf(),
            y < BOARD_HEIGHT,
        ensures
            r == row_full(self@[y as int]),
    {
        let mut x: usize = 0;
        let mut full = true;
        while x < BOARD_WIDTH
            invariant
                self.wf(),
                x <= BOARD_WIDTH,
                y < BOARD_HEIGHT,
                full <==> (forall|xx: int| 0 <= xx < x ==> self@[y as int][xx] is Some),
            decreases BOARD_WIDTH - x,
        {
            if self.get(x, y).is_none() {
                full = false;
            }
            x = x + 1;
        }
        full
    }

    /// Copy row `src` into row `dst` (used to shift rows down during a clear).
    fn copy_row(&mut self, src: usize, dst: usize)
        requires
            old(self).wf(),
            dst < src,
            src < BOARD_HEIGHT,
        ensures
            final(self).wf(),
            final(self)@[dst as int] == old(self)@[src as int],
            forall|y: int| 0 <= y < BOARD_HEIGHT && y != dst ==> final(self)@[y] == old(self)@[y],
    {
        let mut x: usize = 0;
        while x < BOARD_WIDTH
            invariant
                self.wf(),
                x <= BOARD_WIDTH,
                dst < src,
                src < BOARD_HEIGHT,
                forall|xx: int| 0 <= xx < x ==> self@[dst as int][xx] == old(self)@[src as int][xx],
                forall|xx: int|
                    x <= xx < BOARD_WIDTH ==> self@[dst as int][xx] == old(self)@[dst as int][xx],
                forall|y: int| 0 <= y < BOARD_HEIGHT && y != dst ==> self@[y] == old(self)@[y],
            decreases BOARD_WIDTH - x,
        {
            let cell = self.get(x, src);
            self.put(x, dst, cell);
            proof {
                assert forall|y: int| 0 <= y < BOARD_HEIGHT && y != dst implies self@[y] == old(
                    self,
                )@[y] by {
                    assert(self@[y] =~= old(self)@[y]);
                }
            }
            x = x + 1;
        }
        proof {
            assert(self@[dst as int] =~= old(self)@[src as int]);
        }
    }

    /// Reset row `y` to all-empty.
    fn blank_row(&mut self, y: usize)
        requires
            old(self).wf(),
            y < BOARD_HEIGHT,
        ensures
            final(self).wf(),
            final(self)@[y as int] == empty_row(),
            forall|yy: int| 0 <= yy < BOARD_HEIGHT && yy != y ==> final(self)@[yy] == old(self)@[yy],
    {
        let mut x: usize = 0;
        while x < BOARD_WIDTH
            invariant
                self.wf(),
                x <= BOARD_WIDTH,
                y < BOARD_HEIGHT,
                forall|xx: int| 0 <= xx < x ==> self@[y as int][xx] is None,
                forall|yy: int| 0 <= yy < BOARD_HEIGHT && yy != y ==> self@[yy] == old(self)@[yy],
            decreases BOARD_WIDTH - x,
        {
            self.put(x, y, None);
            proof {
                assert forall|yy: int| 0 <= yy < BOARD_HEIGHT && yy != y implies self@[yy] == old(
                    self,
                )@[yy] by {
                    assert(self@[yy] =~= old(self)@[yy]);
                }
            }
            x = x + 1;
        }
        proof {
            assert(self@[y as int] =~= empty_row());
        }
    }

    /// Remove every full row, shift the rows above each removed row down, and
    /// refill the vacated rows at the top with empty cells. Returns the number
    /// of rows removed. Relative order of the surviving rows is preserved.
    pub fn clear_lines(&mut self) -> (found: u8)
        requires
            old(self).wf(),
        ensures
            final(self).wf(),
            found <= BOARD_HEIGHT,
            found as int == BOARD_HEIGHT - kept_rows(old(self)@).len(),
            forall|y: int|
                0 <= y < kept_rows(old(self)@).len() ==> final(self)@[y] == kept_rows(old(self)@)[y],
            forall|y: int|
                kept_rows(old(self)@).len() <= y < BOARD_HEIGHT ==> final(self)@[y] == empty_row(),
    {
        let mut found: usize = 0;
        let mut index: usize = 0;

        // Collapse full rows: walk bottom-to-top, dropping full rows and
        // shifting every surviving row down past the full rows found below it.
        while index < BOARD_HEIGHT
            invariant
                self.wf(),
                index <= BOARD_HEIGHT,
                found == index - kept_rows_upto(old(self)@, index as int).len(),
                kept_rows_upto(old(self)@, index as int).len() <= index,
                forall|y: int|
                    0 <= y < index - found ==> self@[y] == kept_rows_upto(
                        old(self)@,
                        index as int,
                    )[y],
                forall|y: int| index <= y < BOARD_HEIGHT ==> self@[y] == old(self)@[y],
            decreases BOARD_HEIGHT - index,
        {
            proof {
                lemma_kept_rows_upto_len(old(self)@, index as int + 1);
            }
            if self.row_is_full(index) {
                found = found + 1;
            } else if found > 0 {
                self.copy_row(index, index - found);
            }
            index = index + 1;
        }

        proof {
            assert(kept_rows_upto(old(self)@, BOARD_HEIGHT as int) == kept_rows(old(self)@));
        }

        // Refill the vacated rows at the top with empty cells.
        let mut top: usize = BOARD_HEIGHT - found;
        while top < BOARD_HEIGHT
            invariant
                self.wf(),
                BOARD_HEIGHT - found <= top <= BOARD_HEIGHT,
                found <= BOARD_HEIGHT,
                found as int == BOARD_HEIGHT - kept_rows(old(self)@).len(),
                forall|y: int|
                    0 <= y < kept_rows(old(self)@).len() ==> self@[y] == kept_rows(old(self)@)[y],
                forall|y: int| BOARD_HEIGHT - found <= y < top ==> self@[y] == empty_row(),
            decreases BOARD_HEIGHT - top,
        {
            self.blank_row(top);
            top = top + 1;
        }

        found as u8
    }

    /// Walk every cell of the board with its coordinates.
    pub fn iter_with_index<'a>(&'a self) -> (it: IterWithIndex<'a>)
        requires
            self.wf(),
        ensures
            it.wf(),
            it.pos() == (0int, 0int),
            it.board_view() == self@,
    {
        IterWithIndex::over(&self)
    }
}

/// A cursor over the cells of a board, yielding `(x, y, contents)` triples
/// column-by-column within each row, bottom row first.
pub struct IterWithIndex<'a> {
    x: usize,
    y: usize,
    board: &'a Board,
}

impl<'a> IterWithIndex<'a> {
    /// The cursor's column is in range and its board is well formed.
    pub closed spec fn wf(self) -> bool {
        self.x < BOARD_WIDTH && self.board.wf()
    }

    /// The `(x, y)` position the cursor will yield next.
    pub closed spec fn pos(self) -> (int, int) {
        (self.x as int, self.y as int)
    }

    /// The view of the board being walked.
    pub closed spec fn board_view(self) -> Seq<Seq<Option<BoardSquare>>> {
        (*self.board)@
    }

    fn over(board: &'a Board) -> (it: IterWithIndex<'a>)
        requires
            board.wf(),
        ensures
            it.wf(),
            it.pos() == (0int, 0int),
            it.board_view() == board@,
    {
        IterWithIndex { x: 0, y: 0, board }
    }

    /// The next cell and its coordinates, or `None` once every cell has been
    /// yielded.
    pub fn next(&mut self) -> (r: Option<(usize, usize, Option<BoardSquare>)>)
        requires
            old(self).wf(),
        ensures
            final(self).wf(),
            final(self).board_view() == old(self).board_view(),
            old(self).pos().1 >= BOARD_HEIGHT ==> (r is None && final(self).pos() == old(
                self,
            ).pos()),
            old(self).pos().1 < BOARD_HEIGHT ==> (r matches Some((x, y, sq)) && x == old(
                self,
            ).pos().0 && y == old(self).pos().1 && sq == old(self).board_view()[y as int][x as int]
                && final(self).pos() == (
            if x + 1 < BOARD_WIDTH {
                (x + 1 as int, y as int)
            } else {
                (0int, y + 1 as int)
            })),
    {
        if self.y >= BOARD_HEIGHT {
            return None;
        }
        let retval = Some((self.x, self.y, self.board.get(self.x, self.y)));
        if self.x < BOARD_WIDTH - 1 {
            self.x = self.x + 1;
        } else {
            self.x = 0;
            self.y = self.y + 1;
        }
        retval
    }
}

} // verus!
