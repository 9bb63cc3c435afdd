//! The orchestrator: one board, at most one active piece (the cursor), and
//! the rules that couple them.
//!
//! The game validates every candidate movement against the board before
//! committing it to the piece. A refused downward move means the piece has
//! landed: it is locked into the board and the cursor is discarded. Alongside
//! the cursor the game maintains its projection: the same piece dropped as
//! far down as it can legally go, used by drivers to preview the landing
//! position and as the cells that a lock actually commits.

use vstd::prelude::*;
use crate::board::BOARD_HEIGHT;
use crate::board::BOARD_WIDTH;
use crate::board::Board;
use crate::board::BoardSquare;
use crate::board::INSERTION_POINT;
use crate::board::IterWithIndex;
use crate::board::empty_row;
use crate::board::kept_rows;
use crate::board::lemma_view_shape;
use crate::coord::Coord;
use crate::piece::Piece;
use crate::piece::is_moved_piece;
use crate::piece::is_translation;
use crate::piece::lemma_wf_moves_fit;
use crate::template::is_template_shape;
use crate::template::lemma_template_shape_wf;
use crate::template::random_at;

verus! {

/// The closed set of discrete actions a driver can request of the active
/// piece.
#[derive(Debug, Copy, Clone, PartialEq, Eq, Structural)]
pub enum Movement {
    MoveLeft,
    MoveRight,
    MoveDown,
    RotLeft,
    RotRight,
}

/// The outcome of requesting a movement: committed, locked into the board
/// because a downward move was refused, or refused with no change.
#[derive(Debug, Copy, Clone, PartialEq, Eq, Structural)]
pub enum MoveOutcome {
    Moved,
    Placed,
    Rejected,
}

/// Which of the game's two pieces a check applies to.
#[derive(Debug)]
enum Selection {
    Cursor,
    Projection,
}

/// A falling piece may occupy the cell `(x, y)`: inside the column range, not
/// below the floor, and either above the visible board (pieces may extend
/// above the playfield while falling in) or currently empty.
pub open spec fn cell_free(bv: Seq<Seq<Option<BoardSquare>>>, x: int, y: int) -> bool {
    &&& 0 <= x < BOARD_WIDTH
    &&& 0 <= y
    &&& (y >= BOARD_HEIGHT || bv[y][x] is None)
}

/// The movement passes the legality check for this piece on this board:
/// every cell the check inspects is free.
pub open spec fn piece_can_move(bv: Seq<Seq<Option<BoardSquare>>>, p: Piece, m: Movement) -> bool {
    forall|i: int|
        0 <= i < 4 ==> cell_free(bv, (#[trigger] p.moved_loc(m, i)).0, p.moved_loc(m, i).1)
}

/// The piece, with its anchor forced to row `ay` (same column), would sit
/// entirely on free cells.
pub open spec fn piece_fits_at(bv: Seq<Seq<Option<BoardSquare>>>, p: Piece, ay: int) -> bool {
    forall|i: int|
        0 <= i < 4 ==> cell_free(
            bv,
            p.coord.0 + (#[trigger] p.offsets@[i]).0,
            ay + p.offsets@[i].1,
        )
}

/// A downward move is legal exactly when the piece fits one row below its
/// current anchor.
proof fn lemma_can_move_down_iff_fits(bv: Seq<Seq<Option<BoardSquare>>>, p: Piece)
    ensures
        piece_can_move(bv, p, Movement::MoveDown) <==> piece_fits_at(bv, p, p.coord.1 - 1),
{
    if piece_can_move(bv, p, Movement::MoveDown) {
        assert forall|i: int|
            0 <= i < 4 implies cell_free(
            bv,
            p.coord.0 + (#[trigger] p.offsets@[i]).0,
            p.coord.1 - 1 + p.offsets@[i].1,
        ) by {
            assert(p.moved_loc(Movement::MoveDown, i) == (
                p.coord.0 + p.offsets@[i].0,
                p.coord.1 - 1 + p.offsets@[i].1,
            ));
        }
    }
    if piece_fits_at(bv, p, p.coord.1 - 1) {
        assert forall|i: int|
            0 <= i < 4 implies cell_free(
            bv,
            (#[trigger] p.moved_loc(Movement::MoveDown, i)).0,
            p.moved_loc(Movement::MoveDown, i).1,
        ) by {
            assert(cell_free(bv, p.coord.0 + p.offsets@[i].0, p.coord.1 - 1 + p.offsets@[i].1));
        }
    }
}

/// Whether a piece fits at a row depends only on its offsets and column.
proof fn lemma_fits_at_congruent(
    bv: Seq<Seq<Option<BoardSquare>>>,
    p: Piece,
    q: Piece,
    ay: int,
)
    requires
        q.offsets == p.offsets,
        q.coord.0 == p.coord.0,
    ensures
        piece_fits_at(bv, p, ay) <==> piece_fits_at(bv, q, ay),
{
    assert(q.offsets@ == p.offsets@);
    assert forall|i: int| 0 <= i < 4 implies (#[trigger] q.offsets@[i]) == p.offsets@[i] by {}
}

/// A legal movement keeps the piece well formed.
proof fn lemma_moved_piece_wf(bv: Seq<Seq<Option<BoardSquare>>>, p: Piece, q: Piece, m: Movement)
    requires
        p.wf(),
        is_moved_piece(q, p, m),
        piece_can_move(bv, p, m),
    ensures
        q.wf(),
{
    if is_translation(m) {
        assert(q.offsets@ == p.offsets@);
        let i0 = choose|i: int|
            0 <= i < 4 && (#[trigger] p.offsets@[i]).0 == 0 && p.offsets@[i].1 == 0;
        assert(cell_free(bv, p.moved_loc(m, i0).0, p.moved_loc(m, i0).1));
        assert(p.moved_loc(m, i0) == (q.coord.0 as int, q.coord.1 as int));
        assert(q.offsets@[i0].0 == 0 && q.offsets@[i0].1 == 0);
    } else if p.rotation {
        assert forall|i: int|
            0 <= i < 4 implies -2 <= (#[trigger] q.offsets@[i]).0 <= 2 && -2 <= q.offsets@[i].1
            <= 2 by {
            assert(-2 <= p.offsets@[i].0 <= 2 && -2 <= p.offsets@[i].1 <= 2);
        }
        let i0 = choose|i: int|
            0 <= i < 4 && (#[trigger] p.offsets@[i]).0 == 0 && p.offsets@[i].1 == 0;
        assert(q.offsets@[i0].0 == 0 && q.offsets@[i0].1 == 0);
    }
}

/// The board view of any game is a full grid: `BOARD_HEIGHT` rows of
/// `BOARD_WIDTH` cells each.
pub proof fn lemma_game_board_shape(g: Game)
    ensures
        g.board_view().len() == BOARD_HEIGHT,
        forall|y: int|
            0 <= y < BOARD_HEIGHT ==> (#[trigger] g.board_view()[y]).len() == BOARD_WIDTH,
{
    lemma_view_shape(&g.board);
}

/// Bounds discipline: when a movement passes the legality check, every cell
/// the moved piece then occupies has its column inside the board and its row
/// at or above the floor (rows above the visible board are legal by design).
/// A rotation of a piece that cannot rotate is excluded: there the check
/// inspects the bare offsets rather than the would-be cells, and the piece
/// itself does not move.
pub proof fn lemma_accepted_move_in_bounds(g: Game, q: Piece, m: Movement)
    requires
        g.has_cursor(),
        g.cursor_can_move(m),
        is_moved_piece(q, g.cursor_spec()->Some_0, m),
        is_translation(m) || g.cursor_spec()->Some_0.rotation,
    ensures
        forall|i: int|
            0 <= i < 4 ==> 0 <= (#[trigger] q.loc(i)).0 < BOARD_WIDTH && 0 <= q.loc(i).1,
{
    let c = g.cursor_spec()->Some_0;
    assert forall|i: int|
        0 <= i < 4 implies 0 <= (#[trigger] q.loc(i)).0 < BOARD_WIDTH && 0 <= q.loc(i).1 by {
        assert(cell_free(g.board_view(), c.moved_loc(m, i).0, c.moved_loc(m, i).1));
        if is_translation(m) {
            assert(q.offsets@[i] == c.offsets@[i]);
        }
    }
}

/// The game state: a score counter, the board of locked cells, and the
/// optional active piece with its projection.
pub struct Game {
    pub score: u32,
    board: Board,
    cursor: Option<Piece>,
    projection: Option<Piece>,
    prev_cursor_x: i8,
}

impl Game {
    /// The score counter, as contracts see it.
    pub closed spec fn score_spec(self) -> u32 {
        self.score
    }

    /// The grid of locked cells, as rows of optional squares.
    pub closed spec fn board_view(self) -> Seq<Seq<Option<BoardSquare>>> {
        self.board@
    }

    /// The board's own storage is well formed.
    pub closed spec fn board_wf(self) -> bool {
        self.board.wf()
    }

    /// The active piece, if one is in play.
    pub closed spec fn cursor_spec(self) -> Option<Piece> {
        self.cursor
    }

    /// The active piece dropped as far as it can legally go, if one is in
    /// play.
    pub closed spec fn projection_spec(self) -> Option<Piece> {
        self.projection
    }

    /// The column at which the next piece will be spawned: the column the
    /// previous piece locked in (0 before any piece has locked).
    pub closed spec fn prev_x_spec(self) -> i8 {
        self.prev_cursor_x
    }

    /// The game's standing invariant: a well-formed board, a spawn column in
    /// range, cursor and projection present or absent together, and both
    /// well formed when present.
    pub open spec fn wf(self) -> bool {
        &&& self.board_wf()
        &&& 0 <= self.prev_x_spec() < BOARD_WIDTH
        &&& (self.cursor_spec() is Some <==> self.projection_spec() is Some)
        &&& (self.cursor_spec() matches Some(c) ==> c.wf())
        &&& (self.projection_spec() matches Some(p) ==> p.wf())
    }

    /// A piece is in play.
    pub open spec fn has_cursor(self) -> bool {
        self.cursor_spec() is Some
    }

    /// The projection is the cursor dropped as far down as it can legally
    /// go: same shape, color and column; every position from the projection's
    /// row up to just below the cursor's row fits; and one more row down does
    /// not fit.
    pub open spec fn projection_valid(self) -> bool {
        match (self.cursor_spec(), self.projection_spec()) {
            (Some(c), Some(p)) => {
                &&& p.offsets == c.offsets
                &&& p.color == c.color
                &&& p.rotation == c.rotation
                &&& p.coord.0 == c.coord.0
                &&& p.coord.1 <= c.coord.1
                &&& forall|y: int|
                    p.coord.1 <= y < c.coord.1 ==> piece_fits_at(self.board_view(), c, y)
                &&& !piece_fits_at(self.board_view(), c, p.coord.1 - 1)
            },
            (None, None) => true,
            _ => false,
        }
    }

    /// The requested movement of the active piece passes the legality check.
    pub open spec fn cursor_can_move(self, m: Movement) -> bool {
        piece_can_move(self.board_view(), self.cursor_spec()->Some_0, m)
    }

    /// The movement is a refused downward move, which locks the piece.
    pub open spec fn must_place(self, m: Movement) -> bool {
        m is MoveDown && !self.cursor_can_move(m)
    }

    /// All four cells of the projection lie inside the visible board, so the
    /// piece can be locked into it.
    pub open spec fn projection_in_board(self) -> bool {
        forall|i: int|
            0 <= i < 4 ==> 0 <= (#[trigger] self.projection_spec()->Some_0.loc(i)).0 < BOARD_WIDTH
                && 0 <= self.projection_spec()->Some_0.loc(i).1 < BOARD_HEIGHT
    }

    /// A fresh game: empty board, zero score, no piece in play.
    pub fn new() -> (g: Game)
        ensures
            g.wf(),
            g.projection_valid(),
            g.score_spec() == 0,
            g.cursor_spec() is None,
            g.projection_spec() is None,
            g.prev_x_spec() == 0,
            forall|y: int, x: int|
                0 <= y < BOARD_HEIGHT && 0 <= x < BOARD_WIDTH ==> g.board_view()[y][x] is None,
    {
        Game { score: 0, board: Board::new(), cursor: None, projection: None, prev_cursor_x: 0 }
    }

    /// The piece a selection refers to.
    spec fn selected_piece(self, selection: Selection) -> Option<Piece> {
        match selection {
            Selection::Cursor => self.cursor_spec(),
            Selection::Projection => self.projection_spec(),
        }
    }

    /// One cell of the legality check.
    fn cell_is_free(&self, location: Coord) -> (r: bool)
        requires
            self.board_wf(),
        ensures
            r == cell_free(self.board_view(), location.0 as int, location.1 as int),
    {
        location.0 >= 0 && location.1 >= 0 && (location.0 as usize) < BOARD_WIDTH && ((
        location.1 as usize) >= BOARD_HEIGHT || self.board.get(
            location.0 as usize,
            location.1 as usize,
        ).is_none())
    }

    /// Whether the selected piece may make the movement: every cell it would
    /// occupy afterwards is free.
    fn can_move_piece(&self, movement: Movement, selection: Selection) -> (r: bool)
        requires
            self.board_wf(),
            self.selected_piece(selection) matches Some(p) && p.wf(),
        ensures
            r == piece_can_move(
                self.board_view(),
                self.selected_piece(selection)->Some_0,
                movement,
            ),
    {
        let piece = match selection {
            Selection::Cursor => self.cursor.as_ref(),
            Selection::Projection => self.projection.as_ref(),
        };
        let piece = piece.unwrap();
        proof {
            lemma_wf_moves_fit(*piece, movement);
        }
        let locations = piece.real_locations_when_moved(movement);
        let r0 = self.cell_is_free(locations[0]);
        let r1 = self.cell_is_free(locations[1]);
        let r2 = self.cell_is_free(locations[2]);
        let r3 = self.cell_is_free(locations[3]);
        let r = r0 && r1 && r2 && r3;
        proof {
            if r {
                assert forall|i: int|
                    0 <= i < 4 implies cell_free(
                    self.board_view(),
                    (#[trigger] piece.moved_loc(movement, i)).0,
                    piece.moved_loc(movement, i).1,
                ) by {
                    assert(i == 0 || i == 1 || i == 2 || i == 3);
                }
            }
        }
        r
    }

    /// Recompute the projection: copy the cursor, then drop the copy one row
    /// at a time while a downward move is legal.
    pub fn project_cursor(&mut self)
        requires
            old(self).board_wf(),
            0 <= old(self).prev_x_spec() < BOARD_WIDTH,
            old(self).cursor_spec() matches Some(c) && c.wf(),
        ensures
            final(self).wf(),
            final(self).projection_valid(),
            final(self).cursor_spec() == old(self).cursor_spec(),
            final(self).board_view() == old(self).board_view(),
            final(self).score_spec() == old(self).score_spec(),
            final(self).prev_x_spec() == old(self).prev_x_spec(),
    {
        let ghost c = self.cursor->Some_0;
        let cursor_copy = self.cursor.unwrap();
        self.projection = Some(cursor_copy);
        while self.can_move_piece(Movement::MoveDown, Selection::Projection)
            invariant
                self.board == old(self).board,
                self.board_wf(),
                self.cursor == old(self).cursor,
                self.score == old(self).score,
                self.prev_cursor_x == old(self).prev_cursor_x,
                c == old(self).cursor->Some_0,
                c.wf(),
                self.projection matches Some(p) && p.wf() && p.offsets == c.offsets && p.color
                    == c.color && p.rotation == c.rotation && p.coord.0 == c.coord.0 && p.coord.1
                    <= c.coord.1,
                forall|y: int|
                    self.projection->Some_0.coord.1 <= y < c.coord.1 ==> piece_fits_at(
                        self.board_view(),
                        c,
                        y,
                    ),
            decreases self.projection->Some_0.coord.1 + 128,
        {
            let mut p = self.projection.unwrap();
            proof {
                lemma_can_move_down_iff_fits(self.board_view(), p);
                lemma_fits_at_congruent(self.board_view(), p, c, p.coord.1 - 1);
                // The row below fits, so its cells are at or above the floor;
                // with an offset on the anchor, the anchor row itself stays
                // well inside range.
                let i0 = choose|i: int|
                    0 <= i < 4 && (#[trigger] p.offsets@[i]).0 == 0 && p.offsets@[i].1 == 0;
                assert(cell_free(
                    self.board_view(),
                    p.coord.0 + p.offsets@[i0].0,
                    p.coord.1 - 1 + p.offsets@[i0].1,
                ));
            }
            p.do_move(Movement::MoveDown);
            self.projection = Some(p);
            proof {
                assert forall|y: int|
                    self.projection->Some_0.coord.1 <= y < c.coord.1 implies piece_fits_at(
                    self.board_view(),
                    c,
                    y,
                ) by {
                    if y == p.coord.1 {
                        lemma_fits_at_congruent(self.board_view(), c, p, y);
                        assert(piece_fits_at(self.board_view(), p, y));
                    }
                }
            }
        }
        proof {
            let p = self.projection->Some_0;
            lemma_can_move_down_iff_fits(self.board_view(), p);
            lemma_fits_at_congruent(self.board_view(), p, c, p.coord.1 - 1);
        }
    }

    /// Lock the projection's cells into the board, record the cursor's
    /// column as the next spawn column, and discard the cursor. This is the
    /// hard-drop entry point: what locks is the projection, the cursor
    /// dropped as far down as it legally goes.
    ///
    /// The board does not defend against out-of-range cells, so the caller
    /// must first check that the projection rests inside the visible board
    /// (a piece left resting above the top, or in columns it never entered,
    /// cannot be locked: the driver treats that as the game ending).
    pub fn place_cursor(&mut self)
        requires
            old(self).wf(),
            old(self).has_cursor(),
            old(self).projection_in_board(),
        ensures
            final(self).wf(),
            final(self).projection_valid(),
            final(self).cursor_spec() is None,
            final(self).projection_spec() is None,
            final(self).score_spec() == old(self).score_spec(),
            final(self).prev_x_spec() == old(self).cursor_spec()->Some_0.coord.0,
            forall|y: int, x: int|
                0 <= y < BOARD_HEIGHT && 0 <= x < BOARD_WIDTH ==> final(self).board_view()[y][x]
                    == (if old(self).projection_spec()->Some_0.covers(x, y) {
                    Some(BoardSquare(old(self).projection_spec()->Some_0.color))
                } else {
                    old(self).board_view()[y][x]
                }),
    {
        let proj = self.projection.unwrap();
        proof {
            lemma_wf_moves_fit(proj, Movement::MoveDown);
            assert forall|i: int|
                0 <= i < 4 implies 0 <= (#[trigger] proj.loc(i)).0 < BOARD_WIDTH && 0 <= proj.loc(
                i,
            ).1 < BOARD_HEIGHT by {
                assert(0 <= self.projection_spec()->Some_0.loc(i).0 < BOARD_WIDTH && 0
                    <= self.projection_spec()->Some_0.loc(i).1 < BOARD_HEIGHT);
            }
        }
        self.board.place(&proj);
        let cur = self.cursor.unwrap();
        self.prev_cursor_x = cur.coord.0;
        self.cursor = None;
        self.projection = None;
    }

    /// Spawn a new piece: copy a randomly chosen template, anchor it at the
    /// insertion row in the column where the previous piece locked, and
    /// recompute the projection. Only legal while no piece is in play.
    pub fn refill_cursor(&mut self)
        requires
            old(self).wf(),
            !old(self).has_cursor(),
        ensures
            final(self).wf(),
            final(self).projection_valid(),
            final(self).has_cursor(),
            final(self).cursor_spec() matches Some(c) && is_template_shape(c) && c.coord.0 == old(
                self,
            ).prev_x_spec() && c.coord.1 == INSERTION_POINT,
            final(self).board_view() == old(self).board_view(),
            final(self).score_spec() == old(self).score_spec(),
            final(self).prev_x_spec() == old(self).prev_x_spec(),
    {
        let piece = random_at(Coord(self.prev_cursor_x, INSERTION_POINT));
        proof {
            lemma_template_shape_wf(piece);
        }
        self.cursor = Some(piece);
        self.project_cursor();
    }

    /// Clear completed rows, add one point per cleared row, and report
    /// whether anything was cleared. The projection is not recomputed here:
    /// after a clear that changed the board, call `project_cursor` before
    /// the next move.
    pub fn evaluate_score(&mut self) -> (r: bool)
        requires
            old(self).wf(),
            old(self).score_spec() + BOARD_HEIGHT <= u32::MAX,
        ensures
            final(self).wf(),
            r == (kept_rows(old(self).board_view()).len() < BOARD_HEIGHT),
            final(self).score_spec() == old(self).score_spec() + BOARD_HEIGHT - kept_rows(
                old(self).board_view(),
            ).len(),
            forall|y: int|
                0 <= y < kept_rows(old(self).board_view()).len() ==> final(self).board_view()[y]
                    == kept_rows(old(self).board_view())[y],
            forall|y: int|
                kept_rows(old(self).board_view()).len() <= y < BOARD_HEIGHT
                    ==> final(self).board_view()[y] == empty_row(),
            final(self).cursor_spec() == old(self).cursor_spec(),
            final(self).projection_spec() == old(self).projection_spec(),
            final(self).prev_x_spec() == old(self).prev_x_spec(),
    {
        let add = self.board.clear_lines();
        if add > 0 {
            self.score = self.score + (add as u32);
            true
        } else {
            false
        }
    }

    /// Walk every cell of the board with its coordinates, for rendering.
    pub fn board_iter_with_index<'a>(&'a self) -> (it: IterWithIndex<'a>)
        requires
            self.board_wf(),
        ensures
            it.wf(),
            it.pos() == (0int, 0int),
            it.board_view() == self.board_view(),
    {
        self.board.iter_with_index()
    }

    /// The active piece, if any, for rendering.
    pub fn get_cursor(&self) -> (r: Option<&Piece>)
        ensures
            r is Some <==> self.cursor_spec() is Some,
            r matches Some(p) ==> *p == self.cursor_spec()->Some_0,
    {
        self.cursor.as_ref()
    }

    /// The projection of the active piece, if any, for rendering.
    pub fn get_projection(&self) -> (r: Option<&Piece>)
        ensures
            r is Some <==> self.projection_spec() is Some,
            r matches Some(p) ==> *p == self.projection_spec()->Some_0,
    {
        self.projection.as_ref()
    }

    /// Request one movement of the active piece.
    ///
    /// If the movement passes the legality check it is committed and the
    /// projection brought up to date; if a downward move fails the check the
    /// piece has landed, so it is locked into the board and the cursor
    /// discarded; any other refused movement changes nothing.
    ///
    /// Locking writes cells into the board, which does not defend against
    /// out-of-range coordinates: before requesting a downward move the
    /// caller must check that the piece, should it land now, rests inside
    /// the visible board.
    pub fn try_move_cursor(&mut self, movement: Movement) -> (r: MoveOutcome)
        requires
            old(self).wf(),
            old(self).has_cursor(),
            old(self).projection_valid(),
            old(self).must_place(movement) ==> old(self).projection_in_board(),
        ensures
            final(self).wf(),
            final(self).projection_valid(),
            r is Moved <==> old(self).cursor_can_move(movement),
            r is Placed <==> old(self).must_place(movement),
            r is Rejected <==> (!old(self).cursor_can_move(movement) && !(movement is MoveDown)),
            r is Rejected ==> *final(self) == *old(self),
            r is Moved ==> final(self).board_view() == old(self).board_view(),
            r is Moved ==> final(self).score_spec() == old(self).score_spec(),
            r is Moved ==> final(self).prev_x_spec() == old(self).prev_x_spec(),
            r is Moved ==> (final(self).cursor_spec() matches Some(q) && is_moved_piece(
                q,
                old(self).cursor_spec()->Some_0,
                movement,
            )),
            r is Placed ==> final(self).cursor_spec() is None && final(self).projection_spec()
                is None,
            r is Placed ==> final(self).score_spec() == old(self).score_spec(),
            r is Placed ==> final(self).prev_x_spec() == old(self).cursor_spec()->Some_0.coord.0,
            r is Placed ==> forall|y: int, x: int|
                0 <= y < BOARD_HEIGHT && 0 <= x < BOARD_WIDTH ==> final(self).board_view()[y][x]
                    == (if old(self).cursor_spec()->Some_0.covers(x, y) {
                    Some(BoardSquare(old(self).cursor_spec()->Some_0.color))
                } else {
                    old(self).board_view()[y][x]
                }),
    {
        if !self.can_move_piece(movement, Selection::Cursor) {
            if movement == Movement::MoveDown {
                let ghost oldc = self.cursor->Some_0;
                let ghost oldp = self.projection->Some_0;
                let ghost oldb = self.board_view();
                proof {
                    // The piece cannot move down, so the projection already
                    // sits at the cursor's own position.
                    lemma_can_move_down_iff_fits(self.board_view(), oldc);
                    if oldp.coord.1 < oldc.coord.1 {
                        assert(piece_fits_at(self.board_view(), oldc, oldc.coord.1 - 1));
                        assert(false);
                    }
                    assert forall|i: int| 0 <= i < 4 implies (#[trigger] oldp.loc(i)) == oldc.loc(
                        i,
                    ) by {
                        assert(oldp.offsets@[i] == oldc.offsets@[i]);
                    }
                }
                self.place_cursor();
                proof {
                    assert forall|y: int, x: int|
                        0 <= y < BOARD_HEIGHT && 0 <= x < BOARD_WIDTH implies self.board_view(
                    )[y][x] == (if oldc.covers(x, y) {
                        Some(BoardSquare(oldc.color))
                    } else {
                        oldb[y][x]
                    }) by {
                        if oldc.covers(x, y) {
                            let i = choose|i: int|
                                0 <= i < 4 && (#[trigger] oldc.loc(i)) == (x, y);
                            assert(oldp.loc(i) == (x, y));
                            assert(oldp.covers(x, y));
                        }
                        if oldp.covers(x, y) {
                            let i = choose|i: int|
                                0 <= i < 4 && (#[trigger] oldp.loc(i)) == (x, y);
                            assert(oldc.loc(i) == (x, y));
                            assert(oldc.covers(x, y));
                        }
                    }
                }
                return MoveOutcome::Placed;
            }
            return MoveOutcome::Rejected;
        }
        let mut c = self.cursor.unwrap();
        let ghost cpre = c;
        c.do_move(movement);
        self.cursor = Some(c);
        proof {
            lemma_moved_piece_wf(self.board_view(), cpre, c, movement);
        }
        if movement != Movement::MoveDown {
            self.project_cursor();
        } else {
            proof {
                // A committed downward move slides the cursor one row toward
                // the projection, which therefore stays exactly the cursor
                // dropped as far as it can go.
                let p = self.projection->Some_0;
                lemma_can_move_down_iff_fits(self.board_view(), cpre);
                assert(piece_fits_at(self.board_view(), cpre, cpre.coord.1 - 1));
                if p.coord.1 == cpre.coord.1 {
                    assert(!piece_fits_at(self.board_view(), cpre, p.coord.1 - 1));
                    assert(false);
                }
                assert forall|y: int|
                    p.coord.1 <= y < c.coord.1 implies piece_fits_at(
                    self.board_view(),
                    c,
                    y,
                ) by {
                    assert(piece_fits_at(self.board_view(), cpre, y));
                    lemma_fits_at_congruent(self.board_view(), cpre, c, y);
                }
                lemma_fits_at_congruent(self.board_view(), cpre, c, p.coord.1 - 1);
            }
        }
        MoveOutcome::Moved
    }
}

} // verus!
