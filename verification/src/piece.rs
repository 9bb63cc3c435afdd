//! The tetromino: four relative cell offsets, a color, a rotation capability
//! flag, and an absolute anchor coordinate.
//!
//! The four offsets plus the anchor, added pairwise, give the four absolute
//! cells the piece occupies. Movement shifts the anchor; rotation, on pieces
//! that support it, turns each offset a quarter turn about the anchor.

use vstd::prelude::*;
use crate::board::BOARD_WIDTH;
use crate::board::INSERTION_POINT;
use crate::color::Color;
use crate::coord::Coord;
use crate::game::Movement;

verus! {

/// A movable piece. Pieces are constructed by copying a template (a canonical
/// shape/color/capability triple) and supplying a fresh anchor.
#[derive(Debug, Copy, Clone)]
pub struct Piece {
    pub offsets: [Coord; 4],
    pub color: Color,
    pub rotation: bool,
    pub coord: Coord,
}

/// Whether the movement is a translation (as opposed to a rotation).
pub open spec fn is_translation(m: Movement) -> bool {
    m is MoveLeft || m is MoveRight || m is MoveDown
}

/// The unit horizontal displacement a translation applies.
pub open spec fn disp_x(m: Movement) -> int {
    if m is MoveLeft {
        -1
    } else if m is MoveRight {
        1
    } else {
        0
    }
}

/// The unit vertical displacement a translation applies.
pub open spec fn disp_y(m: Movement) -> int {
    if m is MoveDown {
        -1
    } else {
        0
    }
}

/// The offset `c` after a quarter turn: clockwise for `RotRight`,
/// counterclockwise for `RotLeft`.
pub open spec fn turned(m: Movement, c: Coord) -> (int, int) {
    if m is RotRight {
        (c.1 as int, -(c.0 as int))
    } else {
        (-(c.1 as int), c.0 as int)
    }
}

/// `q` is exactly `p` after one movement `m` is committed: translations shift
/// the anchor, rotations turn the offsets of a rotation-capable piece, and a
/// rotation of a piece without that capability changes nothing.
pub open spec fn is_moved_piece(q: Piece, p: Piece, m: Movement) -> bool {
    if is_translation(m) {
        &&& q.offsets == p.offsets
        &&& q.color == p.color
        &&& q.rotation == p.rotation
        &&& q.coord.0 as int == p.coord.0 + disp_x(m)
        &&& q.coord.1 as int == p.coord.1 + disp_y(m)
    } else if p.rotation {
        &&& q.coord == p.coord
        &&& q.color == p.color
        &&& q.rotation == p.rotation
        &&& forall|i: int|
            0 <= i < 4 ==> ((#[trigger] q.offsets@[i]).0 as int, q.offsets@[i].1 as int) == turned(
                m,
                p.offsets@[i],
            )
    } else {
        q == p
    }
}

impl Piece {
    /// The absolute cell the piece's `i`-th offset occupies, as unbounded
    /// integers.
    pub open spec fn loc(self, i: int) -> (int, int) {
        (self.offsets@[i].0 + self.coord.0, self.offsets@[i].1 + self.coord.1)
    }

    /// The piece occupies the absolute cell `(x, y)`.
    pub open spec fn covers(self, x: int, y: int) -> bool {
        exists|i: int| 0 <= i < 4 && (#[trigger] self.loc(i)) == (x, y)
    }

    /// All four absolute cells stay within the coordinate type's range.
    pub open spec fn locs_fit(self) -> bool {
        forall|i: int|
            0 <= i < 4 ==> i8::MIN <= (#[trigger] self.loc(i)).0 <= i8::MAX && i8::MIN <= self.loc(
                i,
            ).1 <= i8::MAX
    }

    /// The absolute cell the piece's `i`-th offset would occupy after one
    /// movement `m`, without committing it. For a rotation of a piece that
    /// cannot rotate, the result is the bare offset, anchor not added, as the
    /// legality check consumes it in exactly that form.
    pub open spec fn moved_loc(self, m: Movement, i: int) -> (int, int) {
        if is_translation(m) {
            (self.loc(i).0 + disp_x(m), self.loc(i).1 + disp_y(m))
        } else if self.rotation {
            (turned(m, self.offsets@[i]).0 + self.coord.0, turned(m, self.offsets@[i]).1
                + self.coord.1)
        } else {
            (self.offsets@[i].0 as int, self.offsets@[i].1 as int)
        }
    }

    /// The arithmetic needed to compute `moved_loc` stays within the
    /// coordinate type's range.
    pub open spec fn moved_locs_fit(self, m: Movement) -> bool {
        if is_translation(m) {
            self.locs_fit() && forall|i: int|
                0 <= i < 4 ==> i8::MIN <= (#[trigger] self.moved_loc(m, i)).0 <= i8::MAX
                    && i8::MIN <= self.moved_loc(m, i).1 <= i8::MAX
        } else if self.rotation {
            forall|i: int|
                0 <= i < 4 ==> (#[trigger] self.offsets@[i]).0 != i8::MIN && self.offsets@[i].1
                    != i8::MIN && i8::MIN <= self.moved_loc(m, i).0 <= i8::MAX && i8::MIN
                    <= self.moved_loc(m, i).1 <= i8::MAX
        } else {
            true
        }
    }

    /// A piece the game keeps in play: offsets within two cells of the
    /// anchor and pairwise distinct (so the four real cells are always
    /// distinct), one offset on the anchor itself, and the anchor inside the
    /// column range and no higher than the insertion row.
    pub open spec fn wf(self) -> bool {
        &&& forall|i: int|
            0 <= i < 4 ==> -2 <= (#[trigger] self.offsets@[i]).0 <= 2 && -2 <= self.offsets@[i].1
                <= 2
        &&& forall|i: int, j: int|
            0 <= i < j < 4 ==> (#[trigger] self.offsets@[i]) != (#[trigger] self.offsets@[j])
        &&& exists|i: int|
            0 <= i < 4 && (#[trigger] self.offsets@[i]).0 == 0 && self.offsets@[i].1 == 0
        &&& 0 <= self.coord.0 < BOARD_WIDTH
        &&& -2 <= self.coord.1 <= INSERTION_POINT
    }

    /// Copy shape, color and rotation capability from a template and anchor
    /// the new piece at `coord`.
    pub fn from_preset(preset: &Piece, coord: Coord) -> (p: Piece)
        ensures
            p.offsets == preset.offsets,
            p.color == preset.color,
            p.rotation == preset.rotation,
            p.coord == coord,
    {
        Piece { offsets: preset.offsets, color: preset.color, rotation: preset.rotation, coord }
    }

    /// The four absolute cells the piece currently occupies.
    pub fn real_locations(&self) -> (r: [Coord; 4])
        requires
            self.locs_fit(),
        ensures
            forall|i: int|
                0 <= i < 4 ==> ((#[trigger] r@[i]).0 as int, r@[i].1 as int) == self.loc(i),
    {
        proof {
            assert(self.loc(0).0 == self.offsets@[0].0 + self.coord.0);
            assert(self.loc(1).0 == self.offsets@[1].0 + self.coord.0);
            assert(self.loc(2).0 == self.offsets@[2].0 + self.coord.0);
            assert(self.loc(3).0 == self.offsets@[3].0 + self.coord.0);
        }
        [
            self.offsets[0] + self.coord,
            self.offsets[1] + self.coord,
            self.offsets[2] + self.coord,
            self.offsets[3] + self.coord,
        ]
    }

    /// The four cells the piece would occupy after one movement, without
    /// mutating the piece; the basis for the game's legality check. For a
    /// rotation of a piece that cannot rotate this returns the bare offsets
    /// unchanged.
    pub fn real_locations_when_moved(&self, movement: Movement) -> (r: [Coord; 4])
        requires
            self.moved_locs_fit(movement),
        ensures
            forall|i: int|
                0 <= i < 4 ==> ((#[trigger] r@[i]).0 as int, r@[i].1 as int) == self.moved_loc(
                    movement,
                    i,
                ),
    {
        proof {
            assert(self.moved_loc(movement, 0) == self.moved_loc(movement, 0));
            assert(self.moved_loc(movement, 1) == self.moved_loc(movement, 1));
            assert(self.moved_loc(movement, 2) == self.moved_loc(movement, 2));
            assert(self.moved_loc(movement, 3) == self.moved_loc(movement, 3));
            if is_translation(movement) {
                assert(self.loc(0).0 == self.offsets@[0].0 + self.coord.0);
                assert(self.loc(1).0 == self.offsets@[1].0 + self.coord.0);
                assert(self.loc(2).0 == self.offsets@[2].0 + self.coord.0);
                assert(self.loc(3).0 == self.offsets@[3].0 + self.coord.0);
            }
        }
        match movement {
            Movement::MoveLeft | Movement::MoveRight | Movement::MoveDown => {
                let displacement = if movement == Movement::MoveLeft {
                    Coord(-1, 0)
                } else if movement == Movement::MoveRight {
                    Coord(1, 0)
                } else {
                    Coord(0, -1)
                };
                [
                    self.offsets[0] + self.coord + displacement,
                    self.offsets[1] + self.coord + displacement,
                    self.offsets[2] + self.coord + displacement,
                    self.offsets[3] + self.coord + displacement,
                ]
            },
            Movement::RotRight | Movement::RotLeft => {
                if !self.rotation {
                    return self.offsets;
                }
                if movement == Movement::RotRight {
                    [
                        self.offsets[0].turn_right() + self.coord,
                        self.offsets[1].turn_right() + self.coord,
                        self.offsets[2].turn_right() + self.coord,
                        self.offsets[3].turn_right() + self.coord,
                    ]
                } else {
                    [
                        self.offsets[0].turn_left() + self.coord,
                        self.offsets[1].turn_left() + self.coord,
                        self.offsets[2].turn_left() + self.coord,
                        self.offsets[3].turn_left() + self.coord,
                    ]
                }
            },
        }
    }

    /// Commit one movement: shift the anchor for a translation, turn the
    /// offsets for a rotation of a rotation-capable piece, do nothing for a
    /// rotation of a piece without that capability. The caller validates
    /// legality beforehand.
    pub fn do_move(&mut self, movement: Movement)
        requires
            is_translation(movement) ==> i8::MIN <= old(self).coord.0 + disp_x(movement)
                <= i8::MAX && i8::MIN <= old(self).coord.1 + disp_y(movement) <= i8::MAX,
            !is_translation(movement) && old(self).rotation ==> forall|i: int|
                0 <= i < 4 ==> (#[trigger] old(self).offsets@[i]).0 != i8::MIN && old(
                    self,
                ).offsets@[i].1 != i8::MIN,
        ensures
            is_moved_piece(*final(self), *old(self), movement),
    {
        match movement {
            Movement::MoveLeft | Movement::MoveRight | Movement::MoveDown => {
                let displacement = if movement == Movement::MoveLeft {
                    Coord(-1, 0)
                } else if movement == Movement::MoveRight {
                    Coord(1, 0)
                } else {
                    Coord(0, -1)
                };
                self.coord.add_assign(displacement);
            },
            Movement::RotRight | Movement::RotLeft => {
                if !self.rotation {
                    return;
                }
                if movement == Movement::RotRight {
                    self.offsets = [
                        self.offsets[0].turn_right(),
                        self.offsets[1].turn_right(),
                        self.offsets[2].turn_right(),
                        self.offsets[3].turn_right(),
                    ];
                } else {
                    self.offsets = [
                        self.offsets[0].turn_left(),
                        self.offsets[1].turn_left(),
                        self.offsets[2].turn_left(),
                        self.offsets[3].turn_left(),
                    ];
                }
            },
        }
    }
}

/// A well-formed piece occupies four distinct absolute cells.
pub proof fn lemma_wf_cells_distinct(p: Piece)
    requires
        p.wf(),
    ensures
        forall|i: int, j: int| 0 <= i < j < 4 ==> (#[trigger] p.loc(i)) != (#[trigger] p.loc(j)),
{
    assert forall|i: int, j: int|
        0 <= i < j < 4 implies (#[trigger] p.loc(i)) != (#[trigger] p.loc(j)) by {
        if p.loc(i) == p.loc(j) {
            assert(p.offsets@[i].0 == p.offsets@[j].0 && p.offsets@[i].1 == p.offsets@[j].1);
            assert(p.offsets@[i] == p.offsets@[j]);
        }
    }
}

/// A well-formed piece can compute its locations, moved or not, without the
/// coordinate arithmetic ever leaving the coordinate type's range.
pub proof fn lemma_wf_moves_fit(p: Piece, m: Movement)
    requires
        p.wf(),
    ensures
        p.locs_fit(),
        p.moved_locs_fit(m),
{
    assert forall|i: int| 0 <= i < 4 implies i8::MIN <= (#[trigger] p.loc(i)).0 <= i8::MAX
        && i8::MIN <= p.loc(i).1 <= i8::MAX by {
        assert(-2 <= p.offsets@[i].0 <= 2);
    }
    if is_translation(m) {
        assert forall|i: int|
            0 <= i < 4 implies i8::MIN <= (#[trigger] p.moved_loc(m, i)).0 <= i8::MAX && i8::MIN
            <= p.moved_loc(m, i).1 <= i8::MAX by {
            assert(-2 <= p.offsets@[i].0 <= 2);
        }
    } else if p.rotation {
        assert forall|i: int|
            0 <= i < 4 implies (#[trigger] p.offsets@[i]).0 != i8::MIN && p.offsets@[i].1
            != i8::MIN && i8::MIN <= p.moved_loc(m, i).0 <= i8::MAX && i8::MIN <= p.moved_loc(
            m,
            i,
        ).1 <= i8::MAX by {
            assert(-2 <= p.offsets@[i].0 <= 2);
        }
    }
}

} // verus!
