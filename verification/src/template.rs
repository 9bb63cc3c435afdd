//! The fixed catalog of canonical piece shapes, and the factory that copies a
//! randomly chosen one into play.

use vstd::prelude::*;
use crate::board::BOARD_WIDTH;
use crate::board::INSERTION_POINT;
use crate::color::Color;
use crate::color::blue;
use crate::color::cyan;
use crate::color::green;
use crate::color::orange;
use crate::color::purple;
use crate::color::red;
use crate::color::yellow;
use crate::coord::Coord;
use crate::piece::Piece;

verus! {

/// The 2x2 block: shape, color and (absent) rotation capability.
pub open spec fn is_o(p: Piece) -> bool {
    &&& p.offsets@[0] == Coord(0, 0)
    &&& p.offsets@[1] == Coord(0, 1)
    &&& p.offsets@[2] == Coord(1, 0)
    &&& p.offsets@[3] == Coord(1, 1)
    &&& p.color == Color(255, 255, 0)
    &&& !p.rotation
}

/// The three-in-a-row-plus-stem shape.
pub open spec fn is_t(p: Piece) -> bool {
    &&& p.offsets@[0] == Coord(-1i8, 0)
    &&& p.offsets@[1] == Coord(0, 0)
    &&& p.offsets@[2] == Coord(1, 0)
    &&& p.offsets@[3] == Coord(0, 1)
    &&& p.color == Color(127, 0, 255)
    &&& p.rotation
}

/// The column with a foot to the right.
pub open spec fn is_l(p: Piece) -> bool {
    &&& p.offsets@[0] == Coord(0, 2)
    &&& p.offsets@[1] == Coord(0, 1)
    &&& p.offsets@[2] == Coord(0, 0)
    &&& p.offsets@[3] == Coord(1, 0)
    &&& p.color == Color(255, 127, 0)
    &&& p.rotation
}

/// The column with a foot to the left.
pub open spec fn is_j(p: Piece) -> bool {
    &&& p.offsets@[0] == Coord(0, 2)
    &&& p.offsets@[1] == Coord(0, 1)
    &&& p.offsets@[2] == Coord(0, 0)
    &&& p.offsets@[3] == Coord(-1i8, 0)
    &&& p.color == Color(0, 0, 255)
    &&& p.rotation
}

/// The rightward zigzag.
pub open spec fn is_s(p: Piece) -> bool {
    &&& p.offsets@[0] == Coord(-1i8, 0)
    &&& p.offsets@[1] == Coord(0, 0)
    &&& p.offsets@[2] == Coord(0, 1)
    &&& p.offsets@[3] == Coord(1, 1)
    &&& p.color == Color(0, 255, 0)
    &&& p.rotation
}

/// The leftward zigzag.
pub open spec fn is_z(p: Piece) -> bool {
    &&& p.offsets@[0] == Coord(-1i8, 1)
    &&& p.offsets@[1] == Coord(0, 1)
    &&& p.offsets@[2] == Coord(0, 0)
    &&& p.offsets@[3] == Coord(1, 0)
    &&& p.color == Color(255, 0, 0)
    &&& p.rotation
}

/// The four-in-a-row.
pub open spec fn is_i(p: Piece) -> bool {
    &&& p.offsets@[0] == Coord(-1i8, 0)
    &&& p.offsets@[1] == Coord(0, 0)
    &&& p.offsets@[2] == Coord(1, 0)
    &&& p.offsets@[3] == Coord(2, 0)
    &&& p.color == Color(0, 255, 255)
    &&& p.rotation
}

/// The piece matches one of the seven canonical templates in shape, color
/// and rotation capability (its anchor is free).
pub open spec fn is_template_shape(p: Piece) -> bool {
    is_o(p) || is_t(p) || is_l(p) || is_j(p) || is_s(p) || is_z(p) || is_i(p)
}

pub fn o() -> (p: Piece)
    ensures
        is_o(p),
        p.coord == Coord(0, 0),
{
    Piece {
        offsets: [Coord(0, 0), Coord(0, 1), Coord(1, 0), Coord(1, 1)],
        color: yellow(),
        rotation: false,
        coord: Coord(0, 0),
    }
}

pub fn t() -> (p: Piece)
    ensures
        is_t(p),
        p.coord == Coord(0, 0),
{
    Piece {
        offsets: [Coord(-1, 0), Coord(0, 0), Coord(1, 0), Coord(0, 1)],
        color: purple(),
        rotation: true,
        coord: Coord(0, 0),
    }
}

pub fn l() -> (p: Piece)
    ensures
        is_l(p),
        p.coord == Coord(0, 0),
{
    Piece {
        offsets: [Coord(0, 2), Coord(0, 1), Coord(0, 0), Coord(1, 0)],
        color: orange(),
        rotation: true,
        coord: Coord(0, 0),
    }
}

pub fn j() -> (p: Piece)
    ensures
        is_j(p),
        p.coord == Coord(0, 0),
{
    Piece {
        offsets: [Coord(0, 2), Coord(0, 1), Coord(0, 0), Coord(-1, 0)],
        color: blue(),
        rotation: true,
        coord: Coord(0, 0),
    }
}

pub fn s() -> (p: Piece)
    ensures
        is_s(p),
        p.coord == Coord(0, 0),
{
    Piece {
        offsets: [Coord(-1, 0), Coord(0, 0), Coord(0, 1), Coord(1, 1)],
        color: green(),
        rotation: true,
        coord: Coord(0, 0),
    }
}

pub fn z() -> (p: Piece)
    ensures
        is_z(p),
        p.coord == Coord(0, 0),
{
    Piece {
        offsets: [Coord(-1, 1), Coord(0, 1), Coord(0, 0), Coord(1, 0)],
        color: red(),
        rotation: true,
        coord: Coord(0, 0),
    }
}

pub fn i() -> (p: Piece)
    ensures
        is_i(p),
        p.coord == Coord(0, 0),
{
    Piece {
        offsets: [Coord(-1, 0), Coord(0, 0), Coord(1, 0), Coord(2, 0)],
        color: cyan(),
        rotation: true,
        coord: Coord(0, 0),
    }
}

/// Relies on rand::random_range: returns a uniformly chosen value inside the
/// given range, and panics only when the range is empty.
#[verifier::external_body]
fn random_index(n: usize) -> (r: usize)
    requires
        n >= 1,
    ensures
        r < n,
{
    rand::random_range(0..n)
}

/// A new piece copied from a randomly chosen template, anchored at `coord`.
pub fn random_at(coord: Coord) -> (p: Piece)
    ensures
        is_template_shape(p),
        p.coord == coord,
{
    let preset = match random_index(7) {
        0 => o(),
        1 => t(),
        2 => l(),
        3 => j(),
        4 => s(),
        5 => z(),
        _ => i(),
    };
    Piece::from_preset(&preset, coord)
}

/// Any template shape whose anchor sits in the column range, no higher than
/// the insertion row and no lower than two rows under the floor, is a
/// well-formed piece.
pub proof fn lemma_template_shape_wf(p: Piece)
    requires
        is_template_shape(p),
        0 <= p.coord.0 < BOARD_WIDTH,
        -2 <= p.coord.1 <= INSERTION_POINT,
    ensures
        p.wf(),
{
    assert forall|k: int| 0 <= k < 4 implies -2 <= (#[trigger] p.offsets@[k]).0 <= 2 && -2
        <= p.offsets@[k].1 <= 2 by {
        assert(k == 0 || k == 1 || k == 2 || k == 3);
    }
    if is_o(p) {
        assert(p.offsets@[0].0 == 0 && p.offsets@[0].1 == 0);
    } else if is_t(p) || is_s(p) || is_i(p) {
        assert(p.offsets@[1].0 == 0 && p.offsets@[1].1 == 0);
    } else {
        assert(p.offsets@[2].0 == 0 && p.offsets@[2].1 == 0);
    }
}

} // verus!
