//! Two-dimensional integer vectors, the positional primitive of the engine.

use vstd::prelude::*;
use vstd::std_specs::ops::AddSpec;

verus! {

/// A 2D integer vector `(x, y)`. `x` grows rightwards, `y` grows upwards.
///
/// The one-byte signed range is ample headroom for a 10x20 board; the
/// contexts that consume coordinates (board bounds, piece offsets) restrict
/// the range further.
#[derive(Debug, Copy, Clone, PartialEq, Eq, Structural)]
pub struct Coord(pub i8, pub i8);

impl core::ops::Add for Coord {
    type Output = Coord;

    fn add(self, rhs: Coord) -> Coord {
        Coord(self.0 + rhs.0, self.1 + rhs.1)
    }
}

impl vstd::std_specs::ops::AddSpecImpl for Coord {
    open spec fn obeys_add_spec() -> bool {
        true
    }

    open spec fn add_req(self, rhs: Coord) -> bool {
        i8::MIN <= self.0 + rhs.0 <= i8::MAX && i8::MIN <= self.1 + rhs.1 <= i8::MAX
    }

    open spec fn add_spec(self, rhs: Coord) -> Coord {
        Coord((self.0 + rhs.0) as i8, (self.1 + rhs.1) as i8)
    }
}

impl core::ops::Add<Coord> for &Coord {
    type Output = Coord;

    fn add(self, rhs: Coord) -> Coord {
        Coord(self.0 + rhs.0, self.1 + rhs.1)
    }
}

impl vstd::std_specs::ops::AddSpecImpl<Coord> for &Coord {
    open spec fn obeys_add_spec() -> bool {
        true
    }

    open spec fn add_req(self, rhs: Coord) -> bool {
        i8::MIN <= self.0 + rhs.0 <= i8::MAX && i8::MIN <= self.1 + rhs.1 <= i8::MAX
    }

    open spec fn add_spec(self, rhs: Coord) -> Coord {
        Coord((self.0 + rhs.0) as i8, (self.1 + rhs.1) as i8)
    }
}

impl core::cmp::PartialEq<Coord> for &Coord {
    fn eq(&self, rhs: &Coord) -> (r: bool) {
        self.0 == rhs.0 && self.1 == rhs.1
    }
}

impl vstd::std_specs::cmp::PartialEqSpecImpl<Coord> for &Coord {
    open spec fn obeys_eq_spec() -> bool {
        true
    }

    open spec fn eq_spec(&self, rhs: &Coord) -> bool {
        self.0 == rhs.0 && self.1 == rhs.1
    }
}

impl Coord {
    /// In-place variant of addition.
    pub fn add_assign(&mut self, rhs: Coord)
        requires
            i8::MIN <= old(self).0 + rhs.0 <= i8::MAX,
            i8::MIN <= old(self).1 + rhs.1 <= i8::MAX,
        ensures
            final(self).0 == old(self).0 + rhs.0,
            final(self).1 == old(self).1 + rhs.1,
    {
        self.0 = self.0 + rhs.0;
        self.1 = self.1 + rhs.1;
    }

    /// Quarter turn clockwise about the origin: `(x, y)` becomes `(y, -x)`.
    pub fn turn_right(&self) -> (r: Coord)
        requires
            self.0 != i8::MIN,
        ensures
            r.0 == self.1,
            r.1 == -self.0,
    {
        Coord(self.1, -self.0)
    }

    /// Quarter turn counterclockwise about the origin: `(x, y)` becomes `(-y, x)`.
    pub fn turn_left(&self) -> (r: Coord)
        requires
            self.1 != i8::MIN,
        ensures
            r.0 == -self.1,
            r.1 == self.0,
    {
        Coord(-self.1, self.0)
    }
}

/// Coordinate addition is componentwise: adding `(a, b)` and `(c, d)` yields
/// `(a + c, b + d)` whenever the sums stay in range.
pub proof fn lemma_add_componentwise(a: i8, b: i8, c: i8, d: i8)
    requires
        i8::MIN <= a + c <= i8::MAX,
        i8::MIN <= b + d <= i8::MAX,
    ensures
        Coord(a, b).add_spec(Coord(c, d)) == Coord((a + c) as i8, (b + d) as i8),
{
}

} // verus!
