//! RGB colors for rendering. Colors are cosmetic: they carry no simulation
//! behavior and merely tag a piece (and the cells it locks into) for the
//! drawing layer.

use vstd::prelude::*;

verus! {

/// An RGB triple `(red, green, blue)`.
#[derive(Debug, Copy, Clone, PartialEq, Eq, Structural)]
pub struct Color(pub u8, pub u8, pub u8);

/// The fixed palette: one color per tetromino family.
pub fn yellow() -> (c: Color)
    ensures
        c == Color(255, 255, 0),
{
    Color(255, 255, 0)
}

pub fn green() -> (c: Color)
    ensures
        c == Color(0, 255, 0),
{
    Color(0, 255, 0)
}

pub fn cyan() -> (c: Color)
    ensures
        c == Color(0, 255, 255),
{
    Color(0, 255, 255)
}

pub fn blue() -> (c: Color)
    ensures
        c == Color(0, 0, 255),
{
    Color(0, 0, 255)
}

pub fn purple() -> (c: Color)
    ensures
        c == Color(127, 0, 255),
{
    Color(127, 0, 255)
}

pub fn red() -> (c: Color)
    ensures
        c == Color(255, 0, 0),
{
    Color(255, 0, 0)
}

pub fn orange() -> (c: Color)
    ensures
        c == Color(255, 127, 0),
{
    Color(255, 127, 0)
}

} // verus!
