//! Engine for a falling-block puzzle game.
//!
//! The engine owns the grid model, the movable-piece model, the collision and
//! placement rules, and the row-clearing algorithm. Rendering, window handling
//! and input decoding are left to an external driver, which talks to the
//! engine only through the public methods here.

pub mod board;
pub mod color;
pub mod coord;
pub mod game;
pub mod input;
pub mod piece;
pub mod template;
