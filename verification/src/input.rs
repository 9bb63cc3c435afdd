//! Decoded keyboard keys, as the display layer's raw key codes map to them.

use vstd::prelude::*;

verus! {

/// The keys the game reacts to.
#[derive(Debug, Copy, Clone, PartialEq, Eq, Structural)]
pub enum Key {
    ArrowRight,
    ArrowLeft,
    ArrowUp,
    ArrowDown,
    NumPad0,
}

/// Which key, if any, a raw key code denotes.
pub open spec fn key_of(code: int) -> Option<Key> {
    if code == 114 {
        Some(Key::ArrowRight)
    } else if code == 113 {
        Some(Key::ArrowLeft)
    } else if code == 111 {
        Some(Key::ArrowUp)
    } else if code == 116 {
        Some(Key::ArrowDown)
    } else if code == 90 {
        Some(Key::NumPad0)
    } else {
        None
    }
}

impl Key {
    /// Decode a raw key code; codes outside the handled set yield `None`.
    pub fn from(other: i32) -> (r: Option<Key>)
        ensures
            r == key_of(other as int),
    {
        match other {
            114 => Some(Key::ArrowRight),
            113 => Some(Key::ArrowLeft),
            111 => Some(Key::ArrowUp),
            116 => Some(Key::ArrowDown),
            90 => Some(Key::NumPad0),
            _ => None,
        }
    }
}

} // verus!
