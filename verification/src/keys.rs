//! Key presses, as the screens tell them apart.

use vstd::prelude::*;

verus! {

/// A key press, as the screens distinguish them.
#[derive(Debug, Clone, Copy, PartialEq, Eq, Structural)]
pub enum Key {
    Esc,
    Enter,
    Up,
    Down,
    Left,
    Right,
    Tab,
    BackTab,
    Backspace,
    Delete,
    Char(char),
    Other,
}

} // verus!
