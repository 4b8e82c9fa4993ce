//! The keyboard keys that the two app windows react to.

use vstd::prelude::*;

verus! {

/// A pressed key, as far as the app windows tell keys apart: the digit keys
/// carry their digit, and every key that no window uses is `Other`.
#[derive(Debug, Clone, Copy, PartialEq, Eq, Structural)]
pub enum Key {
    Space,
    Enter,
    Escape,
    ArrowLeft,
    ArrowRight,
    ArrowUp,
    ArrowDown,
    Backspace,
    Delete,
    P,
    R,
    Digit(u8),
    Other,
}

/// What a key press in a window does: run a command, close the window, or
/// nothing.
#[derive(Debug, Clone, Copy, PartialEq, Eq, Structural)]
pub enum KeyOutcome<C> {
    Run(C),
    Quit,
    Ignore,
}

} // verus!
