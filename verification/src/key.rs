//! The keyboard protocol the core consumes: discrete logical key events.
//! Decoding raw terminal escape sequences into these is the surrounding
//! binary's business.

use vstd::prelude::*;

verus! {

/// One logical key event.
#[derive(Debug, PartialEq, Eq, Structural, Clone, Copy)]
pub enum Key {
    Char(char),
    Enter,
    Esc,
    Backspace,
    Tab,
    Left,
    Right,
    Up,
    Down,
    Home,
    End,
}

} // verus!
