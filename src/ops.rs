//! Operation codes decoded from the keyboard, and the browser's modes.
use vstd::prelude::*;

verus! {

/// File browser operation code.
#[derive(PartialEq, Eq, Structural, Clone, Copy, Debug)]
pub enum Op {
    Noop,
    Up,
    Down,
    Left,
    Right,
    Exit,
    ExitCursorO,
    ExitCursorEnter,
    Quit,
    Top,
    Bottom,
    Search,
    RevSearch,
    NextMatch,
    PrevMatch,
    PageUp,
    PageDown,
}

/// What keystrokes mean: navigation, or editing a forward or a backward search.
#[derive(PartialEq, Eq, Structural, Clone, Copy, Debug)]
pub enum Mode {
    Normal,
    Search,
    RevSearch,
}

impl Mode {
    pub open spec fn is_search(self) -> bool {
        self == Mode::Search || self == Mode::RevSearch
    }
}

} // verus!
