use vstd::prelude::*;

verus! {

/// One abstract keypress as the terminal adapter reports it. `Other`
/// stands for any key the editor does not bind.
#[derive(Clone, Copy, PartialEq, Eq, Structural)]
pub enum Key {
    Char(char),
    Ctrl(char),
    Up,
    Down,
    Left,
    Right,
    PageUp,
    PageDown,
    Home,
    End,
    Backspace,
    Delete,
    Other,
}

/// The terminal viewport's size in cells.
#[derive(Clone, Copy, PartialEq, Eq, Structural)]
pub struct Size {
    pub width: u16,
    pub height: u16,
}

} // verus!
