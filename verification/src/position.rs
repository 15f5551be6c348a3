use vstd::prelude::*;

verus! {

/// A buffer position: `x` is a column index counted in Unicode scalar
/// values, `y` is a row index. `y == document.len()` is the legal
/// "one past the last row" append slot.
#[derive(Clone, Copy, PartialEq, Eq, Structural, Debug)]
pub struct Position {
    pub x: usize,
    pub y: usize,
}

impl Position {
    /// The origin `(0, 0)`.
    pub fn origin() -> (p: Position)
        ensures
            p.x == 0,
            p.y == 0,
    {
        Position { x: 0, y: 0 }
    }
}

} // verus!
