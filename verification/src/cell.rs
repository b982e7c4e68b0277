//! The unit of state of the lattice.

use vstd::prelude::*;

verus! {

/// One position of the lattice: whether it is alive, and where it sits.
///
/// Within a grid the coordinates are fixed by the position; only `alive`
/// changes from one generation to the next.
#[derive(Clone, Copy, Debug, PartialEq, Eq, Structural)]
pub struct Cell {
    pub alive: bool,
    pub x: i32,
    pub y: i32,
}

impl Cell {
    /// A cell at `(x, y)` in the given state.
    pub fn new(x: i32, y: i32, alive: bool) -> (cell: Cell)
        ensures
            cell == (Cell { alive, x, y }),
    {
        Cell { alive, x, y }
    }
}

} // verus!
