//! Grid cells: integer coordinates on the fixed playing field.

use vstd::prelude::*;

verus! {

/// Side length of the square playing field; coordinates run over
/// `0 .. GRID_SIZE` on each axis.
pub const GRID_SIZE: i32 = 10;

/// One grid coordinate pair. A value type: equality is coordinate equality.
#[derive(Clone, Copy, Debug, PartialEq, Eq, Structural)]
pub struct Cell {
    pub x: i32,
    pub y: i32,
}

/// Whether `c` lies on the playing field.
pub open spec fn in_grid(c: Cell) -> bool {
    0 <= c.x < GRID_SIZE && 0 <= c.y < GRID_SIZE
}

impl Cell {
    /// Build a cell from its coordinates.
    pub fn new(x: i32, y: i32) -> (r: Cell)
        ensures
            r == (Cell { x, y }),
    {
        Cell { x, y }
    }

    /// Whether `self` lies on the playing field.
    pub fn on_grid(&self) -> (r: bool)
        ensures
            r == in_grid(*self),
    {
        0 <= self.x && self.x < GRID_SIZE && 0 <= self.y && self.y < GRID_SIZE
    }
}

/// Whether some cell of `cells` has the coordinates of `c`.
pub fn cells_contain(cells: &Vec<Cell>, c: Cell) -> (r: bool)
    ensures
        r == cells@.contains(c),
{
    let mut i: usize = 0;
    while i < cells.len()
        invariant
            0 <= i <= cells@.len(),
            forall|j: int| 0 <= j < i ==> cells@[j] != c,
        decreases cells@.len() - i,
    {
        if cells[i] == c {
            return true;
        }
        i = i + 1;
    }
    false
}

} // verus!
