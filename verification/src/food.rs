//! Food placement: picking a free cell of the grid, preferring a random one.

use vstd::prelude::*;
use crate::cell::Cell;
use crate::cell::GRID_SIZE;
use crate::cell::cells_contain;
use crate::cell::in_grid;

verus! {

/// How many random draws are attempted before the grid is scanned instead.
/// Bounding the rejection sampling keeps food placement from spinning when
/// free cells are scarce.
pub const FOOD_SAMPLE_TRIES: u32 = 64;

/// Relies on rand::random: draws a value from the thread-local generator.
/// Nothing is promised about which value comes back.
#[verifier::external_body]
fn random_u32() -> u32 {
    rand::random::<u32>()
}

/// A cell drawn at random from the grid.
fn random_cell() -> (r: Cell)
    ensures
        in_grid(r),
{
    let rx = random_u32();
    let ry = random_u32();
    let x: i32 = (rx % (GRID_SIZE as u32)) as i32;
    let y: i32 = (ry % (GRID_SIZE as u32)) as i32;
    Cell::new(x, y)
}

/// Pick a food cell: on the grid and on no cell of `body`. A bounded number
/// of random draws is rejection-sampled first; if every draw lands on the
/// body, the whole grid is scanned, so the result is `None` exactly when
/// `body` covers every grid cell.
pub fn generate_food(body: &Vec<Cell>) -> (r: Option<Cell>)
    ensures
        r is Some ==> in_grid(r->0) && !body@.contains(r->0),
        r is None ==> forall|c: Cell| in_grid(c) ==> body@.contains(c),
        (r is Some) <==> exists|c: Cell| in_grid(c) && !body@.contains(c),
{
    let mut tries: u32 = 0;
    while tries < FOOD_SAMPLE_TRIES
        invariant
            tries <= FOOD_SAMPLE_TRIES,
        decreases FOOD_SAMPLE_TRIES - tries,
    {
        let f = random_cell();
        if !cells_contain(body, f) {
            return Some(f);
        }
        tries = tries + 1;
    }
    let mut x: i32 = 0;
    while x < GRID_SIZE
        invariant
            0 <= x <= GRID_SIZE,
            forall|c: Cell| in_grid(c) && c.x < x ==> body@.contains(c),
        decreases GRID_SIZE - x,
    {
        let mut y: i32 = 0;
        while y < GRID_SIZE
            invariant
                0 <= x < GRID_SIZE,
                0 <= y <= GRID_SIZE,
                forall|c: Cell| in_grid(c) && c.x < x ==> body@.contains(c),
                forall|c: Cell| in_grid(c) && c.x == x && c.y < y ==> body@.contains(c),
            decreases GRID_SIZE - y,
        {
            let f = Cell::new(x, y);
            if !cells_contain(body, f) {
                proof {
                    assert(in_grid(f) && !body@.contains(f));
                }
                return Some(f);
            }
            y = y + 1;
        }
        x = x + 1;
    }
    None
}

} // verus!
