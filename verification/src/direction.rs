//! Direction of travel and the resolver that validates requested turns.

use vstd::prelude::*;

verus! {

/// One of the four headings the snake can take on the grid.
#[derive(Clone, Copy, Debug, PartialEq, Eq, Structural)]
pub enum Direction {
    Up,
    Down,
    Left,
    Right,
}

/// The heading directly opposite to `d` (its 180-degree reversal).
pub open spec fn opposite(d: Direction) -> Direction {
    match d {
        Direction::Up => Direction::Down,
        Direction::Down => Direction::Up,
        Direction::Left => Direction::Right,
        Direction::Right => Direction::Left,
    }
}

/// Whether `b` lies on the same axis as `a`: `b` is `a` itself or its
/// reversal. A request on the current axis is rejected and locks the
/// direction slot for the rest of the tick.
pub open spec fn same_axis(a: Direction, b: Direction) -> bool {
    b == a || b == opposite(a)
}

/// What resolving `requested` against `current` yields: the next heading and
/// whether the direction slot is now locked for this tick. A same-axis
/// request (reversal, or the current heading itself) keeps `current` and
/// locks; any other request becomes the new heading without locking.
pub open spec fn resolve_spec(current: Direction, requested: Direction) -> (Direction, bool) {
    if same_axis(current, requested) {
        (current, true)
    } else {
        (requested, false)
    }
}

impl Direction {
    /// The 180-degree reversal of `self`.
    pub fn reversal(self) -> (r: Direction)
        ensures
            r == opposite(self),
    {
        match self {
            Direction::Up => Direction::Down,
            Direction::Down => Direction::Up,
            Direction::Left => Direction::Right,
            Direction::Right => Direction::Left,
        }
    }
}

/// Validate a requested turn against the current heading. The returned
/// heading is never the reversal of `current`: a same-axis request leaves
/// the heading unchanged and reports the slot locked.
pub fn resolve(current: Direction, requested: Direction) -> (r: (Direction, bool))
    ensures
        r == resolve_spec(current, requested),
        r.0 != opposite(current),
{
    if requested == current || requested == current.reversal() {
        (current, true)
    } else {
        (requested, false)
    }
}

/// No resolved heading is ever the 180-degree opposite of the heading it was
/// resolved against, whatever was requested.
pub proof fn lemma_resolve_never_reverses(current: Direction, requested: Direction)
    ensures
        resolve_spec(current, requested).0 != opposite(current),
{
}

} // verus!
