//! The simulation engine: owns the snake's state and advances it one grid
//! step per elapsed tick interval.

use vstd::prelude::*;
use crate::cell::Cell;
use crate::cell::cells_contain;
use crate::cell::in_grid;
use crate::direction::Direction;
use crate::direction::resolve;
use crate::direction::resolve_spec;
use crate::direction::same_axis;
use crate::food::generate_food;

verus! {

/// Milliseconds that must elapse before a tick advances the simulation.
pub const TICK_INTERVAL_MS: u64 = 250;

/// Mathematical model of the engine state; the contracts of the engine's
/// operations are stated over this view.
#[verifier::ext_equal]
pub struct StateModel {
    /// Snake cells in movement order, head first.
    pub body: Seq<Cell>,
    /// Current heading.
    pub direction: Direction,
    /// The one food cell.
    pub food: Cell,
    /// Timestamp (ms) of the last tick that advanced the simulation.
    pub last_update: u64,
    /// Whether the simulation has reached its absorbing terminal state.
    pub has_ended: bool,
    /// Whether this tick's direction decision is already locked in.
    pub direction_changed: bool,
}

/// The cell one grid step from `c` in direction `d`.
pub open spec fn moved(c: Cell, d: Direction) -> Cell {
    match d {
        Direction::Up => Cell { x: c.x, y: (c.y - 1) as i32 },
        Direction::Down => Cell { x: c.x, y: (c.y + 1) as i32 },
        Direction::Left => Cell { x: (c.x - 1) as i32, y: c.y },
        Direction::Right => Cell { x: (c.x + 1) as i32, y: c.y },
    }
}

/// The body after one step in direction `d` without growth: the head takes
/// one step and every other cell takes its predecessor's prior position.
pub open spec fn shifted_body(b: Seq<Cell>, d: Direction) -> Seq<Cell> {
    Seq::new(b.len(), |i: int| if i == 0 { moved(b[0], d) } else { b[i - 1] })
}

/// The body after one step in direction `d` with growth: the shifted body
/// with a new tail cell at the position the old tail vacated.
pub open spec fn grown_body(b: Seq<Cell>, d: Direction) -> Seq<Cell> {
    shifted_body(b, d).push(b[b.len() - 1])
}

/// Whether the head occupies the same cell as some other body cell.
pub open spec fn hits_self(b: Seq<Cell>) -> bool {
    exists|i: int| 1 <= i < b.len() && #[trigger] b[i] == b[0]
}

/// Whether `b` occupies every cell of the grid, leaving no room for food.
pub open spec fn covers_grid(b: Seq<Cell>) -> bool {
    forall|c: Cell| in_grid(c) ==> b.contains(c)
}

/// Well-formedness of an engine state: a non-empty body of pairwise distinct
/// on-grid cells, and on-grid food that coincides with no body cell.
pub open spec fn state_wf(m: StateModel) -> bool {
    &&& m.body.len() >= 1
    &&& forall|i: int| 0 <= i < m.body.len() ==> in_grid(#[trigger] m.body[i])
    &&& forall|i: int, j: int| 0 <= i < j < m.body.len() ==> m.body[i] != m.body[j]
    &&& in_grid(m.food)
    &&& !m.body.contains(m.food)
}

/// Whether a tick at time `now` advances the simulation: the terminal state
/// is absorbing, and a step fires only once the interval has elapsed.
pub open spec fn tick_fires(m: StateModel, now: u64) -> bool {
    !m.has_ended && now >= m.last_update + TICK_INTERVAL_MS
}

/// Whether the step taken from `m` lands the head on the food.
pub open spec fn eats(m: StateModel) -> bool {
    moved(m.body[0], m.direction) == m.food
}

/// The body a step from `m` produces before the termination checks: grown
/// if it eats, shifted otherwise.
pub open spec fn next_body(m: StateModel) -> Seq<Cell> {
    if eats(m) {
        grown_body(m.body, m.direction)
    } else {
        shifted_body(m.body, m.direction)
    }
}

/// Whether the step taken from `m` kills the snake: the head leaves the
/// grid or lands on another body cell.
pub open spec fn step_dies(m: StateModel) -> bool {
    !in_grid(next_body(m)[0]) || hits_self(next_body(m))
}

/// Whether the step taken from `m` terminates the simulation: the snake
/// dies, or it grows to cover the whole grid so no food cell is left.
pub open spec fn step_ends(m: StateModel) -> bool {
    step_dies(m) || (eats(m) && covers_grid(next_body(m)))
}

/// What submitting `intent` does to the state: nothing once ended or once
/// this tick's direction is locked; otherwise the resolved heading is
/// written back and a rejected (same-axis) request locks the slot.
pub open spec fn submit_spec(m: StateModel, intent: Option<Direction>) -> StateModel {
    if m.has_ended || m.direction_changed {
        m
    } else {
        match intent {
            None => m,
            Some(d) => StateModel {
                direction: resolve_spec(m.direction, d).0,
                direction_changed: resolve_spec(m.direction, d).1,
                ..m
            },
        }
    }
}

/// The model a state built from explicit parts would have.
pub open spec fn parts_model(
    body: Seq<Cell>,
    direction: Direction,
    food: Cell,
    last_update: u64,
) -> StateModel {
    StateModel { body, direction, food, last_update, has_ended: false, direction_changed: false }
}

/// The engine state: the sole mutable state of the simulation, mutated only
/// through `submit_intent` and `tick`.
pub struct SimulationState {
    body: Vec<Cell>,
    direction: Direction,
    food: Cell,
    last_update: u64,
    has_ended: bool,
    direction_changed: bool,
}

impl View for SimulationState {
    type V = StateModel;

    closed spec fn view(&self) -> StateModel {
        StateModel {
            body: self.body@,
            direction: self.direction,
            food: self.food,
            last_update: self.last_update,
            has_ended: self.has_ended,
            direction_changed: self.direction_changed,
        }
    }
}

impl SimulationState {
    /// Well-formedness of this state; established by the constructors and
    /// preserved by every operation.
    pub open spec fn wf(&self) -> bool {
        state_wf(self@)
    }

    /// Start a simulation at time `now`: the fixed three-cell initial body
    /// heading up, not ended, with freshly generated food on a free cell.
    pub fn new(now: u64) -> (r: SimulationState)
        ensures
            r.wf(),
            r@.body == seq![
                (Cell { x: 3, y: 5 }),
                (Cell { x: 3, y: 6 }),
                (Cell { x: 3, y: 7 }),
            ],
            r@.direction == Direction::Up,
            r@.last_update == now,
            !r@.has_ended,
            !r@.direction_changed,
    {
        let mut body: Vec<Cell> = Vec::new();
        body.push(Cell::new(3, 5));
        body.push(Cell::new(3, 6));
        body.push(Cell::new(3, 7));
        proof {
            assert(body@ =~= seq![
                (Cell { x: 3, y: 5 }),
                (Cell { x: 3, y: 6 }),
                (Cell { x: 3, y: 7 }),
            ]);
        }
        let food = match generate_food(&body) {
            Some(f) => f,
            None => {
                proof {
                    assert(in_grid(Cell { x: 0, y: 0 }));
                    assert(body@[0] != (Cell { x: 0, y: 0 }));
                    assert(body@[1] != (Cell { x: 0, y: 0 }));
                    assert(body@[2] != (Cell { x: 0, y: 0 }));
                    assert(false);
                }
                Cell::new(0, 0)
            },
        };
        SimulationState {
            body,
            direction: Direction::Up,
            food,
            last_update: now,
            has_ended: false,
            direction_changed: false,
        }
    }

    /// Build a state from explicit parts, for hosts that stage a particular
    /// configuration. Succeeds exactly when the parts are well formed: a
    /// non-empty body of distinct on-grid cells, and on-grid food on none
    /// of them. The built state has not ended and has no direction locked.
    pub fn from_parts(
        body: Vec<Cell>,
        direction: Direction,
        food: Cell,
        last_update: u64,
    ) -> (r: Option<SimulationState>)
        ensures
            (r is Some) <==> state_wf(parts_model(body@, direction, food, last_update)),
            r is Some ==> (r->0)@ == parts_model(body@, direction, food, last_update),
    {
        if body.len() == 0 {
            return None;
        }
        if !food.on_grid() {
            return None;
        }
        if cells_contain(&body, food) {
            return None;
        }
        let mut i: usize = 0;
        while i < body.len()
            invariant
                i <= body@.len(),
                forall|k: int| 0 <= k < i ==> in_grid(#[trigger] body@[k]),
            decreases body@.len() - i,
        {
            if !body[i].on_grid() {
                return None;
            }
            i = i + 1;
        }
        let mut a: usize = 0;
        while a < body.len()
            invariant
                a <= body@.len(),
                forall|p: int, q: int| 0 <= p < q < body@.len() && p < a ==> body@[p] != body@[q],
            decreases body@.len() - a,
        {
            let mut b: usize = a + 1;
            while b < body.len()
                invariant
                    a < b <= body@.len(),
                    forall|p: int, q: int|
                        0 <= p < q < body@.len() && p < a ==> body@[p] != body@[q],
                    forall|q: int| a < q < b ==> body@[a as int] != body@[q],
                decreases body@.len() - b,
            {
                if body[b] == body[a] {
                    return None;
                }
                b = b + 1;
            }
            a = a + 1;
        }
        Some(SimulationState {
            body,
            direction,
            food,
            last_update,
            has_ended: false,
            direction_changed: false,
        })
    }

    /// The snake's cells in movement order, head first.
    pub fn body_cells(&self) -> (r: Vec<Cell>)
        ensures
            r@ == self@.body,
    {
        let mut r: Vec<Cell> = Vec::new();
        let mut i: usize = 0;
        while i < self.body.len()
            invariant
                i <= self@.body.len(),
                r@ =~= self@.body.take(i as int),
            decreases self@.body.len() - i,
        {
            r.push(self.body[i]);
            i = i + 1;
        }
        proof {
            assert(r@ =~= self@.body);
        }
        r
    }

    /// The current food cell.
    pub fn food(&self) -> (r: Cell)
        ensures
            r == self@.food,
    {
        self.food
    }

    /// The current heading.
    pub fn direction(&self) -> (r: Direction)
        ensures
            r == self@.direction,
    {
        self.direction
    }

    /// Whether the simulation has reached its terminal state.
    pub fn has_ended(&self) -> (r: bool)
        ensures
            r == self@.has_ended,
    {
        self.has_ended
    }

    /// The timestamp of the last tick that advanced the simulation.
    pub fn last_update(&self) -> (r: u64)
        ensures
            r == self@.last_update,
    {
        self.last_update
    }

    /// Whether this tick's direction decision is already locked in.
    pub fn direction_locked(&self) -> (r: bool)
        ensures
            r == self@.direction_changed,
    {
        self.direction_changed
    }

    /// Feed one frame's directional intent (or none) to the engine. A no-op
    /// once the simulation has ended or once this tick's direction is
    /// locked; otherwise the resolver's verdict is written back, and a
    /// same-axis request locks the direction for the rest of the tick.
    pub fn submit_intent(&mut self, intent: Option<Direction>)
        ensures
            final(self)@ == submit_spec(old(self)@, intent),
    {
        if self.has_ended || self.direction_changed {
            return;
        }
        match intent {
            None => {},
            Some(d) => {
                let (nd, locked) = resolve(self.direction, d);
                self.direction = nd;
                self.direction_changed = locked;
            },
        }
    }

    /// Advance the simulation at time `now`. A no-op once ended, and until
    /// the tick interval has elapsed. A firing tick moves the body one step
    /// (growing it onto the vacated tail cell when the head lands on the
    /// food, and then regenerating the food on a free cell), ends the
    /// simulation if the head leaves the grid, lands on another body cell,
    /// or the grown body leaves no free cell for food, commits the stepped
    /// body only when the simulation did not end, and always records `now`
    /// and reopens the direction slot.
    pub fn tick(&mut self, now: u64)
        requires
            old(self).wf(),
        ensures
            final(self).wf(),
            old(self)@.has_ended ==> final(self)@ == old(self)@,
            !tick_fires(old(self)@, now) ==> final(self)@ == old(self)@,
            tick_fires(old(self)@, now) ==> final(self)@.direction == old(self)@.direction,
            tick_fires(old(self)@, now) ==> !final(self)@.direction_changed,
            tick_fires(old(self)@, now) ==> final(self)@.last_update == now,
            tick_fires(old(self)@, now) ==> final(self)@.has_ended == step_ends(old(self)@),
            tick_fires(old(self)@, now) && step_ends(old(self)@) ==> final(self)@.body
                == old(self)@.body,
            tick_fires(old(self)@, now) && !step_ends(old(self)@) ==> final(self)@.body
                == next_body(old(self)@),
            tick_fires(old(self)@, now) && eats(old(self)@)
                && !covers_grid(next_body(old(self)@))
                ==> in_grid(final(self)@.food)
                    && !next_body(old(self)@).contains(final(self)@.food),
            tick_fires(old(self)@, now) && eats(old(self)@)
                && covers_grid(next_body(old(self)@))
                ==> final(self)@.food == old(self)@.food,
            tick_fires(old(self)@, now) && !eats(old(self)@)
                ==> final(self)@.food == old(self)@.food,
            tick_fires(old(self)@, now) && !final(self)@.has_ended ==> final(self)@.body[0]
                == moved(old(self)@.body[0], old(self)@.direction),
            final(self)@.body.len() >= old(self)@.body.len(),
            (final(self)@.body.len() == old(self)@.body.len() + 1)
                <==> (tick_fires(old(self)@, now) && eats(old(self)@)
                    && !final(self)@.has_ended),
            !(tick_fires(old(self)@, now) && eats(old(self)@) && !final(self)@.has_ended)
                ==> final(self)@.body.len() == old(self)@.body.len(),
            !final(self)@.body.contains(final(self)@.food),
    {
        if self.has_ended {
            return;
        }
        if now < self.last_update || now - self.last_update < TICK_INTERVAL_MS {
            return;
        }
        let ghost pre = self@;
        let d = self.direction;
        let n = self.body.len();
        let head = self.body[0];
        let new_head = match d {
            Direction::Up => Cell::new(head.x, head.y - 1),
            Direction::Down => Cell::new(head.x, head.y + 1),
            Direction::Left => Cell::new(head.x - 1, head.y),
            Direction::Right => Cell::new(head.x + 1, head.y),
        };
        proof {
            assert(new_head == moved(pre.body[0], pre.direction));
        }
        let mut next: Vec<Cell> = Vec::new();
        next.push(new_head);
        let mut i: usize = 1;
        while i < n
            invariant
                1 <= i <= n,
                n == self.body@.len(),
                next@.len() == i,
                next@[0] == new_head,
                forall|k: int| 1 <= k < i ==> next@[k] == self.body@[k - 1],
            decreases n - i,
        {
            let c = self.body[i - 1];
            next.push(c);
            i = i + 1;
        }
        proof {
            assert(next@ =~= shifted_body(pre.body, pre.direction));
        }
        let ate = next[0] == self.food;
        if ate {
            let tail = self.body[n - 1];
            next.push(tail);
            proof {
                assert(next@ =~= grown_body(pre.body, pre.direction));
            }
        }
        proof {
            assert(ate == eats(pre));
            assert(next@ == next_body(pre));
            assert(forall|k: int| 1 <= k < next@.len() ==> next@[k] == pre.body[k - 1]);
        }
        let mut ended = !new_head.on_grid();
        let m = next.len();
        let mut j: usize = 1;
        while j < m
            invariant
                1 <= j <= m,
                m == next@.len(),
                next@[0] == new_head,
                ended == (!in_grid(next@[0]) || exists|k: int|
                    1 <= k < j && #[trigger] next@[k] == next@[0]),
            decreases m - j,
        {
            if next[j] == new_head {
                ended = true;
            }
            j = j + 1;
        }
        proof {
            assert(ended == step_dies(pre));
        }
        if ate {
            match generate_food(&next) {
                Some(f) => {
                    self.food = f;
                    proof {
                        assert(!covers_grid(next@));
                    }
                },
                None => {
                    ended = true;
                    proof {
                        assert(covers_grid(next@));
                    }
                },
            }
        }
        proof {
            assert(ended == step_ends(pre));
        }
        if !ended {
            proof {
                lemma_stepped_body_wf(pre, next@);
                if !eats(pre) {
                    assert(forall|k: int|
                        0 <= k < next@.len() ==> #[trigger] next@[k] != pre.food);
                    assert(!next@.contains(pre.food));
                }
            }
            self.body = next;
        } else {
            proof {
                if eats(pre) && !covers_grid(next_body(pre)) {
                    assert(forall|k: int|
                        0 <= k < pre.body.len() ==> #[trigger] pre.body[k] == next@[k + 1]);
                    assert(forall|k: int|
                        0 <= k < pre.body.len() ==> #[trigger] pre.body[k] != self@.food);
                    assert(!pre.body.contains(self@.food));
                }
            }
        }
        self.has_ended = ended;
        self.last_update = now;
        self.direction_changed = false;
    }
}

/// Two intents submitted within one tick: if the resolver locks on the
/// first (a same-axis request), the first call decides and the heading
/// stays as it was, whatever comes second; otherwise, a second request that
/// the new heading does not reject overrides the first.
pub proof fn lemma_second_intent_overrides_unless_locked(
    m: StateModel,
    d1: Direction,
    d2: Direction,
)
    requires
        !m.has_ended,
        !m.direction_changed,
    ensures
        same_axis(m.direction, d1) ==> submit_spec(
            submit_spec(m, Some(d1)),
            Some(d2),
        ).direction == m.direction,
        same_axis(m.direction, d1) ==> submit_spec(
            submit_spec(m, Some(d1)),
            Some(d2),
        ).direction_changed,
        !same_axis(m.direction, d1) && !same_axis(d1, d2) ==> submit_spec(
            submit_spec(m, Some(d1)),
            Some(d2),
        ).direction == d2,
{
}

/// A stepped body that neither left the grid nor hit itself is well formed
/// alongside any food cell off it: non-empty, on the grid, and pairwise
/// distinct.
proof fn lemma_stepped_body_wf(pre: StateModel, nb: Seq<Cell>)
    requires
        state_wf(pre),
        nb == next_body(pre),
        in_grid(nb[0]),
        !hits_self(nb),
    ensures
        nb.len() >= 1,
        forall|i: int| 0 <= i < nb.len() ==> in_grid(#[trigger] nb[i]),
        forall|i: int, j: int| 0 <= i < j < nb.len() ==> nb[i] != nb[j],
{
    assert(forall|k: int| 1 <= k < nb.len() ==> #[trigger] nb[k] == pre.body[k - 1]);
    assert(forall|i: int| 0 <= i < nb.len() ==> in_grid(#[trigger] nb[i]));
    assert forall|i: int, j: int| 0 <= i < j < nb.len() implies nb[i] != nb[j] by {
        if i == 0 {
            assert(!(1 <= j < nb.len() && nb[j] == nb[0]));
        } else {
            if eats(pre) && j == nb.len() - 1 && pre.body.len() >= 2 {
                assert(pre.body[i - 1] != pre.body[j - 1]);
            }
            assert(nb[i] == pre.body[i - 1]);
            assert(nb[j] == pre.body[j - 1]);
        }
    }
}

} // verus!
