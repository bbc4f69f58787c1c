use snake_core::cell::Cell;
use snake_core::direction::Direction;
use snake_core::engine::SimulationState;
use snake_core::food::generate_food;

fn cells(coords: &[(i32, i32)]) -> Vec<Cell> {
    let mut v = Vec::new();
    for &(x, y) in coords.iter() {
        v.push(Cell::new(x, y));
    }
    v
}

fn mid_state() -> SimulationState {
    SimulationState::from_parts(
        cells(&[(3, 5), (3, 6), (3, 7)]),
        Direction::Up,
        Cell::new(9, 9),
        0,
    )
    .expect("parts form a well-formed state")
}

#[test]
fn first_locked_intent_wins_the_tick() {
    // a reversal request locks the slot: the later cross-axis request is ignored
    let mut s = mid_state();
    s.submit_intent(Some(Direction::Down));
    assert_eq!(s.direction(), Direction::Up);
    assert!(s.direction_locked());
    s.submit_intent(Some(Direction::Left));
    assert_eq!(s.direction(), Direction::Up);
    assert!(s.direction_locked());
}

#[test]
fn second_intent_overrides_when_first_did_not_lock() {
    let mut s = mid_state();
    s.submit_intent(Some(Direction::Left));
    assert_eq!(s.direction(), Direction::Left);
    assert!(!s.direction_locked());
    s.submit_intent(Some(Direction::Down));
    assert_eq!(s.direction(), Direction::Down);
    assert!(!s.direction_locked());
}

#[test]
fn empty_intent_changes_nothing() {
    let mut s = mid_state();
    s.submit_intent(None);
    assert_eq!(s.direction(), Direction::Up);
    assert!(!s.direction_locked());
}

#[test]
fn tick_reopens_the_direction_slot() {
    let mut s = mid_state();
    s.submit_intent(Some(Direction::Up));
    assert!(s.direction_locked());
    s.tick(250);
    assert!(!s.direction_locked());
    s.submit_intent(Some(Direction::Left));
    assert_eq!(s.direction(), Direction::Left);
}

#[test]
fn intent_after_end_changes_nothing() {
    let mut s = SimulationState::from_parts(
        cells(&[(0, 5), (0, 6), (0, 7)]),
        Direction::Left,
        Cell::new(9, 9),
        0,
    )
    .expect("parts form a well-formed state");
    s.tick(250);
    assert!(s.has_ended());
    s.submit_intent(Some(Direction::Down));
    assert_eq!(s.direction(), Direction::Left);
}

#[test]
fn from_parts_rejects_bad_parts() {
    // empty body
    assert!(SimulationState::from_parts(Vec::new(), Direction::Up, Cell::new(1, 1), 0).is_none());
    // off-grid food
    assert!(
        SimulationState::from_parts(cells(&[(3, 5)]), Direction::Up, Cell::new(10, 0), 0)
            .is_none()
    );
    // food on the body
    assert!(
        SimulationState::from_parts(cells(&[(3, 5)]), Direction::Up, Cell::new(3, 5), 0)
            .is_none()
    );
    // off-grid body cell
    assert!(
        SimulationState::from_parts(cells(&[(3, 5), (3, -1)]), Direction::Up, Cell::new(1, 1), 0)
            .is_none()
    );
    // duplicate body cells
    assert!(
        SimulationState::from_parts(
            cells(&[(3, 5), (3, 6), (3, 5)]),
            Direction::Up,
            Cell::new(1, 1),
            0,
        )
        .is_none()
    );
}

#[test]
fn generate_food_avoids_the_body() {
    let body = cells(&[(0, 0), (0, 1), (0, 2), (1, 0), (1, 1)]);
    for _ in 0..50 {
        let food = generate_food(&body).expect("free cells remain");
        assert!(0 <= food.x && food.x < 10);
        assert!(0 <= food.y && food.y < 10);
        assert!(!body.contains(&food));
    }
}

#[test]
fn generate_food_on_full_grid_is_none() {
    let mut body = Vec::new();
    for x in 0..10 {
        for y in 0..10 {
            body.push(Cell::new(x, y));
        }
    }
    assert!(generate_food(&body).is_none());
}

#[test]
fn growing_onto_the_last_free_cell_ends_the_game() {
    // the body fills every cell but (0, 0); the head eats the food there
    let mut body = vec![Cell::new(0, 1)];
    for x in 0..10 {
        for y in 0..10 {
            let c = Cell::new(x, y);
            if c != Cell::new(0, 0) && c != Cell::new(0, 1) {
                body.push(c);
            }
        }
    }
    let before = body.clone();
    let mut s = SimulationState::from_parts(body, Direction::Up, Cell::new(0, 0), 0)
        .expect("parts form a well-formed state");
    s.tick(250);
    assert!(s.has_ended());
    assert_eq!(s.body_cells(), before);
    assert_eq!(s.food(), Cell::new(0, 0));
}
