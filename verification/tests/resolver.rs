use snake_core::direction::Direction;
use snake_core::direction::resolve;

const ALL: [Direction; 4] = [Direction::Up, Direction::Down, Direction::Left, Direction::Right];

fn reversal(d: Direction) -> Direction {
    match d {
        Direction::Up => Direction::Down,
        Direction::Down => Direction::Up,
        Direction::Left => Direction::Right,
        Direction::Right => Direction::Left,
    }
}

#[test]
fn resolve_rejects_reversal() {
    for &current in ALL.iter() {
        let (next, locked) = resolve(current, reversal(current));
        assert_eq!(next, current);
        assert!(locked);
    }
}

#[test]
fn resolve_same_direction_locks() {
    for &current in ALL.iter() {
        let (next, locked) = resolve(current, current);
        assert_eq!(next, current);
        assert!(locked);
    }
}

#[test]
fn resolve_accepts_cross_axis_turn() {
    assert_eq!(resolve(Direction::Up, Direction::Left), (Direction::Left, false));
    assert_eq!(resolve(Direction::Up, Direction::Right), (Direction::Right, false));
    assert_eq!(resolve(Direction::Left, Direction::Up), (Direction::Up, false));
    assert_eq!(resolve(Direction::Down, Direction::Right), (Direction::Right, false));
}

#[test]
fn resolve_never_returns_reversal() {
    for &current in ALL.iter() {
        for &requested in ALL.iter() {
            let (next, _) = resolve(current, requested);
            assert_ne!(next, reversal(current));
        }
    }
}
