use snake_engine::chain::{Chain, Segment};
use snake_engine::facing::FacingController;
use snake_engine::grid::{step_position, Direction, GridPos};
use snake_engine::timer::{TickTimer, DEFAULT_TICK_MS};

fn pos(x: i32, y: i32) -> GridPos {
    GridPos { x, y }
}

#[test]
fn direction_priority_up_over_right() {
    let mut c = FacingController::new();
    assert_eq!(c.facing, Direction::Right);
    c.apply_inputs(true, false, false, true);
    assert_eq!(c.facing, Direction::Up);
}

#[test]
fn direction_priority_order() {
    let mut c = FacingController::new();
    c.apply_inputs(false, true, true, true);
    assert_eq!(c.facing, Direction::Left);
    c.apply_inputs(false, false, true, true);
    assert_eq!(c.facing, Direction::Down);
    c.apply_inputs(false, false, false, true);
    assert_eq!(c.facing, Direction::Right);
    c.apply_inputs(true, true, true, true);
    assert_eq!(c.facing, Direction::Up);
}

#[test]
fn no_input_keeps_facing() {
    let mut c = FacingController::new();
    c.set_facing(Direction::Down);
    c.apply_inputs(false, false, false, false);
    assert_eq!(c.facing, Direction::Down);
}

#[test]
fn timer_fires_exactly_at_interval() {
    let mut t = TickTimer::new(DEFAULT_TICK_MS);
    assert!(!t.advance(499));
    assert_eq!(t.elapsed_ms, 499);
    assert!(t.advance(1));
    assert_eq!(t.elapsed_ms, 0);
}

#[test]
fn timer_rolls_over_remainder() {
    let mut t = TickTimer::new(500);
    assert!(t.advance(740));
    assert_eq!(t.elapsed_ms, 240);
}

#[test]
fn timer_fires_once_for_multiple_intervals() {
    // 1700 ms spans three whole intervals, yet only one step fires and the
    // accumulator keeps only the remainder: no backlog catch-up.
    let mut t = TickTimer::new(500);
    assert!(t.advance(1700));
    assert_eq!(t.elapsed_ms, 200);
    assert!(!t.advance(299));
    assert!(t.advance(1));
}

#[test]
fn step_position_moves_one_cell() {
    let p = pos(3, -4);
    assert_eq!(step_position(p, Direction::Up), pos(3, -3));
    assert_eq!(step_position(p, Direction::Down), pos(3, -5));
    assert_eq!(step_position(p, Direction::Left), pos(2, -4));
    assert_eq!(step_position(p, Direction::Right), pos(4, -4));
}

#[test]
fn chain_bookkeeping_cycle() {
    // One tick's worth of chain operations, spelled out by hand.
    let mut c = Chain::empty();
    c.spawn_head(pos(0, 0), 2);
    c.demote_all();
    c.age_all();
    c.spawn_head(pos(1, 0), 2);
    assert_eq!(c.segments.len(), 2);
    assert_eq!(c.segments[0], Segment { ordinal: 0, life: 2, pos: pos(1, 0) });
    assert_eq!(c.segments[1], Segment { ordinal: 1, life: 1, pos: pos(0, 0) });
    c.boost_all(1);
    assert_eq!(c.segments[0].life, 3);
    assert_eq!(c.segments[1].life, 2);
}

#[test]
fn chain_retire_removes_expired_only() {
    let mut c = Chain::empty();
    c.spawn_head(pos(0, 0), 1);
    c.demote_all();
    c.age_all();
    c.spawn_head(pos(1, 0), 1);
    // The old segment's life reached zero; only the fresh head survives.
    c.retire_expired();
    assert_eq!(c.segments.len(), 1);
    assert_eq!(c.segments[0], Segment { ordinal: 0, life: 1, pos: pos(1, 0) });
}
