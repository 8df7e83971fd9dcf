use snake_engine::grid::{Direction, GridPos};
use snake_engine::snake::{Snake, FOOD_MAX, FOOD_MIN};

fn pos(x: i32, y: i32) -> GridPos {
    GridPos { x, y }
}

#[test]
fn boundary_scenario() {
    // Length 3 at (0,0), (-1,0), (-2,0), facing Right, food out of the path.
    let start = vec![pos(0, 0), pos(-1, 0), pos(-2, 0)];
    let mut s = Snake::new(start, Direction::Right, pos(10, 10));
    s.step(pos(0, 0));
    let cells = s.positions();
    assert_eq!(s.length, 3);
    assert_eq!(cells.len(), 3);
    assert_eq!(cells[0], pos(1, 0));
    assert_eq!(cells[1], pos(0, 0));
    assert_eq!(cells[2], pos(-1, 0));
    // The old tail cell fell off.
    assert!(!cells.contains(&pos(-2, 0)));
    assert_eq!(s.food, pos(10, 10));
}

#[test]
fn food_consumption_scenario() {
    // Length 1 at (9,10), facing Right, food at (10,10): the head moves onto
    // the food, the snake grows to 2, nothing retires, and the food moves to
    // a cell within the configured bound.
    let mut rng = fastrand::Rng::with_seed(7);
    let mut s = Snake::new(vec![pos(9, 10)], Direction::Right, pos(10, 10));
    s.step_random(&mut rng);
    let cells = s.positions();
    assert_eq!(s.length, 2);
    assert_eq!(cells.len(), 2);
    assert_eq!(cells[0], pos(10, 10));
    assert_eq!(cells[1], pos(9, 10));
    assert!(FOOD_MIN <= s.food.x && s.food.x <= FOOD_MAX);
    assert!(FOOD_MIN <= s.food.y && s.food.y <= FOOD_MAX);
}

#[test]
fn growth_keeps_every_segment() {
    // Two consecutive consumptions: each grows the length by exactly one and
    // keeps every segment alive, including the tick right after a growth.
    let mut s = Snake::new(vec![pos(0, 0)], Direction::Right, pos(1, 0));
    s.step(pos(2, 0));
    assert_eq!(s.length, 2);
    assert_eq!(s.positions(), vec![pos(1, 0), pos(0, 0)]);
    assert_eq!(s.food, pos(2, 0));
    s.step(pos(10, 10));
    assert_eq!(s.length, 3);
    assert_eq!(s.positions(), vec![pos(2, 0), pos(1, 0), pos(0, 0)]);
    // No food on the path now: the length stays put and the tail sheds.
    s.step(pos(0, 0));
    assert_eq!(s.length, 3);
    assert_eq!(s.positions(), vec![pos(3, 0), pos(2, 0), pos(1, 0)]);
    s.step(pos(0, 0));
    assert_eq!(s.length, 3);
    assert_eq!(s.positions(), vec![pos(4, 0), pos(3, 0), pos(2, 0)]);
}

#[test]
fn turning_follows_the_head() {
    let mut s = Snake::new(vec![pos(0, 0), pos(-1, 0), pos(-2, 0)], Direction::Right, pos(10, 10));
    s.set_facing(Direction::Up);
    s.step(pos(0, 0));
    assert_eq!(s.positions(), vec![pos(0, 1), pos(0, 0), pos(-1, 0)]);
    s.set_facing(Direction::Left);
    s.step(pos(0, 0));
    assert_eq!(s.positions(), vec![pos(-1, 1), pos(0, 1), pos(0, 0)]);
}

#[test]
fn contiguity_single_head_and_trailing_path() {
    // Across growth and plain movement: ordinals are exactly 0..length-1
    // with a single head, and segment k sits where the head was k ticks ago.
    let mut s = Snake::new(vec![pos(0, 0)], Direction::Right, pos(1, 0));
    let mut heads = vec![pos(0, 0)]; // head cells, most recent first
    let script = [
        (Direction::Right, pos(2, 1)), // eats at (1,0)
        (Direction::Right, pos(9, 9)),
        (Direction::Up, pos(2, 2)),    // eats at (2,1)
        (Direction::Up, pos(9, 9)),    // eats at (2,2)
        (Direction::Left, pos(9, 9)),
        (Direction::Down, pos(9, 9)),
    ];
    for (f, nf) in script {
        s.set_facing(f);
        s.step(nf);
        let head = s.positions()[0];
        heads.insert(0, head);
        let segs = &s.chain.segments;
        assert_eq!(segs.len() as u32, s.length);
        for (k, seg) in segs.iter().enumerate() {
            assert_eq!(seg.ordinal, k);
            assert_eq!(seg.pos, heads[k]);
            assert_eq!(seg.life as usize, segs.len() - k);
        }
        assert_eq!(segs.iter().filter(|seg| seg.ordinal == 0).count(), 1);
    }
    assert_eq!(s.length, 4);
}

#[test]
fn round_trip_same_seed() {
    // Replaying the same facings with the same relocation seed from the same
    // initial state reproduces the identical position sequence.
    let facings = [
        Direction::Right,
        Direction::Up,
        Direction::Right,
        Direction::Right,
        Direction::Down,
        Direction::Right,
        Direction::Up,
        Direction::Up,
    ];
    let mut runs: Vec<Vec<(Vec<GridPos>, GridPos)>> = Vec::new();
    for _ in 0..2 {
        let mut rng = fastrand::Rng::with_seed(0x5eed);
        let mut s = Snake::new(vec![pos(9, 10)], Direction::Right, pos(10, 10));
        let mut trace: Vec<(Vec<GridPos>, GridPos)> = Vec::new();
        for f in facings {
            s.set_facing(f);
            s.step_random(&mut rng);
            trace.push((s.positions(), s.food));
        }
        runs.push(trace);
    }
    assert_eq!(runs[0], runs[1]);
}
