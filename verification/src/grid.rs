//! Grid coordinates and facing directions.
//!
//! A position is a pair of integer cell coordinates; a facing is one of the
//! four axis directions. Moving offsets a position by exactly one cell:
//! Up is `y + 1`, Down is `y - 1`, Left is `x - 1`, Right is `x + 1`.

use vstd::prelude::*;

verus! {

/// A facing direction for the snake's head.
#[derive(Copy, Clone, PartialEq, Eq, Structural, Debug)]
pub enum Direction {
    Up,
    Down,
    Left,
    Right,
}

/// An integer grid cell, in cell (not pixel) coordinates.
#[derive(Copy, Clone, PartialEq, Eq, Structural, Debug)]
pub struct GridPos {
    pub x: i32,
    pub y: i32,
}

/// The horizontal displacement of one move in direction `d`.
pub open spec fn offset_x(d: Direction) -> int {
    match d {
        Direction::Left => -1,
        Direction::Right => 1,
        _ => 0,
    }
}

/// The vertical displacement of one move in direction `d`.
pub open spec fn offset_y(d: Direction) -> int {
    match d {
        Direction::Up => 1,
        Direction::Down => -1,
        _ => 0,
    }
}

/// Whether one move from `p` in direction `d` stays within the machine
/// representation of coordinates.
pub open spec fn can_step(p: GridPos, d: Direction) -> bool {
    &&& i32::MIN <= p.x + offset_x(d) <= i32::MAX
    &&& i32::MIN <= p.y + offset_y(d) <= i32::MAX
}

/// The cell one move from `p` in direction `d`.
pub open spec fn moved(p: GridPos, d: Direction) -> GridPos {
    GridPos { x: (p.x + offset_x(d)) as i32, y: (p.y + offset_y(d)) as i32 }
}

/// Computes the cell one move from `p` in direction `d`.
pub fn step_position(p: GridPos, d: Direction) -> (r: GridPos)
    requires
        can_step(p, d),
    ensures
        r == moved(p, d),
        r.x == p.x + offset_x(d),
        r.y == p.y + offset_y(d),
{
    match d {
        Direction::Up => GridPos { x: p.x, y: p.y + 1 },
        Direction::Down => GridPos { x: p.x, y: p.y - 1 },
        Direction::Left => GridPos { x: p.x - 1, y: p.y },
        Direction::Right => GridPos { x: p.x + 1, y: p.y },
    }
}

} // verus!
