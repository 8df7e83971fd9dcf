//! The facing controller: holds the head's facing, last write wins.
//!
//! Directional inputs overwrite the facing unconditionally. When several
//! directions are asserted in the same frame, a fixed priority decides:
//! Up before Left before Down before Right.

use vstd::prelude::*;
use crate::grid::Direction;

verus! {

/// Holds the facing the movement algorithm reads once per tick.
pub struct FacingController {
    pub facing: Direction,
}

/// The facing that a frame's inputs leave behind: the asserted direction of
/// highest priority (Up, then Left, then Down, then Right), or the current
/// facing when none is asserted.
pub open spec fn resolved_facing(
    up: bool,
    left: bool,
    down: bool,
    right: bool,
    current: Direction,
) -> Direction {
    if up {
        Direction::Up
    } else if left {
        Direction::Left
    } else if down {
        Direction::Down
    } else if right {
        Direction::Right
    } else {
        current
    }
}

impl FacingController {
    /// A fresh controller; the initial facing is Right.
    pub fn new() -> (c: FacingController)
        ensures
            c.facing == Direction::Right,
    {
        FacingController { facing: Direction::Right }
    }

    /// Overwrites the facing unconditionally.
    pub fn set_facing(&mut self, d: Direction)
        ensures
            final(self).facing == d,
    {
        self.facing = d;
    }

    /// Consumes one frame of directional inputs: the asserted direction of
    /// highest priority wins; no input leaves the facing unchanged.
    pub fn apply_inputs(&mut self, up: bool, left: bool, down: bool, right: bool)
        ensures
            final(self).facing == resolved_facing(up, left, down, right, old(self).facing),
    {
        if up {
            self.facing = Direction::Up;
        } else if left {
            self.facing = Direction::Left;
        } else if down {
            self.facing = Direction::Down;
        } else if right {
            self.facing = Direction::Right;
        }
    }
}

/// When Up and Right are asserted in the same frame, Up wins, whatever else
/// is asserted alongside them and whatever the facing was before.
pub proof fn lemma_up_beats_right(left: bool, down: bool, current: Direction)
    ensures
        resolved_facing(true, left, down, true, current) == Direction::Up,
{
}

} // verus!
