//! The mathematical model of the simulation state.
//!
//! A snake state is abstracted by its length, the head's facing, the food
//! cell, and the trail: the sequence of every cell the head has occupied,
//! most recent first. The live segments are fully determined by the model:
//! the segment of ordinal `k` sits at `trail[k]`, the cell the head occupied
//! `k` ticks ago, with `length - k` ticks of life left.

use vstd::prelude::*;
use crate::grid::{Direction, GridPos, moved};

verus! {

/// The abstract state of the simulation.
#[verifier::ext_equal]
pub struct SnakeModel {
    /// Number of live segments; the ground truth for how long each survives.
    pub length: nat,
    /// The head's current facing.
    pub facing: Direction,
    /// The food cell.
    pub food: GridPos,
    /// Every cell the head has occupied, most recent first. The first
    /// `length` entries are the cells of the live segments.
    pub trail: Seq<GridPos>,
}

/// A model in which the head and trail are present at all.
pub open spec fn model_inv(m: SnakeModel) -> bool {
    &&& m.length >= 1
    &&& m.trail.len() >= m.length
}

/// Whether the next move lands the head on the food cell.
pub open spec fn eats(m: SnakeModel) -> bool {
    moved(m.trail[0], m.facing) == m.food
}

/// One tick of the movement and growth algorithm: the head advances one
/// cell in its facing; on food consumption the length grows by one and the
/// food moves to `new_food`; otherwise the tail cell falls off (its segment
/// expires) and the food stays put.
pub open spec fn step_model(m: SnakeModel, new_food: GridPos) -> SnakeModel {
    SnakeModel {
        length: if eats(m) {
            m.length + 1
        } else {
            m.length
        },
        facing: m.facing,
        food: if eats(m) {
            new_food
        } else {
            m.food
        },
        trail: m.trail.insert(0, moved(m.trail[0], m.facing)),
    }
}

/// The per-tick inputs the engine consumes: the facing the input pass left
/// behind, and the cell the food moves to if it is consumed this tick.
pub struct TickInput {
    pub facing: Direction,
    pub new_food: GridPos,
}

/// Replays a sequence of tick inputs from `m`: each tick first adopts the
/// recorded facing, then runs one step of the movement and growth algorithm.
pub open spec fn replay(m: SnakeModel, inputs: Seq<TickInput>) -> SnakeModel
    decreases inputs.len(),
{
    if inputs.len() == 0 {
        m
    } else {
        replay(
            step_model(SnakeModel { facing: inputs[0].facing, ..m }, inputs[0].new_food),
            inputs.drop_first(),
        )
    }
}

/// Replaying the same deterministic sequence of facings and food relocations
/// from the same initial state reproduces the identical state — in
/// particular the identical segment-position sequence, since the segment
/// cells are exactly the first `length` entries of the trail.
pub proof fn lemma_replay_deterministic(
    m1: SnakeModel,
    m2: SnakeModel,
    inputs1: Seq<TickInput>,
    inputs2: Seq<TickInput>,
)
    requires
        m1 == m2,
        inputs1 == inputs2,
    ensures
        replay(m1, inputs1) == replay(m2, inputs2),
        replay(m1, inputs1).trail == replay(m2, inputs2).trail,
{
}

/// A tick never rewrites history: replaying any input sequence adds one
/// trail entry per tick at the front and leaves every earlier entry in
/// place. Entry `k` of the trail therefore stays, for good, the cell the
/// head occupied `k` ticks before the latest one.
pub proof fn lemma_replay_preserves_trail(m: SnakeModel, inputs: Seq<TickInput>)
    ensures
        replay(m, inputs).trail.len() == m.trail.len() + inputs.len(),
        forall|k: int|
            0 <= k < m.trail.len() ==> replay(m, inputs).trail[inputs.len() + k] == m.trail[k],
    decreases inputs.len(),
{
    if inputs.len() > 0 {
        let m1 = step_model(SnakeModel { facing: inputs[0].facing, ..m }, inputs[0].new_food);
        lemma_replay_preserves_trail(m1, inputs.drop_first());
        assert(m1.trail.len() == m.trail.len() + 1);
        assert forall|k: int| 0 <= k < m.trail.len() implies replay(m, inputs).trail[inputs.len()
            + k] == m.trail[k] by {
            assert(m1.trail[k + 1] == m.trail[k]);
            assert(replay(m, inputs).trail[inputs.drop_first().len() + (k + 1)] == m1.trail[k + 1]);
        }
    }
}

/// Consuming food grows the snake by exactly one segment and retires none:
/// the length rises by exactly one, every segment alive before the tick is
/// still alive after it (one ordinal deeper), and the new head is live too.
pub proof fn lemma_growth_adds_one(m: SnakeModel, new_food: GridPos)
    requires
        model_inv(m),
        eats(m),
    ensures
        step_model(m, new_food).length == m.length + 1,
        forall|k: int|
            0 <= k < m.length ==> step_model(m, new_food).trail[k + 1] == m.trail[k],
        step_model(m, new_food).trail[0] == moved(m.trail[0], m.facing),
        model_inv(step_model(m, new_food)),
{
}

} // verus!
