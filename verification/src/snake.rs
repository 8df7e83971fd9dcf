//! The simulation instance and the per-tick movement and growth algorithm.
//!
//! One tick: read the head cell and the facing, advance one cell, demote and
//! age every pre-existing segment, spawn the new head with the current
//! length as its life, and on food consumption grow by boosting every
//! segment's life — the new head included — by one; finally retire every
//! expired segment. The growth boost covering the new head keeps the chain
//! from under-counting by one on every later growth.

use vstd::prelude::*;
use crate::chain::{Chain, Segment, lemma_filter_drops_tail, lemma_filter_keeps_all, live};
use crate::facing::FacingController;
use crate::grid::{Direction, GridPos, can_step, moved, step_position};
use crate::model::{SnakeModel, eats, step_model};
use crate::rng::rand_range_i32;

verus! {

/// Smallest coordinate food relocation may pick, on each axis.
pub const FOOD_MIN: i32 = -10;

/// Largest coordinate food relocation may pick, on each axis.
pub const FOOD_MAX: i32 = 10;

/// Whether a cell lies within the food placement bound.
pub open spec fn in_food_range(p: GridPos) -> bool {
    FOOD_MIN <= p.x <= FOOD_MAX && FOOD_MIN <= p.y <= FOOD_MAX
}

/// The whole simulation state: the chain of live segments, the facing
/// controller, the snake length counter, and the food cell. The trail is
/// the ghost record of every cell the head has occupied, most recent first.
pub struct Snake {
    pub chain: Chain,
    pub controller: FacingController,
    pub length: u32,
    pub food: GridPos,
    pub trail: Ghost<Seq<GridPos>>,
}

impl View for Snake {
    type V = SnakeModel;

    open spec fn view(&self) -> SnakeModel {
        SnakeModel {
            length: self.length as nat,
            facing: self.controller.facing,
            food: self.food,
            trail: self.trail@,
        }
    }
}

impl Snake {
    /// The cell the head occupies.
    pub open spec fn head_position(self) -> GridPos {
        self.chain.segments@[0].pos
    }

    /// Well-formedness: the chain holds exactly `length` segments, stored
    /// head first; the segment stored at `k` has ordinal `k`, `length - k`
    /// ticks of life left, and sits at the cell the head occupied `k` ticks
    /// ago.
    pub open spec fn wf(self) -> bool {
        &&& self.length >= 1
        &&& self.trail@.len() >= self.length as int
        &&& self.chain.segments@.len() == self.length as int
        &&& forall|k: int|
            0 <= k < self.length as int ==> (#[trigger] self.chain.segments@[k]).ordinal == k
        &&& forall|k: int|
            0 <= k < self.length as int ==> (#[trigger] self.chain.segments@[k]).life
                == self.length - k
        &&& forall|k: int|
            0 <= k < self.length as int ==> (#[trigger] self.chain.segments@[k]).pos
                == self.trail@[k]
    }

    /// Builds a snake occupying `positions` (head first), facing `facing`,
    /// with the food at `food`.
    pub fn new(positions: Vec<GridPos>, facing: Direction, food: GridPos) -> (s: Snake)
        requires
            1 <= positions@.len() <= u32::MAX,
        ensures
            s.wf(),
            s@.length == positions@.len(),
            s@.facing == facing,
            s@.food == food,
            s@.trail == positions@,
    {
        let n = positions.len();
        let mut chain = Chain::empty();
        let mut k: usize = 0;
        while k < n
            invariant
                k <= n,
                n == positions@.len(),
                n <= u32::MAX,
                chain.segments@.len() == k,
                forall|j: int| 0 <= j < k ==> (#[trigger] chain.segments@[j]).ordinal == j,
                forall|j: int| 0 <= j < k ==> (#[trigger] chain.segments@[j]).life == n - j,
                forall|j: int| 0 <= j < k ==> (#[trigger] chain.segments@[j]).pos == positions@[j],
            decreases n - k,
        {
            let seg = Segment { ordinal: k, life: (n - k) as u32, pos: positions[k] };
            chain.segments.push(seg);
            k = k + 1;
        }
        Snake {
            chain,
            controller: FacingController { facing },
            length: n as u32,
            food,
            trail: Ghost(positions@),
        }
    }

    /// Adopts the facing the controller's input pass left behind; nothing
    /// else of the state changes.
    pub fn set_facing(&mut self, d: Direction)
        ensures
            final(self)@ == (SnakeModel { facing: d, ..old(self)@ }),
            final(self).chain == old(self).chain,
            final(self).wf() == old(self).wf(),
    {
        self.controller.set_facing(d);
    }

    /// One tick of the movement and growth algorithm. `new_food` is the cell
    /// the food moves to if it is consumed this tick; otherwise it is
    /// ignored and the food stays put.
    pub fn step(&mut self, new_food: GridPos)
        requires
            old(self).wf(),
            old(self).length < u32::MAX,
            can_step(old(self).head_position(), old(self)@.facing),
        ensures
            final(self).wf(),
            final(self)@ == step_model(old(self)@, new_food),
            final(self).head_position() == moved(old(self).head_position(), old(self)@.facing),
            final(self).length == old(self).length + (if eats(old(self)@) {
                1int
            } else {
                0int
            }),
    {
        let head_pos = self.chain.segments[0].pos;
        let next = step_position(head_pos, self.controller.facing);
        let ate = next == self.food;
        self.chain.demote_all();
        self.chain.age_all();
        self.chain.spawn_head(next, self.length);
        self.trail = Ghost(self.trail@.insert(0, next));
        if ate {
            self.length = self.length + 1;
            self.chain.boost_all(1);
            self.food = new_food;
        }
        proof {
            let oldlen = old(self).length as int;
            let segs = self.chain.segments@;
            assert(segs.len() == oldlen + 1);
            assert(segs[0].ordinal == 0 && segs[0].pos == next);
            assert(forall|k: int|
                1 <= k < segs.len() ==> (#[trigger] segs[k]).ordinal == k && segs[k].pos == old(
                    self,
                ).chain.segments@[k - 1].pos);
            if ate {
                assert(segs[0].life == oldlen + 1);
                assert(forall|k: int|
                    1 <= k < segs.len() ==> (#[trigger] segs[k]).life == oldlen + 1 - k);
                assert(forall|i: int| 0 <= i < segs.len() ==> live(#[trigger] segs[i]));
                lemma_filter_keeps_all(segs);
            } else {
                assert(segs[0].life == oldlen);
                assert(forall|k: int|
                    1 <= k < segs.len() ==> (#[trigger] segs[k]).life == oldlen - k);
                assert(!live(segs.last()));
                assert(forall|i: int| 0 <= i < segs.len() - 1 ==> live(#[trigger] segs[i]));
                lemma_filter_drops_tail(segs);
            }
        }
        self.chain.retire_expired();
        proof {
            assert(final(self)@.trail =~= step_model(old(self)@, new_food).trail);
            assert(final(self)@ =~= step_model(old(self)@, new_food));
        }
    }

    /// One tick with the food relocated by the injected generator: on
    /// consumption the food moves to a cell drawn within the placement
    /// bound, with no guarantee the cell is unoccupied by the body.
    pub fn step_random(&mut self, rng: &mut fastrand::Rng)
        requires
            old(self).wf(),
            old(self).length < u32::MAX,
            can_step(old(self).head_position(), old(self)@.facing),
        ensures
            final(self).wf(),
            eats(old(self)@) ==> exists|nf: GridPos|
                in_food_range(nf) && final(self)@ == #[trigger] step_model(old(self)@, nf),
            eats(old(self)@) ==> in_food_range(final(self)@.food),
            !eats(old(self)@) ==> final(self)@ == step_model(old(self)@, old(self)@.food),
    {
        let head_pos = self.chain.segments[0].pos;
        let next = step_position(head_pos, self.controller.facing);
        let will_eat = next == self.food;
        let new_food = if will_eat {
            let fx = rand_range_i32(rng, FOOD_MIN, FOOD_MAX);
            let fy = rand_range_i32(rng, FOOD_MIN, FOOD_MAX);
            GridPos { x: fx, y: fy }
        } else {
            self.food
        };
        self.step(new_food);
        proof {
            if eats(old(self)@) {
                assert(in_food_range(new_food) && final(self)@ == step_model(
                    old(self)@,
                    new_food,
                ));
            }
        }
    }

    /// The cells of all live segments, head first: the render output.
    pub fn positions(&self) -> (v: Vec<GridPos>)
        ensures
            v@.len() == self.chain.segments@.len(),
            forall|k: int| 0 <= k < v@.len() ==> v@[k] == self.chain.segments@[k].pos,
    {
        let n = self.chain.segments.len();
        let mut v: Vec<GridPos> = Vec::new();
        let mut i: usize = 0;
        while i < n
            invariant
                i <= n,
                n == self.chain.segments@.len(),
                v@.len() == i,
                forall|k: int| 0 <= k < i ==> v@[k] == self.chain.segments@[k].pos,
            decreases n - i,
        {
            v.push(self.chain.segments[i].pos);
            i = i + 1;
        }
        v
    }
}

/// Whether some live segment of `s` carries the ordinal `j`.
pub open spec fn some_segment_has_ordinal(s: Snake, j: int) -> bool {
    exists|k: int|
        0 <= k < s.chain.segments@.len() && (#[trigger] s.chain.segments@[k]).ordinal == j
}

/// Contiguity: the live segments' ordinal indices form exactly the range
/// `{0, 1, ..., length - 1}` — every ordinal is below the length, every
/// value below the length is some segment's ordinal, and no two segments
/// share one.
pub proof fn lemma_ordinals_contiguous(s: Snake)
    requires
        s.wf(),
    ensures
        forall|k: int|
            0 <= k < s.chain.segments@.len() ==> 0 <= (#[trigger] s.chain.segments@[k]).ordinal
                < s.length,
        forall|j: int| 0 <= j < s.length as int ==> #[trigger] some_segment_has_ordinal(s, j),
        forall|k1: int, k2: int|
            #![trigger s.chain.segments@[k1], s.chain.segments@[k2]]
            0 <= k1 < s.chain.segments@.len() && 0 <= k2 < s.chain.segments@.len() && k1 != k2
                ==> s.chain.segments@[k1].ordinal != s.chain.segments@[k2].ordinal,
{
    assert forall|j: int| 0 <= j < s.length as int implies #[trigger] some_segment_has_ordinal(
        s,
        j,
    ) by {
        assert(s.chain.segments@[j].ordinal == j);
    }
}

/// Single head: exactly one live segment has ordinal 0 — the one stored
/// first.
pub proof fn lemma_single_head(s: Snake)
    requires
        s.wf(),
    ensures
        s.chain.segments@.len() >= 1,
        s.chain.segments@[0].ordinal == 0,
        forall|k: int|
            1 <= k < s.chain.segments@.len() ==> (#[trigger] s.chain.segments@[k]).ordinal != 0,
{
}

/// Trailing path: the segment of ordinal `k` sits at the cell the head
/// occupied `k` ticks ago — entry `k` of the trail, which every tick
/// extends at the front with the new head cell.
pub proof fn lemma_trailing_path(s: Snake)
    requires
        s.wf(),
    ensures
        forall|k: int|
            0 <= k < s.chain.segments@.len() ==> (#[trigger] s.chain.segments@[k]).pos
                == s@.trail[k] && s.chain.segments@[k].ordinal == k,
{
}

} // verus!
