//! The segment chain: the set of live body segments and the bookkeeping
//! operations the tick update composes.
//!
//! A segment records its `ordinal` (0 is the head, larger values lie toward
//! the tail), its remaining `life` in ticks, and its cell `pos`. Segments are
//! stored head first; the tick update keeps the stored order equal to the
//! ordinal order.

use vstd::prelude::*;
use crate::grid::GridPos;

verus! {

/// One grid-occupying unit of the snake body.
#[derive(Copy, Clone, PartialEq, Eq, Structural, Debug)]
pub struct Segment {
    /// Distance from the head, in segments; 0 is the head itself.
    pub ordinal: usize,
    /// Remaining ticks before this segment retires.
    pub life: u32,
    /// The cell this segment occupies.
    pub pos: GridPos,
}

/// Whether a segment still has life left; retirement removes the others.
pub open spec fn live(seg: Segment) -> bool {
    seg.life > 0
}

/// The full set of live segments, exclusively owned by the simulation.
pub struct Chain {
    pub segments: Vec<Segment>,
}

impl Chain {
    /// An empty chain, before any segment is spawned.
    pub fn empty() -> (c: Chain)
        ensures
            c.segments@.len() == 0,
    {
        Chain { segments: Vec::new() }
    }

    /// Inserts a new head: ordinal 0, the given remaining life, at `pos`.
    pub fn spawn_head(&mut self, pos: GridPos, life: u32)
        ensures
            final(self).segments@ == old(self).segments@.insert(
                0,
                Segment { ordinal: 0, life: life, pos: pos },
            ),
    {
        self.segments.insert(0, Segment { ordinal: 0, life: life, pos: pos });
    }

    /// Increments every existing segment's ordinal by one (the old head
    /// becomes an ordinary body segment).
    pub fn demote_all(&mut self)
        requires
            forall|i: int|
                0 <= i < old(self).segments@.len() ==> (#[trigger] old(
                    self,
                ).segments@[i]).ordinal < usize::MAX,
        ensures
            final(self).segments@.len() == old(self).segments@.len(),
            forall|i: int|
                0 <= i < old(self).segments@.len() ==> {
                    &&& (#[trigger] final(self).segments@[i]).ordinal == old(
                        self,
                    ).segments@[i].ordinal + 1
                    &&& final(self).segments@[i].life == old(self).segments@[i].life
                    &&& final(self).segments@[i].pos == old(self).segments@[i].pos
                },
    {
        let n = self.segments.len();
        let mut i: usize = 0;
        while i < n
            invariant
                i <= n,
                n == self.segments@.len(),
                n == old(self).segments@.len(),
                forall|j: int|
                    0 <= j < n ==> (#[trigger] old(self).segments@[j]).ordinal < usize::MAX,
                forall|j: int| i <= j < n ==> self.segments@[j] == old(self).segments@[j],
                forall|j: int|
                    0 <= j < i ==> {
                        &&& (#[trigger] self.segments@[j]).ordinal == old(
                            self,
                        ).segments@[j].ordinal + 1
                        &&& self.segments@[j].life == old(self).segments@[j].life
                        &&& self.segments@[j].pos == old(self).segments@[j].pos
                    },
            decreases n - i,
        {
            let mut seg = self.segments[i];
            seg.ordinal = seg.ordinal + 1;
            self.segments.set(i, seg);
            i = i + 1;
        }
    }

    /// Decrements every segment's remaining life by one tick.
    pub fn age_all(&mut self)
        requires
            forall|i: int|
                0 <= i < old(self).segments@.len() ==> (#[trigger] old(
                    self,
                ).segments@[i]).life >= 1,
        ensures
            final(self).segments@.len() == old(self).segments@.len(),
            forall|i: int|
                0 <= i < old(self).segments@.len() ==> {
                    &&& (#[trigger] final(self).segments@[i]).life == old(
                        self,
                    ).segments@[i].life - 1
                    &&& final(self).segments@[i].ordinal == old(self).segments@[i].ordinal
                    &&& final(self).segments@[i].pos == old(self).segments@[i].pos
                },
    {
        let n = self.segments.len();
        let mut i: usize = 0;
        while i < n
            invariant
                i <= n,
                n == self.segments@.len(),
                n == old(self).segments@.len(),
                forall|j: int| 0 <= j < n ==> (#[trigger] old(self).segments@[j]).life >= 1,
                forall|j: int| i <= j < n ==> self.segments@[j] == old(self).segments@[j],
                forall|j: int|
                    0 <= j < i ==> {
                        &&& (#[trigger] self.segments@[j]).life == old(self).segments@[j].life - 1
                        &&& self.segments@[j].ordinal == old(self).segments@[j].ordinal
                        &&& self.segments@[j].pos == old(self).segments@[j].pos
                    },
            decreases n - i,
        {
            let mut seg = self.segments[i];
            seg.life = seg.life - 1;
            self.segments.set(i, seg);
            i = i + 1;
        }
    }

    /// Increases every segment's remaining life by `n` ticks (the growth
    /// boost applied when food is consumed).
    pub fn boost_all(&mut self, n: u32)
        requires
            forall|i: int|
                0 <= i < old(self).segments@.len() ==> (#[trigger] old(self).segments@[i]).life + n
                    <= u32::MAX,
        ensures
            final(self).segments@.len() == old(self).segments@.len(),
            forall|i: int|
                0 <= i < old(self).segments@.len() ==> {
                    &&& (#[trigger] final(self).segments@[i]).life == old(
                        self,
                    ).segments@[i].life + n
                    &&& final(self).segments@[i].ordinal == old(self).segments@[i].ordinal
                    &&& final(self).segments@[i].pos == old(self).segments@[i].pos
                },
    {
        let count = self.segments.len();
        let mut i: usize = 0;
        while i < count
            invariant
                i <= count,
                count == self.segments@.len(),
                count == old(self).segments@.len(),
                forall|j: int|
                    0 <= j < count ==> (#[trigger] old(self).segments@[j]).life + n <= u32::MAX,
                forall|j: int| i <= j < count ==> self.segments@[j] == old(self).segments@[j],
                forall|j: int|
                    0 <= j < i ==> {
                        &&& (#[trigger] self.segments@[j]).life == old(self).segments@[j].life + n
                        &&& self.segments@[j].ordinal == old(self).segments@[j].ordinal
                        &&& self.segments@[j].pos == old(self).segments@[j].pos
                    },
            decreases count - i,
        {
            let mut seg = self.segments[i];
            seg.life = seg.life + n;
            self.segments.set(i, seg);
            i = i + 1;
        }
    }

    /// Removes every segment whose remaining life has reached zero, keeping
    /// the survivors in their stored order.
    pub fn retire_expired(&mut self)
        ensures
            final(self).segments@ == old(self).segments@.filter(|seg: Segment| live(seg)),
    {
        let n = self.segments.len();
        let mut kept: Vec<Segment> = Vec::new();
        let mut i: usize = 0;
        while i < n
            invariant
                i <= n,
                n == self.segments@.len(),
                self.segments@ == old(self).segments@,
                kept@ == self.segments@.take(i as int).filter(|seg: Segment| live(seg)),
            decreases n - i,
        {
            let seg = self.segments[i];
            if seg.life > 0 {
                kept.push(seg);
            }
            proof {
                reveal(Seq::filter);
                assert(self.segments@.take(i + 1 as int).drop_last() =~= self.segments@.take(
                    i as int,
                ));
                assert(self.segments@.take(i + 1 as int).last() == self.segments@[i as int]);
            }
            i = i + 1;
        }
        proof {
            assert(self.segments@.take(n as int) =~= self.segments@);
        }
        self.segments = kept;
    }
}

/// A sequence in which every segment is live filters to itself.
pub proof fn lemma_filter_keeps_all(s: Seq<Segment>)
    requires
        forall|i: int| 0 <= i < s.len() ==> live(#[trigger] s[i]),
    ensures
        s.filter(|seg: Segment| live(seg)) == s,
    decreases s.len(),
{
    reveal(Seq::filter);
    if s.len() == 0 {
        assert(s.filter(|seg: Segment| live(seg)) =~= s);
    } else {
        lemma_filter_keeps_all(s.drop_last());
        assert(s.filter(|seg: Segment| live(seg)) =~= s);
    }
}

/// A sequence whose last segment is expired and whose other segments are all
/// live filters to everything but that last segment.
pub proof fn lemma_filter_drops_tail(s: Seq<Segment>)
    requires
        s.len() >= 1,
        !live(s.last()),
        forall|i: int| 0 <= i < s.len() - 1 ==> live(#[trigger] s[i]),
    ensures
        s.filter(|seg: Segment| live(seg)) == s.drop_last(),
{
    reveal(Seq::filter);
    lemma_filter_keeps_all(s.drop_last());
}

} // verus!
