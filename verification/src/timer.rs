//! The tick scheduler: accumulates elapsed time and gates the simulation
//! step.
//!
//! The timer repeats: when the accumulated time reaches the fixed interval
//! it fires exactly one step and rolls the accumulator over. Several whole
//! intervals elapsing within one advance still fire only one step — there
//! is no backlog catch-up.

use vstd::prelude::*;

verus! {

/// The default firing interval, in milliseconds.
pub const DEFAULT_TICK_MS: u64 = 500;

/// A repeating fixed-interval timer.
pub struct TickTimer {
    /// The firing interval, in milliseconds; always positive.
    pub interval_ms: u64,
    /// Time accumulated since the last firing; always below the interval.
    pub elapsed_ms: u64,
}

impl TickTimer {
    /// Well-formedness: the interval is positive and the accumulator has
    /// not yet reached it.
    pub open spec fn wf(self) -> bool {
        0 < self.interval_ms && self.elapsed_ms < self.interval_ms
    }

    /// A fresh timer with the given interval and an empty accumulator.
    pub fn new(interval_ms: u64) -> (t: TickTimer)
        requires
            interval_ms > 0,
        ensures
            t.wf(),
            t.interval_ms == interval_ms,
            t.elapsed_ms == 0,
    {
        TickTimer { interval_ms, elapsed_ms: 0 }
    }

    /// Adds `delta_ms` of elapsed time. Fires — returns true — exactly when
    /// the accumulated time reaches the interval, and then rolls the
    /// accumulator over; at most one firing per call, however much time
    /// elapsed.
    pub fn advance(&mut self, delta_ms: u64) -> (fired: bool)
        requires
            old(self).wf(),
            old(self).elapsed_ms + delta_ms <= u64::MAX,
        ensures
            final(self).wf(),
            final(self).interval_ms == old(self).interval_ms,
            fired == (old(self).elapsed_ms + delta_ms >= old(self).interval_ms),
            fired ==> final(self).elapsed_ms == (old(self).elapsed_ms + delta_ms) % (old(
                self,
            ).interval_ms as int),
            !fired ==> final(self).elapsed_ms == old(self).elapsed_ms + delta_ms,
    {
        let total = self.elapsed_ms + delta_ms;
        if total >= self.interval_ms {
            self.elapsed_ms = total % self.interval_ms;
            true
        } else {
            self.elapsed_ms = total;
            false
        }
    }
}

} // verus!
