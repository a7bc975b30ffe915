//! The simulation clock: a fixed tick period decoupled from the render
//! framerate. Frame time accumulates; each call says how many whole ticks
//! are due and keeps the remainder, so ticks never run long or get lost.

use vstd::prelude::*;
use crate::geom::DT_LIMIT;

verus! {

/// Longest frame the clock accepts, in milliseconds.
pub const FRAME_LIMIT: u64 = 1_000_000_000;

/// A fixed-period accumulator clock.
#[derive(Clone, Copy, Debug)]
pub struct Clock {
    pub period_ms: u64,
    pub accumulator_ms: u64,
}

impl Clock {
    /// The period is a valid tick length and the accumulator holds strictly
    /// less than one period.
    pub open spec fn wf(self) -> bool {
        &&& 1 <= self.period_ms <= DT_LIMIT
        &&& self.accumulator_ms < self.period_ms
    }

    pub fn new(period_ms: u64) -> (c: Clock)
        requires
            1 <= period_ms <= DT_LIMIT,
        ensures
            c.wf(),
            c.period_ms == period_ms,
            c.accumulator_ms == 0,
    {
        Clock { period_ms, accumulator_ms: 0 }
    }

    /// Accounts for `frame_ms` of wall-clock time: returns how many whole
    /// ticks are now due and carries the remainder. No time is lost: the
    /// ticks plus the new accumulator add up exactly to what came in.
    pub fn advance(&mut self, frame_ms: u64) -> (ticks: u64)
        requires
            old(self).wf(),
            frame_ms <= FRAME_LIMIT,
        ensures
            final(self).wf(),
            final(self).period_ms == old(self).period_ms,
            ticks == (old(self).accumulator_ms + frame_ms) / (old(self).period_ms as int),
            final(self).accumulator_ms
                == (old(self).accumulator_ms + frame_ms) % (old(self).period_ms as int),
            old(self).accumulator_ms + frame_ms
                == ticks * old(self).period_ms + final(self).accumulator_ms,
    {
        let total = self.accumulator_ms + frame_ms;
        let ticks = total / self.period_ms;
        self.accumulator_ms = total % self.period_ms;
        proof {
            vstd::arithmetic::div_mod::lemma_fundamental_div_mod(
                total as int, self.period_ms as int);
            vstd::arithmetic::div_mod::lemma_mod_bound(total as int, self.period_ms as int);
        }
        ticks
    }
}

} // verus!
