//! The gravity timer, counted in whole microseconds.
use crate::global::BASE_FALL_PERIOD;
use vstd::arithmetic::div_mod::{lemma_fundamental_div_mod, lemma_fundamental_div_mod_converse};
use vstd::prelude::*;

verus! {

/// A repeating timer: `elapsed` runs up to `duration`, then the timer fires
/// and starts over with what was left.
pub struct SoftDropTimer {
    pub duration: u64,
    pub elapsed: u64,
}

impl SoftDropTimer {
    pub open spec fn wf(&self) -> bool {
        0 < self.duration && self.elapsed < self.duration
    }

    /// A timer of the given period that has just started.
    pub fn new(duration: u64) -> (r: SoftDropTimer)
        requires
            duration > 0,
        ensures
            r.wf(),
            r.duration == duration,
            r.elapsed == 0,
    {
        SoftDropTimer { duration, elapsed: 0 }
    }

    /// Sets a new period and starts over.
    pub fn reset_with(&mut self, duration: u64)
        requires
            duration > 0,
        ensures
            final(self).wf(),
            final(self).duration == duration,
            final(self).elapsed == 0,
    {
        self.duration = duration;
        self.elapsed = 0;
    }

    /// Lets `delta` microseconds pass. Returns whether the timer fired,
    /// that is whether the elapsed time reached the period.
    pub fn tick(&mut self, delta: u64) -> (fired: bool)
        requires
            old(self).wf(),
        ensures
            final(self).wf(),
            final(self).duration == old(self).duration,
            fired == (old(self).elapsed + delta >= old(self).duration),
            final(self).elapsed == (old(self).elapsed + delta) % (old(self).duration as int),
    {
        let remaining = self.duration - self.elapsed;
        if delta >= remaining {
            let over = delta - remaining;
            proof {
                let d = self.duration as int;
                lemma_fundamental_div_mod(over as int, d);
                let q = over as int / d;
                let r = over as int % d;
                assert(self.elapsed + delta == (q + 1) * d + r) by (nonlinear_arith)
                    requires
                        over == d * q + r,
                        over == delta - (d - self.elapsed),
                ;
                lemma_fundamental_div_mod_converse(self.elapsed + delta, d, q + 1, r);
            }
            self.elapsed = over % self.duration;
            true
        } else {
            proof {
                lemma_fundamental_div_mod_converse(
                    self.elapsed + delta,
                    self.duration as int,
                    0,
                    self.elapsed + delta,
                );
            }
            self.elapsed = self.elapsed + delta;
            false
        }
    }
}

impl Default for SoftDropTimer {
    fn default() -> (r: SoftDropTimer)
        ensures
            r.wf(),
            r.duration == BASE_FALL_PERIOD,
            r.elapsed == 0,
    {
        SoftDropTimer::new(BASE_FALL_PERIOD)
    }
}

} // verus!
