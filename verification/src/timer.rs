//! A countdown timer over whole milliseconds of simulation time.
//!
//! The timer owns a configured period (`duration_ms`) and the time still to
//! run in the current cycle (`time_left_ms`). Elapsed time is fed in through
//! [`Timer::update`]; once the countdown reaches zero the timer latches
//! `ready` until it is reset or reconfigured.

use vstd::prelude::*;

verus! {

#[derive(Clone, Copy, Debug)]
pub struct Timer {
    /// The configured period of one full cycle, in milliseconds.
    pub duration_ms: u64,
    /// Milliseconds still to run in the current cycle.
    pub time_left_ms: u64,
    /// True once the current cycle has fully elapsed; latched until reset.
    pub ready: bool,
}

impl Timer {
    /// The countdown never exceeds the period, and `ready` is only latched
    /// once the countdown has run out.
    pub open spec fn wf(self) -> bool {
        &&& self.time_left_ms <= self.duration_ms
        &&& (self.ready ==> self.time_left_ms == 0)
    }

    /// The timer state after `delta_ms` further milliseconds have elapsed:
    /// the countdown shrinks (saturating at zero) and `ready` latches when
    /// it runs out. A timer that is already ready no longer changes.
    pub open spec fn ticked(self, delta_ms: u64) -> Timer {
        if self.ready {
            self
        } else if self.time_left_ms <= delta_ms {
            Timer { duration_ms: self.duration_ms, time_left_ms: 0, ready: true }
        } else {
            Timer {
                duration_ms: self.duration_ms,
                time_left_ms: (self.time_left_ms - delta_ms) as u64,
                ready: false,
            }
        }
    }

    /// A fresh, not yet ready timer with period `ms`, fully wound up.
    pub fn from_millis(ms: u64) -> (t: Timer)
        ensures
            t == (Timer { duration_ms: ms, time_left_ms: ms, ready: false }),
            t.wf(),
    {
        Timer { duration_ms: ms, time_left_ms: ms, ready: false }
    }

    /// Account for `delta_ms` elapsed milliseconds.
    pub fn update(&mut self, delta_ms: u64)
        ensures
            *final(self) == old(self).ticked(delta_ms),
            old(self).wf() ==> final(self).wf(),
    {
        if !self.ready {
            if self.time_left_ms <= delta_ms {
                self.time_left_ms = 0;
                self.ready = true;
            } else {
                self.time_left_ms = self.time_left_ms - delta_ms;
            }
        }
    }

    /// Wind the timer back up to its full period and clear `ready`.
    pub fn reset(&mut self)
        ensures
            *final(self) == (Timer {
                duration_ms: old(self).duration_ms,
                time_left_ms: old(self).duration_ms,
                ready: false,
            }),
            final(self).wf(),
    {
        self.time_left_ms = self.duration_ms;
        self.ready = false;
    }
}

} // verus!
