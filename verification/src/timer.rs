//! Restartable countdowns.
//!
//! A `Timer` accumulates simulation time and reports completion once its
//! period has elapsed. A repeating timer rearms itself when the completion is
//! consumed; a one-shot timer stays done. `Cooldown` is the repeating flavour
//! used to gate attacks and spawns.

use vstd::prelude::*;
use crate::fx::{fx_add, fx_add_spec, in_fx};

verus! {

/// A countdown over simulation time.
#[derive(Clone, Copy, Debug, PartialEq, Eq, Structural)]
pub struct Timer {
    /// Time accumulated so far, fixed-point seconds.
    pub elapsed: i64,
    /// Time after which the timer reports completion, fixed-point seconds.
    pub period: i64,
    /// Whether consuming a completion rearms the timer.
    pub repeating: bool,
}

/// A timer's fields are in the fixed-point range.
pub open spec fn timer_in_fx(t: Timer) -> bool {
    in_fx(t.elapsed as int) && in_fx(t.period as int)
}

/// Whether a timer has run for its whole period.
pub open spec fn timer_done(t: Timer) -> bool {
    t.elapsed >= t.period
}

impl Timer {
    /// A fresh timer that will complete after `period` seconds.
    pub fn new(period: i64, repeating: bool) -> (r: Timer)
        requires
            in_fx(period as int),
        ensures
            r == (Timer { elapsed: 0, period, repeating }),
            timer_in_fx(r),
    {
        Timer { elapsed: 0, period, repeating }
    }

    /// Advance the timer by `dt` seconds.
    pub fn tick(&mut self, dt: i64)
        requires
            timer_in_fx(*old(self)),
            in_fx(dt as int),
        ensures
            *final(self) == (Timer {
                elapsed: fx_add_spec(old(self).elapsed as int, dt as int) as i64,
                ..*old(self)
            }),
            timer_in_fx(*final(self)),
    {
        self.elapsed = fx_add(self.elapsed, dt);
    }

    /// Whether the period has elapsed, without consuming the completion.
    pub fn done(&self) -> (r: bool)
        ensures
            r == timer_done(*self),
    {
        self.elapsed >= self.period
    }

    /// Consume a completion: reports whether the period had elapsed, and if
    /// so rearms a repeating timer from zero.
    pub fn completed(&mut self) -> (r: bool)
        ensures
            r == timer_done(*old(self)),
            *final(self) == if timer_done(*old(self)) && old(self).repeating {
                Timer { elapsed: 0, ..*old(self) }
            } else {
                *old(self)
            },
            timer_in_fx(*old(self)) ==> timer_in_fx(*final(self)),
    {
        if self.elapsed >= self.period {
            if self.repeating {
                self.elapsed = 0;
            }
            true
        } else {
            false
        }
    }
}

/// A repeating timer gating how often an action may trigger.
#[derive(Clone, Copy, Debug, PartialEq, Eq, Structural)]
pub struct Cooldown(pub Timer);

impl Cooldown {
    /// A cooldown that is ready every `time` seconds.
    pub fn new(time: i64) -> (r: Cooldown)
        requires
            in_fx(time as int),
        ensures
            r.0 == (Timer { elapsed: 0, period: time, repeating: true }),
            timer_in_fx(r.0),
    {
        Cooldown(Timer::new(time, true))
    }
}

} // verus!
