//! A re-arming countdown timer that reports a single-step "just crossed the
//! threshold" edge, used for periodic sampling (trail emission, predictor
//! cadence, day counting).

use vstd::prelude::*;
use crate::math::{cadd64, cl64};

verus! {

/// Elapsed time versus a threshold, in milliseconds, with an edge flag that
/// holds for exactly one `update` call per crossing.
#[derive(Clone, Copy, PartialEq, Eq, Structural, Debug)]
pub struct Timer {
    pub act: i64,
    pub threshold: i64,
    pub just_over: bool,
    pub repeat: bool,
}

/// Whether the timer has passed its threshold.
pub open spec fn spec_is_over(t: Timer) -> bool {
    t.act > t.threshold
}

/// The timer state after one `update(dt)` call.
pub open spec fn spec_timer_step(t: Timer, dt: int) -> Timer {
    if spec_is_over(t) && !t.repeat {
        t
    } else {
        let updated = cl64(t.act + dt);
        let over = updated > t.threshold;
        let edge = if t.just_over && !over {
            false
        } else if over && !t.just_over {
            true
        } else {
            t.just_over
        };
        Timer { act: if over && t.repeat { 0 } else { updated as i64 }, just_over: edge, ..t }
    }
}

impl Timer {
    /// A repeating timer that crosses every `threshold` milliseconds.
    pub fn new(threshold: i64) -> (r: Timer)
        ensures
            r == (Timer { act: 0i64, threshold, just_over: false, repeat: true }),
    {
        Timer { act: 0, threshold, just_over: false, repeat: true }
    }

    /// Whether the elapsed time has passed the threshold.
    pub fn is_over(&self) -> (r: bool)
        ensures
            r == spec_is_over(*self),
    {
        self.act > self.threshold
    }

    /// True for exactly one `update` call each time the threshold is
    /// crossed.
    pub fn is_just_over(&self) -> (r: bool)
        ensures
            r == self.just_over,
    {
        self.just_over
    }

    /// Advance by `dt` milliseconds: a repeating timer wraps back to zero
    /// on crossing, a one-shot timer freezes once over; the edge flag rises
    /// on the crossing step and falls when the elapsed time is next seen
    /// under the threshold.
    pub fn update(&mut self, dt: i64)
        ensures
            *final (self) == spec_timer_step(*old(self), dt as int),
    {
        if self.is_over() && !self.repeat {
            return ;
        }
        let updated_time: i64 = cadd64(self.act, dt);
        let over_threshold: bool = updated_time > self.threshold;
        if self.just_over && !over_threshold {
            self.just_over = false;
        } else if over_threshold && !self.just_over {
            self.just_over = true;
        }
        self.act = if over_threshold && self.repeat {
            0
        } else {
            updated_time
        };
    }
}

} // verus!
