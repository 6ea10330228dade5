//! Countdown delay timer.
//!
//! The observed value is derived, never ticked: reading converts elapsed real
//! time into whole 16 ms ticks and subtracts them from the stored set-point,
//! floored at zero.

use vstd::prelude::*;

use crate::clock::elapsed_ms;

verus! {

/// Milliseconds per countdown tick.
pub const TICK_MS: u64 = 16;

/// Mathematical state of a [`Timer`]: the stored set-point and the
/// millisecond timestamp at which it was set.
pub struct TimerView {
    pub delay: u8,
    pub set_at_ms: u64,
}

/// The countdown value observed at `now_ms`: elapsed whole ticks are
/// subtracted from the set-point, floored at zero.
pub open spec fn timer_value(t: TimerView, now_ms: u64) -> u8 {
    let ticks = elapsed_ms(t.set_at_ms, now_ms) / (TICK_MS as int);
    if ticks >= t.delay {
        0u8
    } else {
        (t.delay - ticks) as u8
    }
}

/// An 8-bit countdown value plus the real timestamp at which it was last set.
pub struct Timer {
    delay: u8,
    delay_set_at_ms: u64,
}

impl View for Timer {
    type V = TimerView;

    closed spec fn view(&self) -> TimerView {
        TimerView { delay: self.delay, set_at_ms: self.delay_set_at_ms }
    }
}

impl Timer {
    /// A fresh timer reads zero at and after `now_ms`.
    pub fn new(now_ms: u64) -> (r: Timer)
        ensures
            r@ == (TimerView { delay: 0u8, set_at_ms: now_ms }),
    {
        Timer { delay: 0, delay_set_at_ms: now_ms }
    }

    /// The derived countdown value at `now_ms`: never exceeds the stored
    /// set-point and never underflows below zero.
    pub fn get_delay(&self, now_ms: u64) -> (r: u8)
        ensures
            r == timer_value(self@, now_ms),
            r <= self@.delay,
    {
        let elapsed = crate::clock::elapsed_millis(self.delay_set_at_ms, now_ms);
        let ticks: u64 = elapsed / TICK_MS;
        if ticks >= self.delay as u64 {
            0
        } else {
            self.delay - ticks as u8
        }
    }

    /// Stores the set-point and resets its timestamp to `now_ms`.
    pub fn set_delay(&mut self, delay: u8, now_ms: u64)
        ensures
            final(self)@ == (TimerView { delay, set_at_ms: now_ms }),
    {
        self.delay = delay;
        self.delay_set_at_ms = now_ms;
    }
}

} // verus!
