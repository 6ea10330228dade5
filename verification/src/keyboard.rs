//! Single-slot key-press latch.
//!
//! A press overwrites the latched code and its timestamp atomically; the
//! latch may only be cleared once a minimum real-time hold has elapsed,
//! decoupling physical key release from emulated key release.

use vstd::prelude::*;

use crate::clock::elapsed_ms;

verus! {

/// Minimum milliseconds a latched press must be held before it may be
/// cleared.
pub const KEY_HOLD_MS: u64 = 200;

/// Mathematical state of a [`Keyboard`]: the latched code, if any, and the
/// millisecond timestamp of the most recent press.
pub struct KeyboardView {
    pub pressed: Option<u8>,
    pub pressed_at_ms: u64,
}

/// A latched code may be cleared once it has been held `KEY_HOLD_MS`.
pub open spec fn can_reset(k: KeyboardView, now_ms: u64) -> bool {
    k.pressed is Some && elapsed_ms(k.pressed_at_ms, now_ms) >= KEY_HOLD_MS
}

/// The currently pressed key, if any, with the timestamp of its press.
pub struct Keyboard {
    /// The latched 4-bit key code; the input collaborator is responsible for
    /// keeping codes in range, the latch itself accepts any byte.
    pub pressed_key_code: Option<u8>,
    pressed_key_at_ms: u64,
}

impl View for Keyboard {
    type V = KeyboardView;

    closed spec fn view(&self) -> KeyboardView {
        KeyboardView { pressed: self.pressed_key_code, pressed_at_ms: self.pressed_key_at_ms }
    }
}

impl Keyboard {
    /// A fresh latch holds no key.
    pub fn new(now_ms: u64) -> (r: Keyboard)
        ensures
            r@ == (KeyboardView { pressed: None::<u8>, pressed_at_ms: now_ms }),
    {
        Keyboard { pressed_key_code: None, pressed_key_at_ms: now_ms }
    }

    /// Unconditionally overwrites the latched code and resets the hold
    /// timestamp.
    pub fn press_key(&mut self, code: u8, now_ms: u64)
        ensures
            final(self)@ == (KeyboardView { pressed: Some(code), pressed_at_ms: now_ms }),
    {
        self.pressed_key_code = Some(code);
        self.pressed_key_at_ms = now_ms;
    }

    /// The latched code, if any.
    pub fn pressed_key(&self) -> (r: Option<u8>)
        ensures
            r == self@.pressed,
    {
        self.pressed_key_code
    }

    /// True iff the latched code equals `code`; no latched code means false.
    pub fn is_key_pressed(&self, code: u8) -> (r: bool)
        ensures
            r == (self@.pressed == Some(code)),
    {
        match self.pressed_key_code {
            Some(c) => c == code,
            None => false,
        }
    }

    /// Whether enough real time has passed since the last press for the
    /// latch to be cleared.
    pub fn can_reset_pressed_key(&self, now_ms: u64) -> (r: bool)
        ensures
            r == can_reset(self@, now_ms),
    {
        match self.pressed_key_code {
            Some(_) => crate::clock::elapsed_millis(self.pressed_key_at_ms, now_ms) >= KEY_HOLD_MS,
            None => false,
        }
    }

    /// Removes the latched code; only permitted once the hold has elapsed.
    pub fn reset_pressed_key(&mut self, now_ms: u64)
        requires
            can_reset(old(self)@, now_ms),
        ensures
            final(self)@ == (KeyboardView {
                pressed: None::<u8>,
                pressed_at_ms: old(self)@.pressed_at_ms,
            }),
    {
        self.pressed_key_code = None;
    }
}

} // verus!
