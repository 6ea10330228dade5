//! Elapsed-time arithmetic shared by the time-gated components.
//!
//! Real time enters the library only as plain millisecond counts supplied by
//! the caller, so every derived value here is a pure function of its inputs.

use vstd::prelude::*;

verus! {

/// Whole milliseconds elapsed from `earlier` to `now`, floored at zero.
pub open spec fn elapsed_ms(earlier: u64, now: u64) -> int {
    if now >= earlier {
        now - earlier
    } else {
        0
    }
}

/// Executable counterpart of [`elapsed_ms`].
pub(crate) fn elapsed_millis(earlier: u64, now: u64) -> (r: u64)
    ensures
        r == elapsed_ms(earlier, now),
{
    if now >= earlier {
        now - earlier
    } else {
        0
    }
}

} // verus!
