//! The time model of the library.
//!
//! A point in time is a reading of a monotonic clock, counted in
//! nanoseconds from an origin that the caller picks once.

use vstd::prelude::*;

verus! {

/// Nanoseconds in one millisecond.
pub const NANOS_PER_MILLI: u64 = 1_000_000;

/// Whole milliseconds elapsed from `earlier` to `later`, zero when `later`
/// precedes `earlier` (the saturating `duration_since(..).as_millis()`).
pub open spec fn spec_elapsed_millis(later: u64, earlier: u64) -> u64 {
    if later >= earlier {
        ((later - earlier) / (NANOS_PER_MILLI as int)) as u64
    } else {
        0
    }
}

/// Whole milliseconds elapsed from `earlier` to `later`, saturating at zero.
pub fn elapsed_millis(later: u64, earlier: u64) -> (r: u64)
    ensures
        r == spec_elapsed_millis(later, earlier),
{
    if later >= earlier {
        (later - earlier) / NANOS_PER_MILLI
    } else {
        0
    }
}

/// The distance between two readings is the whole number of milliseconds
/// from the earlier to the later one, and zero when the clock went back.
pub proof fn law_elapsed_millis(later: u64, earlier: u64)
    ensures
        later >= earlier ==> spec_elapsed_millis(later, earlier) == (later - earlier) / 1_000_000,
        later < earlier ==> spec_elapsed_millis(later, earlier) == 0,
        spec_elapsed_millis(later, earlier) * 1_000_000 <= if later >= earlier { later - earlier } else { 0 },
{
    if later >= earlier {
        let d = (later - earlier) as int;
        assert((d / 1_000_000) * 1_000_000 <= d) by (nonlinear_arith) requires d >= 0;
    }
}

} // verus!
