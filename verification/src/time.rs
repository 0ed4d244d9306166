//! Points in time and spans of it, both in nanoseconds.

use vstd::prelude::*;

verus! {

/// A point in time, counted in nanoseconds from a fixed origin, or a span of time.
pub type Nanos = u64;

/// One hour.
pub const HOUR: Nanos = 3_600_000_000_000;

/// The span from `then` to `now`, which is empty if `then` is the later of the two.
pub open spec fn elapsed(now: Nanos, then: Nanos) -> int {
    if then <= now {
        now - then
    } else {
        0
    }
}

/// Computes the span from `then` to `now`.
pub fn time_since(now: Nanos, then: Nanos) -> (res: Nanos)
    ensures
        res == elapsed(now, then),
{
    if then <= now {
        now - then
    } else {
        0
    }
}

} // verus!
