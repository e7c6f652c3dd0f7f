//! Time as the core sees it: plain values from an injected clock.
//!
//! Instants are seconds since the Unix epoch, dates are whole days since the
//! epoch. The clock itself is a collaborator: callers read it and pass the
//! instant in, which keeps streaks and time windows deterministic under test.

use vstd::prelude::*;

verus! {

pub const SECONDS_PER_DAY: i64 = 86_400;

/// Latest instant the model accepts: three million days after the epoch,
/// far beyond any date a running service will see.
pub const MAX_TIMESTAMP: i64 = 259_200_000_000;

/// Largest day number, `MAX_TIMESTAMP / SECONDS_PER_DAY`.
pub const MAX_DAY: i64 = 3_000_000;

/// Whether `t` is an instant the model accepts.
pub open spec fn ts_ok(t: i64) -> bool {
    0 <= t <= MAX_TIMESTAMP
}

/// Whether `d` is a day number the model accepts.
pub open spec fn day_ok(d: i64) -> bool {
    0 <= d <= MAX_DAY
}

/// The calendar day an instant falls on.
pub open spec fn day_of_spec(t: i64) -> int {
    (t as int) / (SECONDS_PER_DAY as int)
}

/// Computes the day an instant falls on.
pub fn day_of(t: i64) -> (d: i64)
    requires
        ts_ok(t),
    ensures
        d == day_of_spec(t),
        day_ok(d),
{
    t / SECONDS_PER_DAY
}

} // verus!
