//! The wall clock.
use vstd::prelude::*;

verus! {

/// Bound on the seconds of any `chrono::DateTime<Utc>`: chrono's dates span
/// the years -262143 to 262142, less than 10^13 seconds either side of 1970.
pub open spec fn in_clock_range(t: int) -> bool {
    -10_000_000_000_000 < t < 10_000_000_000_000
}

/// Trusted: `chrono::Utc::now`, read as whole seconds since the Unix epoch
/// with `DateTime::timestamp`. Claimed only that the value lies in chrono's
/// range of dates; which instant it is depends on the time of the call.
/// `Utc::now` panics when the system clock reads before 1970 or beyond
/// chrono's range; that depends on the machine, not on any argument, so no
/// `requires` can leave it out.
#[verifier::external_body]
pub(crate) fn now_timestamp() -> (r: i64)
    ensures
        in_clock_range(r as int),
{
    chrono::Utc::now().timestamp()
}

/// Distance in seconds between two instants.
pub open spec fn seconds_between(a: int, b: int) -> int {
    if a >= b {
        a - b
    } else {
        b - a
    }
}

/// Distance in seconds between two instants, as `(a - b).num_seconds().unsigned_abs()`.
pub fn elapsed_secs(a: i64, b: i64) -> (r: u64)
    ensures
        r == seconds_between(a as int, b as int),
{
    if a >= b {
        let d: i128 = a as i128 - b as i128;
        d as u64
    } else {
        let d: i128 = b as i128 - a as i128;
        d as u64
    }
}

} // verus!
