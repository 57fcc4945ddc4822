//! Points in time. What a clock says depends on the machine, so nothing is
//! known here of what it says. A point of the wall clock is a number of
//! nanoseconds since the beginning of 1970.

use vstd::prelude::*;

verus! {

/// Nanoseconds of a second.
pub const NANOS_PER_SEC: u64 = 1_000_000_000;

/// `std::time::Instant`, a point of the steady clock.
#[verifier::external_type_specification]
#[verifier::external_body]
pub struct ExInstant(std::time::Instant);

/// `SystemTime::now`, as nanoseconds since the beginning of 1970 and 0 for a
/// clock that is set before that; nothing is claimed of the number.
#[verifier::external_body]
pub(crate) fn wall_now() -> u64 {
    std::time::SystemTime::now().duration_since(std::time::UNIX_EPOCH).unwrap_or_default().as_nanos() as u64
}

/// `Instant::now`; nothing is claimed of the point.
#[verifier::external_body]
pub(crate) fn steady_now() -> std::time::Instant {
    std::time::Instant::now()
}

/// How long ago a point is, in full seconds; 0 for one that is still to come.
pub open spec fn age(now: u64, at: u64) -> int {
    if now > at {
        (now - at) / (NANOS_PER_SEC as int)
    } else {
        0
    }
}

/// How long ago a point is, in full seconds; 0 for one that is still to come.
pub fn secs_ago(now: u64, at: u64) -> (r: u64)
    ensures
        r == age(now, at),
{
    if now > at {
        (now - at) / NANOS_PER_SEC
    } else {
        0
    }
}

/// An age is the number of full seconds, of a thousand million nanoseconds each,
/// that have passed; it grows with the time, and a point that is still to come
/// has none.
pub proof fn law_age_is_in_full_seconds(now: u64, at: u64, later: u64)
    ensures
        now >= at ==> at + 1_000_000_000 * age(now, at) <= now < at + 1_000_000_000 * (age(now, at)
            + 1),
        now < at ==> age(now, at) == 0,
        now <= later ==> age(now, at) <= age(later, at),
{
}

} // verus!
