//! The clocks the library reads, and the plain numbers times are held as.
use vstd::prelude::*;

verus! {

/// `std::time::Instant`, a point on the monotonic clock, held opaquely:
/// nothing of its contents is known here.
#[verifier::external_type_specification]
#[verifier::external_body]
pub struct ExInstant(std::time::Instant);

/// Reads the monotonic clock (`std::time::Instant::now`). Nothing is
/// promised of the value: it depends on when the call is made.
#[verifier::external_body]
pub fn instant_now() -> (r: std::time::Instant) {
    std::time::Instant::now()
}

/// Reads the wall clock (`chrono::Utc::now`) and renders it with
/// `DateTime::to_rfc3339`. Nothing is promised of the text: it depends on
/// when the call is made.
#[verifier::external_body]
pub fn utc_now_rfc3339() -> (r: String) {
    chrono::Utc::now().to_rfc3339()
}


/// Nanoseconds from `earlier` to `later` on the monotonic clock
/// (`Instant::saturating_duration_since`, then `Duration::as_nanos`); zero
/// when `later` is not after `earlier`. Nothing is promised of the value:
/// the instants are opaque here.
#[verifier::external_body]
pub fn nanos_between(earlier: &std::time::Instant, later: &std::time::Instant) -> (r: u128) {
    later.saturating_duration_since(*earlier).as_nanos()
}

/// `a - b`, or 0 where `b` is larger.
pub open spec fn sat_sub(a: u128, b: u128) -> u128 {
    if a >= b {
        (a - b) as u128
    } else {
        0
    }
}

/// Computes `sat_sub(a, b)`.
pub fn saturating_diff(a: u128, b: u128) -> (r: u128)
    ensures
        r == sat_sub(a, b),
{
    if a >= b {
        a - b
    } else {
        0
    }
}

/// A monotonic clock whose readings are nanoseconds since the moment it
/// was started: times are held as these plain numbers.
#[derive(Debug)]
pub struct MonoClock {
    origin: std::time::Instant,
}

impl MonoClock {
    /// A clock started now.
    pub fn start() -> (r: MonoClock) {
        MonoClock { origin: instant_now() }
    }

    /// A reading: the nanoseconds since the clock was started. Nothing is
    /// promised of the value: it depends on when the call is made.
    pub fn now_ns(&self) -> (r: u128) {
        let now = instant_now();
        nanos_between(&self.origin, &now)
    }
}

} // verus!
