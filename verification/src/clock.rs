//! Trusted access to the system's monotonic clock.
//!
//! A clock reading is opaque: nothing is assumed about the value a reading
//! yields or about the distance between two readings, so everything proved
//! elsewhere holds whatever the clock returns.

use vstd::prelude::*;
use std::time::Instant;

verus! {

#[verifier::external_type_specification]
#[verifier::external_body]
pub struct ExInstant(Instant);

/// Relies on `std::time::Instant::now`: an opaque reading of the monotonic
/// clock. Nothing is assumed about the value.
#[verifier::external_body]
pub(crate) fn instant_now() -> Instant {
    Instant::now()
}

/// Relies on `Instant::saturating_duration_since`, which never panics and
/// yields a zero duration when `end` precedes `start`; `Duration::as_nanos`
/// converts the result to nanoseconds. Nothing is assumed about the value.
#[verifier::external_body]
pub(crate) fn nanos_between(start: &Instant, end: &Instant) -> u128 {
    end.saturating_duration_since(*start).as_nanos()
}

} // verus!
