//! The monotonic clock, by which pauses and delays are measured.

use std::time::Instant;
use vstd::prelude::*;

verus! {

/// A point in time of the monotonic clock; nothing is known of its value.
#[verifier::external_type_specification]
#[verifier::external_body]
pub struct ExInstant(Instant);

/// `Instant::now`: the current reading of the monotonic clock.
#[verifier::external_body]
pub(crate) fn now() -> Instant {
    Instant::now()
}

/// `Instant::elapsed`, in nanoseconds: the time that has passed since
/// `since`. Nothing is known of it.
#[verifier::external_body]
pub(crate) fn nanos_since(since: &Instant) -> u128 {
    since.elapsed().as_nanos()
}

} // verus!
