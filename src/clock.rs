//! The monotonic clock behind the DNS cache's expiry times.

use vstd::prelude::*;

verus! {

#[verifier::external_type_specification]
#[verifier::external_body]
pub struct ExInstant(std::time::Instant);

/// Relies on std::time::Instant::now: a reading of the monotonic clock.
/// Nothing is known of the value.
#[verifier::external_body]
pub(crate) fn clock_now() -> (r: std::time::Instant) {
    std::time::Instant::now()
}

/// Relies on std::time::Instant::elapsed: the whole milliseconds passed since
/// `origin`. Nothing is known of the value.
#[verifier::external_body]
pub(crate) fn millis_since(origin: &std::time::Instant) -> (r: u64) {
    origin.elapsed().as_millis() as u64
}

} // verus!
