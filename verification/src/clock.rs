//! The wall clock, as far as the watchlist reads it: when a refresh happened
//! and how long ago that was. What comes back depends on the time of the
//! call, so nothing is claimed of it.
use std::time::{Duration, Instant};
use vstd::prelude::*;

verus! {

/// `std::time::Instant`, carried through as an opaque value.
#[verifier::external_type_specification]
#[verifier::external_body]
pub struct ExInstant(Instant);

/// `std::time::Instant::now`. Nothing is claimed of the instant returned.
#[verifier::external_body]
pub(crate) fn instant_now() -> (r: Instant) {
    Instant::now()
}

/// `std::time::Instant::elapsed`. Nothing is claimed of the duration
/// returned: it is the time passed since `t`.
#[verifier::external_body]
pub(crate) fn instant_elapsed(t: &Instant) -> (r: Duration) {
    t.elapsed()
}

/// `std::time::Duration::as_secs`. Not stated: the value, which is the
/// duration's whole seconds; a `Duration` has no view here to state it over.
#[verifier::external_body]
pub(crate) fn duration_secs(d: &Duration) -> (r: u64) {
    d.as_secs()
}

/// `std::time::Duration::as_nanos`. Not stated: the value, which is the
/// duration's whole nanoseconds; a `Duration` has no view here to state it
/// over.
#[verifier::external_body]
pub(crate) fn duration_nanos(d: &Duration) -> (r: u128) {
    d.as_nanos()
}

} // verus!
