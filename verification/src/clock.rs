//! The wall clock that bounds a search.
//!
//! Reading the clock is the one thing in the search whose outcome no
//! contract can foretell. The functions that read it promise nothing about
//! what they return; the decision taken on a reading is verified for every
//! reading.

use vstd::prelude::*;
use std::time::{Duration, Instant};

verus! {

/// A point in time of the system's monotonic clock.
#[verifier::external_type_specification]
#[verifier::external_body]
pub struct ExInstant(Instant);

/// The length of a span of time in nanoseconds, as `Duration::as_nanos`
/// gives it.
pub uninterp spec fn nanos_of(span: Duration) -> u128;

/// Reads the clock with `Instant::now`. Nothing is claimed of the reading.
#[verifier::external_body]
pub(crate) fn now() -> (instant: Instant) {
    Instant::now()
}

/// The time gone by since `start`, read with `Instant::elapsed`. Nothing is
/// claimed of the reading: two calls may differ.
#[verifier::external_body]
pub(crate) fn elapsed_since(start: &Instant) -> (elapsed: Duration) {
    start.elapsed()
}

/// The length of a span in nanoseconds, by `Duration::as_nanos`: the same
/// span always has the same length.
#[verifier::external_body]
pub(crate) fn as_nanos(span: &Duration) -> (nanos: u128)
    ensures
        nanos == nanos_of(*span),
{
    span.as_nanos()
}

/// Whether a time budget is used up: the time gone by has reached the
/// limit. A limit of zero is used up from the start.
pub fn budget_spent(elapsed_nanos: u128, limit_nanos: u128) -> (spent: bool)
    ensures
        spent == (elapsed_nanos >= limit_nanos),
{
    elapsed_nanos >= limit_nanos
}

} // verus!
