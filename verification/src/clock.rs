//! The clock that the stream flushing and the command cache read.
use std::time::{Duration, Instant};
use vstd::prelude::*;

verus! {

/// A point in time (`std::time::Instant`).
#[verifier::external_type_specification]
#[verifier::external_body]
pub struct ExInstant(std::time::Instant);

/// The current time (`Instant::now`). Nothing is stated of the value: it
/// comes from the machine's clock.
#[verifier::external_body]
pub(crate) fn now() -> Instant {
    Instant::now()
}

/// The time that has passed since `since` (`Instant::elapsed`). Nothing is
/// stated of the value: it comes from the machine's clock.
#[verifier::external_body]
fn elapsed(since: &Instant) -> Duration {
    since.elapsed()
}

/// The whole milliseconds of a duration (`Duration::as_millis`). `Duration`
/// is opaque here, so nothing is stated of the value.
#[verifier::external_body]
fn whole_millis(d: &Duration) -> u128 {
    d.as_millis()
}

/// The whole milliseconds that have passed since `since`, as the clock gives
/// them.
pub(crate) fn millis_since(since: &Instant) -> u128 {
    whole_millis(&elapsed(since))
}

} // verus!
