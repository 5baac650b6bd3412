//! The monotonic clock that timers read their marks from.

use std::time::Duration;
use std::time::Instant;
use vstd::prelude::*;

verus! {

/// `std::time::Instant`, carried through as an opaque value.
#[verifier::external_type_specification]
#[verifier::external_body]
pub struct ExInstant(Instant);

/// `Instant::now` reads the platform's monotonic clock. Nothing is claimed of
/// the instant that comes back.
pub assume_specification[ Instant::now ]() -> (now: Instant);

/// `Instant::elapsed` gives the time that has passed since the instant was
/// taken. Nothing is claimed of the duration that comes back.
pub assume_specification[ Instant::elapsed ](origin: &Instant) -> (passed: Duration);

/// `Duration::as_nanos` gives the duration's whole length in nanoseconds.
/// Nothing is claimed of the number that comes back.
pub assume_specification[ Duration::as_nanos ](length: &Duration) -> (count: u128);

/// A monotonic clock that counts nanoseconds from the moment it was made.
#[derive(Clone, Copy, Debug)]
pub struct Clock {
    origin: Instant,
}

impl Clock {
    /// Makes a clock whose timeline begins now.
    pub fn new() -> (clock: Clock) {
        Clock { origin: Instant::now() }
    }

    /// Reads the clock: the nanoseconds that have passed since it was made.
    pub fn now(&self) -> (mark: u128) {
        let passed = self.origin.elapsed();
        passed.as_nanos()
    }
}

} // verus!
