//! Spans between marks, and the units they are reported in.

use vstd::prelude::*;

verus! {

/// Nanoseconds in a microsecond.
pub const NANOS_PER_MICRO: u128 = 1_000;

/// Nanoseconds in a millisecond.
pub const NANOS_PER_MILLI: u128 = 1_000_000;

/// Nanoseconds in a second.
pub const NANOS_PER_SEC: u128 = 1_000_000_000;

/// The nanoseconds from `start` to `stop`: their difference, or zero where the
/// stop mark lies before the start mark.
pub open spec fn span(start: u128, stop: u128) -> u128 {
    if stop >= start {
        (stop - start) as u128
    } else {
        0
    }
}

/// The measured nanoseconds between two marks: available exactly when both
/// marks are there.
pub open spec fn elapsed_nanos(start: Option<u128>, stop: Option<u128>) -> Option<u128> {
    match (start, stop) {
        (Some(a), Some(b)) => Some(span(a, b)),
        _ => None,
    }
}

/// The measured time in whole units of `unit` nanoseconds, the remainder cut
/// off.
pub open spec fn elapsed_in(start: Option<u128>, stop: Option<u128>, unit: u128) -> Option<u128>
    recommends
        unit > 0,
{
    match elapsed_nanos(start, stop) {
        Some(nanos) => Some(nanos / unit),
        None => None,
    }
}

/// The nanoseconds from `start` to `stop`, zero where `stop` lies before
/// `start`.
pub fn nanos_between(start: u128, stop: u128) -> (nanos: u128)
    ensures
        nanos == span(start, stop),
{
    if stop >= start {
        stop - start
    } else {
        0
    }
}

/// The time between two marks in whole units of `unit` nanoseconds, or `None`
/// while a mark is missing.
pub fn time_between(start: Option<u128>, stop: Option<u128>, unit: u128) -> (time: Option<u128>)
    requires
        unit > 0,
    ensures
        time == elapsed_in(start, stop, unit),
{
    match (start, stop) {
        (Some(a), Some(b)) => Some(nanos_between(a, b) / unit),
        _ => None,
    }
}

/// Whole microseconds are the nanoseconds divided by a thousand, whole
/// milliseconds the microseconds divided by a thousand, and whole seconds the
/// milliseconds divided by a thousand: cutting off the remainder unit by unit
/// loses no more than cutting it off once.
pub proof fn units_nest(nanos: u128)
    ensures
        nanos / NANOS_PER_MILLI == (nanos / NANOS_PER_MICRO) / 1000,
        nanos / NANOS_PER_SEC == (nanos / NANOS_PER_MILLI) / 1000,
        nanos / NANOS_PER_SEC <= nanos / NANOS_PER_MILLI <= nanos / NANOS_PER_MICRO <= nanos,
{
}

} // verus!
