//! Elapsed time for anything that holds a start mark and a stop mark.

use crate::units::elapsed_in;
use crate::units::elapsed_nanos;
use crate::units::time_between;
use crate::units::NANOS_PER_MICRO;
use crate::units::NANOS_PER_MILLI;
use crate::units::NANOS_PER_SEC;
use vstd::prelude::*;

verus! {

/// Something that holds up to two marks: nanosecond readings of a monotonic
/// clock, taken when a measurement began and when it ended.
pub trait TimeDifference {
    /// The start mark, where one has been recorded.
    spec fn start_mark(&self) -> Option<u128>;

    /// The stop mark, where one has been recorded.
    spec fn stop_mark(&self) -> Option<u128>;

    /// The start mark, where one has been recorded.
    fn start(&self) -> (mark: Option<u128>)
        ensures
            mark == self.start_mark(),
    ;

    /// The stop mark, where one has been recorded.
    fn stop(&self) -> (mark: Option<u128>)
        ensures
            mark == self.stop_mark(),
    ;
}

/// The time between the two marks of a [`TimeDifference`], in several units.
/// Each is `None` while a mark is missing.
pub trait TimeDifferenceExt: TimeDifference {
    /// The measured time in nanoseconds.
    fn time_in_nanos(&self) -> (time: Option<u128>)
        ensures
            time == elapsed_nanos(self.start_mark(), self.stop_mark()),
    {
        time_between(self.start(), self.stop(), 1)
    }

    /// The measured time in whole microseconds.
    fn time_in_micros(&self) -> (time: Option<u128>)
        ensures
            time == elapsed_in(self.start_mark(), self.stop_mark(), NANOS_PER_MICRO),
    {
        time_between(self.start(), self.stop(), NANOS_PER_MICRO)
    }

    /// The measured time in whole milliseconds.
    fn time_in_millis(&self) -> (time: Option<u128>)
        ensures
            time == elapsed_in(self.start_mark(), self.stop_mark(), NANOS_PER_MILLI),
    {
        time_between(self.start(), self.stop(), NANOS_PER_MILLI)
    }

    /// The measured time in whole seconds.
    fn time_in_secs(&self) -> (time: Option<u128>)
        ensures
            time == elapsed_in(self.start_mark(), self.stop_mark(), NANOS_PER_SEC),
    {
        time_between(self.start(), self.stop(), NANOS_PER_SEC)
    }
}

impl<T: TimeDifference> TimeDifferenceExt for T {

}

} // verus!
