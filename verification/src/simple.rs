//! A single timer and the lifecycle it goes through.

use crate::clock::Clock;
use crate::error::TimerError;
use crate::traits::TimeDifference;
use crate::units::elapsed_in;
use crate::units::elapsed_nanos;
use crate::units::nanos_between;
use crate::units::span;
use crate::units::NANOS_PER_MICRO;
use crate::units::NANOS_PER_MILLI;
use crate::units::NANOS_PER_SEC;
use vstd::prelude::*;

verus! {

/// Where a timer stands in its lifecycle, with the marks recorded so far.
///
/// Marks are nanosecond readings of a monotonic clock. A stop mark exists
/// only beside a start mark: the lifecycle has no other state.
#[derive(Clone, Copy, Debug, PartialEq, Eq, Structural)]
pub enum TimerState {
    /// No mark has been recorded, or the timer was reset.
    Empty,
    /// The start mark has been recorded and the measurement is running.
    Started { start: u128 },
    /// Both marks have been recorded and the measurement is complete.
    Stopped { start: u128, stop: u128 },
}

impl TimerState {
    /// The start mark, where one has been recorded.
    pub open spec fn start_mark(self) -> Option<u128> {
        match self {
            TimerState::Empty => None,
            TimerState::Started { start } => Some(start),
            TimerState::Stopped { start, .. } => Some(start),
        }
    }

    /// The stop mark, where one has been recorded.
    pub open spec fn stop_mark(self) -> Option<u128> {
        match self {
            TimerState::Stopped { stop, .. } => Some(stop),
            _ => None,
        }
    }

    /// The measured nanoseconds: available once both marks are recorded.
    pub open spec fn elapsed(self) -> Option<u128> {
        elapsed_nanos(self.start_mark(), self.stop_mark())
    }

    /// The measured time in whole units of `unit` nanoseconds.
    pub open spec fn elapsed_in(self, unit: u128) -> Option<u128> {
        elapsed_in(self.start_mark(), self.stop_mark(), unit)
    }

    /// The state after a reset: empty, whatever it was.
    pub open spec fn cleared(self) -> TimerState {
        TimerState::Empty
    }

    /// What an attempt to start reports: only an empty timer can be started.
    pub open spec fn start_verdict(self) -> Result<(), TimerError> {
        match self {
            TimerState::Empty => Ok(()),
            _ => Err(TimerError::AlreadyStarted),
        }
    }

    /// The state after an attempt to start with `mark`: an empty timer is
    /// started, any other is left as it was.
    pub open spec fn started(self, mark: u128) -> TimerState {
        match self {
            TimerState::Empty => TimerState::Started { start: mark },
            _ => self,
        }
    }

    /// What an attempt to stop reports: only a started timer that has not
    /// been stopped yet can be stopped.
    pub open spec fn stop_verdict(self) -> Result<(), TimerError> {
        match self {
            TimerState::Empty => Err(TimerError::NotStarted),
            TimerState::Started { .. } => Ok(()),
            TimerState::Stopped { .. } => Err(TimerError::AlreadyStopped),
        }
    }

    /// The state after an attempt to stop with `mark`: a running timer is
    /// stopped, any other is left as it was.
    pub open spec fn stopped(self, mark: u128) -> TimerState {
        match self {
            TimerState::Started { start } => TimerState::Stopped { start, stop: mark },
            _ => self,
        }
    }
}

/// A timer: records a start mark and a stop mark and reports the time between
/// them. It can be reset and used again.
#[derive(Debug)]
pub struct SimpleTimer {
    state: TimerState,
    name: String,
    clock: Clock,
}

impl View for SimpleTimer {
    type V = TimerState;

    closed spec fn view(&self) -> TimerState {
        self.state
    }
}

impl SimpleTimer {
    /// The timer's name, which serves diagnostics only.
    pub closed spec fn spec_name(&self) -> Seq<char> {
        self.name@
    }

    /// Makes an empty timer with the default name.
    pub fn new() -> (timer: SimpleTimer)
        ensures
            timer@ == TimerState::Empty,
            timer.spec_name() == "unnamed-thread"@,
    {
        SimpleTimer {
            state: TimerState::Empty,
            name: "unnamed-thread".to_owned(),
            clock: Clock::new(),
        }
    }

    /// Makes an empty timer with the given name.
    pub fn new_named(name: String) -> (timer: SimpleTimer)
        ensures
            timer@ == TimerState::Empty,
            timer.spec_name() == name@,
    {
        SimpleTimer { state: TimerState::Empty, name, clock: Clock::new() }
    }

    /// The timer's name.
    pub fn name(&self) -> (name: &str)
        ensures
            name@ == self.spec_name(),
    {
        self.name.as_str()
    }

    /// The timer's state: where it stands in its lifecycle, with its marks.
    pub fn state(&self) -> (state: TimerState)
        ensures
            state == self@,
    {
        self.state
    }

    /// Clears both marks, whatever the state, so that the timer can measure
    /// again.
    pub fn reset(&mut self)
        ensures
            final(self)@ == old(self)@.cleared(),
            final(self).spec_name() == old(self).spec_name(),
    {
        self.state = TimerState::Empty;
    }

    /// Records `mark` as the start mark. Refused with `AlreadyStarted` unless
    /// the timer is empty; a refused call changes nothing.
    pub fn start_at(&mut self, mark: u128) -> (outcome: Result<(), TimerError>)
        ensures
            outcome == old(self)@.start_verdict(),
            final(self)@ == old(self)@.started(mark),
            final(self).spec_name() == old(self).spec_name(),
    {
        match self.state {
            TimerState::Empty => {
                self.state = TimerState::Started { start: mark };
                Ok(())
            },
            _ => Err(TimerError::AlreadyStarted),
        }
    }

    /// Records `mark` as the stop mark. Refused with `NotStarted` while the
    /// timer is empty and with `AlreadyStopped` once it is stopped; a refused
    /// call changes nothing.
    pub fn stop_at(&mut self, mark: u128) -> (outcome: Result<(), TimerError>)
        ensures
            outcome == old(self)@.stop_verdict(),
            final(self)@ == old(self)@.stopped(mark),
            final(self).spec_name() == old(self).spec_name(),
    {
        match self.state {
            TimerState::Empty => Err(TimerError::NotStarted),
            TimerState::Started { start } => {
                self.state = TimerState::Stopped { start, stop: mark };
                Ok(())
            },
            TimerState::Stopped { .. } => Err(TimerError::AlreadyStopped),
        }
    }

    /// Reads the clock and records the reading as the start mark. Refused with
    /// `AlreadyStarted` unless the timer is empty; a refused call changes
    /// nothing.
    pub fn start(&mut self) -> (outcome: Result<(), TimerError>)
        ensures
            outcome == old(self)@.start_verdict(),
            exists|mark: u128| final(self)@ == #[trigger] old(self)@.started(mark),
            final(self).spec_name() == old(self).spec_name(),
    {
        let mark = self.clock.now();
        self.start_at(mark)
    }

    /// Reads the clock and records the reading as the stop mark. Refused with
    /// `NotStarted` while the timer is empty and with `AlreadyStopped` once it
    /// is stopped; a refused call changes nothing.
    pub fn stop(&mut self) -> (outcome: Result<(), TimerError>)
        ensures
            outcome == old(self)@.stop_verdict(),
            exists|mark: u128| final(self)@ == #[trigger] old(self)@.stopped(mark),
            final(self).spec_name() == old(self).spec_name(),
    {
        let mark = self.clock.now();
        self.stop_at(mark)
    }

    /// Like [`SimpleTimer::start`], but reports a refusal as `false` in place
    /// of an error: `true` exactly when the start mark was newly recorded.
    pub fn start_checked(&mut self) -> (newly_started: bool)
        ensures
            newly_started == old(self)@.start_verdict().is_ok(),
            exists|mark: u128| final(self)@ == #[trigger] old(self)@.started(mark),
            final(self).spec_name() == old(self).spec_name(),
    {
        self.start().is_ok()
    }

    /// Like [`SimpleTimer::stop`], but reports a refusal as `false` in place
    /// of an error: `true` exactly when the stop mark was newly recorded.
    pub fn stop_checked(&mut self) -> (newly_stopped: bool)
        ensures
            newly_stopped == old(self)@.stop_verdict().is_ok(),
            exists|mark: u128| final(self)@ == #[trigger] old(self)@.stopped(mark),
            final(self).spec_name() == old(self).spec_name(),
    {
        self.stop().is_ok()
    }

    /// The nanoseconds between the two marks, or `None` while a mark is
    /// missing.
    fn find_diff(&self) -> (diff: Option<u128>)
        ensures
            diff == self@.elapsed(),
    {
        match self.state {
            TimerState::Stopped { start, stop } => Some(nanos_between(start, stop)),
            _ => None,
        }
    }

    /// The measured time in nanoseconds, or `None` unless the timer is
    /// stopped.
    pub fn time_in_nanos(&self) -> (time: Option<u128>)
        ensures
            time == self@.elapsed(),
    {
        self.find_diff()
    }

    /// The measured time in whole microseconds, or `None` unless the timer is
    /// stopped.
    pub fn time_in_micros(&self) -> (time: Option<u128>)
        ensures
            time == self@.elapsed_in(NANOS_PER_MICRO),
    {
        match self.find_diff() {
            Some(nanos) => Some(nanos / NANOS_PER_MICRO),
            None => None,
        }
    }

    /// The measured time in whole milliseconds, or `None` unless the timer is
    /// stopped.
    pub fn time_in_millis(&self) -> (time: Option<u128>)
        ensures
            time == self@.elapsed_in(NANOS_PER_MILLI),
    {
        match self.find_diff() {
            Some(nanos) => Some(nanos / NANOS_PER_MILLI),
            None => None,
        }
    }

    /// The measured time in whole seconds, or `None` unless the timer is
    /// stopped.
    pub fn time_in_secs(&self) -> (time: Option<u128>)
        ensures
            time == self@.elapsed_in(NANOS_PER_SEC),
    {
        match self.find_diff() {
            Some(nanos) => Some(nanos / NANOS_PER_SEC),
            None => None,
        }
    }
}

impl TimeDifference for SimpleTimer {
    open spec fn start_mark(&self) -> Option<u128> {
        self@.start_mark()
    }

    open spec fn stop_mark(&self) -> Option<u128> {
        self@.stop_mark()
    }

    fn start(&self) -> (mark: Option<u128>) {
        match self.state {
            TimerState::Empty => None,
            TimerState::Started { start } => Some(start),
            TimerState::Stopped { start, .. } => Some(start),
        }
    }

    fn stop(&self) -> (mark: Option<u128>) {
        match self.state {
            TimerState::Stopped { stop, .. } => Some(stop),
            _ => None,
        }
    }
}

impl Default for SimpleTimer {
    fn default() -> (timer: SimpleTimer)
        ensures
            timer@ == TimerState::Empty,
            timer.spec_name() == "unnamed-thread"@,
    {
        SimpleTimer::new()
    }
}

/// The measured time is unavailable while a mark is missing, and available
/// exactly in the stopped state.
pub proof fn elapsed_available_exactly_when_stopped(state: TimerState)
    ensures
        state.elapsed().is_none() <==> (state.start_mark().is_none()
            || state.stop_mark().is_none()),
        state.elapsed().is_some() <==> state is Stopped,
{
}

/// The measured time becomes available by a stop that succeeds, and by
/// nothing else: a start never changes whether it is available, a refused
/// stop neither, and a stop succeeds only where a start mark stands.
pub proof fn time_becomes_available_by_a_successful_stop(state: TimerState, mark: u128)
    ensures
        state.started(mark).elapsed().is_some() == state.elapsed().is_some(),
        state.elapsed().is_none() ==> (state.stopped(mark).elapsed().is_some()
            <==> state.stop_verdict().is_ok()),
        state.stop_verdict().is_ok() ==> state.start_mark().is_some(),
{
}

/// A stop mark never stands without a start mark, and a stop is refused
/// before any start.
pub proof fn no_stop_before_start(state: TimerState, mark: u128)
    ensures
        state.stop_mark().is_some() ==> state.start_mark().is_some(),
        TimerState::Empty.stop_verdict() == Err::<(), TimerError>(TimerError::NotStarted),
        TimerState::Empty.stopped(mark) == TimerState::Empty,
{
}

/// Starting and then stopping an empty timer both succeed; the time is
/// unavailable after the start alone, and after the stop it is the span
/// between the two marks.
pub proof fn start_then_stop_measures(start: u128, stop: u128)
    ensures
        TimerState::Empty.start_verdict().is_ok(),
        TimerState::Empty.started(start).elapsed().is_none(),
        TimerState::Empty.started(start).stop_verdict().is_ok(),
        TimerState::Empty.started(start).stopped(stop).elapsed() == Some(span(start, stop)),
{
}

/// After a reset a timer measures afresh: whatever it held before, a start
/// and then a stop both succeed, and the state and the time they lead to are
/// made of the new marks alone.
pub proof fn reset_measures_afresh(before: TimerState, start: u128, stop: u128)
    ensures
        before.cleared().start_verdict().is_ok(),
        before.cleared().started(start).stop_verdict().is_ok(),
        before.cleared().started(start).stopped(stop) == (TimerState::Stopped { start, stop }),
        before.cleared().started(start).stopped(stop).elapsed() == Some(span(start, stop)),
{
}

/// Once a start has succeeded, a second start without a reset in between is
/// refused with `AlreadyStarted` and changes nothing, whether or not the
/// timer was stopped meanwhile.
pub proof fn second_start_is_refused(state: TimerState, first: u128, stop: u128, second: u128)
    requires
        state.start_verdict().is_ok(),
    ensures
        state.started(first).start_verdict() == Err::<(), TimerError>(TimerError::AlreadyStarted),
        state.started(first).started(second) == state.started(first),
        state.started(first).stopped(stop).start_verdict() == Err::<(), TimerError>(
            TimerError::AlreadyStarted,
        ),
        state.started(first).stopped(stop).started(second) == state.started(first).stopped(stop),
{
}

/// Once a stop has succeeded, a second stop without a reset in between is
/// refused with `AlreadyStopped` and changes nothing.
pub proof fn second_stop_is_refused(state: TimerState, first: u128, second: u128)
    requires
        state.stop_verdict().is_ok(),
    ensures
        state.stopped(first).stop_verdict() == Err::<(), TimerError>(TimerError::AlreadyStopped),
        state.stopped(first).stopped(second) == state.stopped(first),
{
}

} // verus!
