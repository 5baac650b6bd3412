//! The ways in which an operation of this library can fail.

use vstd::prelude::*;

verus! {

/// Why an operation on a timer, a registry or a benchmark was refused.
#[derive(Clone, Copy, Debug, PartialEq, Eq, Structural)]
pub enum TimerError {
    /// The timer already holds a start mark; reset it before starting again.
    AlreadyStarted,
    /// The timer already holds a stop mark; reset it before measuring again.
    AlreadyStopped,
    /// The timer holds no start mark yet, so it cannot be stopped.
    NotStarted,
    /// The registry holds no timer under the tag.
    UnknownTag,
    /// The registry already holds a timer under the tag.
    DuplicateTag,
    /// A benchmark was asked to run zero iterations.
    InvalidIterationCount,
    /// The timer holds no complete measurement to report.
    Unavailable,
}

impl TimerError {
    /// What the error says, in words.
    pub open spec fn spec_message(self) -> Seq<char> {
        match self {
            TimerError::AlreadyStarted => "This timer was already started"@,
            TimerError::AlreadyStopped => "This timer was already stopped"@,
            TimerError::NotStarted => "This timer was not started"@,
            TimerError::UnknownTag => "This timer does not exist"@,
            TimerError::DuplicateTag => "This timer already exists"@,
            TimerError::InvalidIterationCount => "A benchmark needs at least one iteration"@,
            TimerError::Unavailable => "This timer holds no complete measurement"@,
        }
    }

    /// What the error says, in words.
    pub fn message(&self) -> (text: &'static str)
        ensures
            text@ == self.spec_message(),
    {
        match self {
            TimerError::AlreadyStarted => "This timer was already started",
            TimerError::AlreadyStopped => "This timer was already stopped",
            TimerError::NotStarted => "This timer was not started",
            TimerError::UnknownTag => "This timer does not exist",
            TimerError::DuplicateTag => "This timer already exists",
            TimerError::InvalidIterationCount => "A benchmark needs at least one iteration",
            TimerError::Unavailable => "This timer holds no complete measurement",
        }
    }
}

} // verus!
