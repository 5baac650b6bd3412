//! The entry point: makes timers and registries.

use crate::complex::ComplexTimer;
use crate::complex::Timers;
use crate::simple::SimpleTimer;
use crate::simple::TimerState;
use vstd::prelude::*;

verus! {

/// Makes the timers of this library.
pub struct DevTime {}

impl DevTime {
    /// Makes an empty timer with the default name.
    pub fn new_simple() -> (timer: SimpleTimer)
        ensures
            timer@ == TimerState::Empty,
            timer.spec_name() == "unnamed-thread"@,
    {
        SimpleTimer::new()
    }

    /// Makes a registry that holds no timer.
    pub fn new_complex() -> (registry: ComplexTimer)
        ensures
            registry.wf(),
            registry@ == Timers::empty(),
    {
        ComplexTimer::new()
    }
}

} // verus!
