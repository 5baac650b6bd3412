//! Elapsed-time measurement and micro-benchmarking.
//!
//! A [`SimpleTimer`] records a start mark and a stop mark and reports the
//! time between them in several units. A [`ComplexTimer`] keeps any number
//! of timers, each under a tag of its own. [`run_benchmark`] times an
//! operation over and over and reports the fastest, the slowest and the
//! average run as a [`RunThroughReport`].
//!
//! Marks are nanosecond readings of a monotonic [`Clock`]. Every operation
//! that reads the clock has a twin that takes the mark from its caller, so
//! that a measurement can be replayed on marks of the caller's choosing.

pub mod bench;
pub mod clock;
pub mod complex;
pub mod devtime;
pub mod error;
pub mod simple;
pub mod text;
pub mod traits;
pub mod units;

pub use bench::run_benchmark;
pub use bench::summarize;
pub use bench::RunThroughReport;
pub use clock::Clock;
pub use complex::ComplexTimer;
pub use devtime::DevTime;
pub use error::TimerError;
pub use simple::SimpleTimer;
pub use simple::TimerState;
pub use traits::TimeDifference;
pub use traits::TimeDifferenceExt;
