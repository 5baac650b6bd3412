use devtimer::DevTime;
use devtimer::SimpleTimer;
use devtimer::TimeDifferenceExt;
use devtimer::TimerError;
use devtimer::TimerState;

#[test]
fn new_timer_is_empty_and_reports_nothing() {
    let timer = SimpleTimer::new();
    assert_eq!(timer.state(), TimerState::Empty);
    assert_eq!(timer.name(), "unnamed-thread");
    assert_eq!(timer.time_in_nanos(), None);
    assert_eq!(timer.time_in_micros(), None);
    assert_eq!(timer.time_in_millis(), None);
    assert_eq!(timer.time_in_secs(), None);
}

#[test]
fn named_timer_keeps_its_name() {
    let mut timer = SimpleTimer::new_named(String::from("warm-up"));
    assert_eq!(timer.name(), "warm-up");
    assert_eq!(timer.start_at(5), Ok(()));
    assert_eq!(timer.stop_at(9), Ok(()));
    timer.reset();
    assert_eq!(timer.name(), "warm-up");
    assert_eq!(timer.state(), TimerState::Empty);
}

#[test]
fn default_timer_is_empty() {
    let timer = SimpleTimer::default();
    assert_eq!(timer.state(), TimerState::Empty);
    let other = DevTime::new_simple();
    assert_eq!(other.state(), TimerState::Empty);
    assert_eq!(other.name(), "unnamed-thread");
}

#[test]
fn time_is_unavailable_until_both_marks_are_recorded() {
    let mut timer = SimpleTimer::new();
    assert_eq!(timer.time_in_nanos(), None);
    assert_eq!(timer.start_at(1_000), Ok(()));
    assert_eq!(timer.state(), TimerState::Started { start: 1_000 });
    assert_eq!(timer.time_in_nanos(), None);
    assert_eq!(timer.stop_at(4_500), Ok(()));
    assert_eq!(timer.state(), TimerState::Stopped { start: 1_000, stop: 4_500 });
    assert_eq!(timer.time_in_nanos(), Some(3_500));
}

#[test]
fn units_cut_off_the_remainder() {
    let mut timer = SimpleTimer::new();
    timer.start_at(7).unwrap();
    timer.stop_at(7 + 3_999_999_999).unwrap();
    assert_eq!(timer.time_in_nanos(), Some(3_999_999_999));
    assert_eq!(timer.time_in_micros(), Some(3_999_999));
    assert_eq!(timer.time_in_millis(), Some(3_999));
    assert_eq!(timer.time_in_secs(), Some(3));
}

#[test]
fn units_are_the_nanoseconds_divided() {
    let spans: [u128; 6] = [0, 1, 999, 1_000, 123_456_789_012, u128::MAX];
    for span in spans {
        let mut timer = SimpleTimer::new();
        timer.start_at(0).unwrap();
        timer.stop_at(span).unwrap();
        let nanos = timer.time_in_nanos().unwrap();
        assert_eq!(nanos, span);
        assert_eq!(timer.time_in_micros(), Some(nanos / 1_000));
        assert_eq!(timer.time_in_millis(), Some(nanos / 1_000_000));
        assert_eq!(timer.time_in_secs(), Some(nanos / 1_000_000_000));
    }
}

#[test]
fn fifty_milliseconds_on_a_replayed_clock() {
    let mut timer = SimpleTimer::new();
    let begin: u128 = 123_456_789;
    timer.start_at(begin).unwrap();
    timer.stop_at(begin + 50_000_000).unwrap();
    assert_eq!(timer.time_in_millis(), Some(50));
    assert_eq!(timer.time_in_secs(), Some(0));
    assert_eq!(timer.time_in_micros(), Some(50_000));
    assert_eq!(timer.time_in_nanos(), Some(50_000_000));
}

#[test]
fn stop_mark_before_start_mark_measures_zero() {
    let mut timer = SimpleTimer::new();
    timer.start_at(100).unwrap();
    timer.stop_at(40).unwrap();
    assert_eq!(timer.state(), TimerState::Stopped { start: 100, stop: 40 });
    assert_eq!(timer.time_in_nanos(), Some(0));
    assert_eq!(timer.time_in_secs(), Some(0));
}

#[test]
fn second_start_is_refused() {
    let mut timer = SimpleTimer::new();
    assert_eq!(timer.start_at(10), Ok(()));
    assert_eq!(timer.start_at(20), Err(TimerError::AlreadyStarted));
    assert_eq!(timer.state(), TimerState::Started { start: 10 });
    assert_eq!(timer.stop_at(30), Ok(()));
    assert_eq!(timer.start_at(40), Err(TimerError::AlreadyStarted));
    assert_eq!(timer.state(), TimerState::Stopped { start: 10, stop: 30 });
}

#[test]
fn second_start_on_the_real_clock_is_refused() {
    let mut timer = SimpleTimer::new();
    assert_eq!(timer.start(), Ok(()));
    let state = timer.state();
    assert_eq!(timer.start(), Err(TimerError::AlreadyStarted));
    assert_eq!(timer.state(), state);
}

#[test]
fn stop_before_start_is_refused() {
    let mut timer = SimpleTimer::new();
    assert_eq!(timer.stop_at(10), Err(TimerError::NotStarted));
    assert_eq!(timer.state(), TimerState::Empty);
    assert_eq!(timer.stop(), Err(TimerError::NotStarted));
    assert_eq!(timer.state(), TimerState::Empty);
    assert_eq!(timer.time_in_nanos(), None);
}

#[test]
fn second_stop_is_refused() {
    let mut timer = SimpleTimer::new();
    timer.start_at(10).unwrap();
    assert_eq!(timer.stop_at(25), Ok(()));
    assert_eq!(timer.stop_at(99), Err(TimerError::AlreadyStopped));
    assert_eq!(timer.time_in_nanos(), Some(15));
    assert_eq!(timer.stop(), Err(TimerError::AlreadyStopped));
    assert_eq!(timer.time_in_nanos(), Some(15));
}

#[test]
fn checked_start_and_stop_report_what_they_did() {
    let mut timer = SimpleTimer::new();
    assert!(!timer.stop_checked());
    assert_eq!(timer.state(), TimerState::Empty);
    assert!(timer.start_checked());
    assert!(!timer.start_checked());
    assert!(timer.stop_checked());
    assert!(!timer.stop_checked());
    assert!(!timer.start_checked());
    assert!(timer.time_in_nanos().is_some());
}

#[test]
fn reset_gives_a_fresh_measurement() {
    let mut timer = SimpleTimer::new();
    timer.start_at(1).unwrap();
    timer.stop_at(1_000_001).unwrap();
    assert_eq!(timer.time_in_nanos(), Some(1_000_000));
    timer.reset();
    assert_eq!(timer.state(), TimerState::Empty);
    assert_eq!(timer.time_in_nanos(), None);
    assert_eq!(timer.start_at(500), Ok(()));
    assert_eq!(timer.time_in_nanos(), None);
    assert_eq!(timer.stop_at(750), Ok(()));
    assert_eq!(timer.time_in_nanos(), Some(250));
    assert_eq!(timer.state(), TimerState::Stopped { start: 500, stop: 750 });
}

#[test]
fn reset_of_a_running_timer_forgets_the_start() {
    let mut timer = SimpleTimer::new();
    timer.start_at(1).unwrap();
    timer.reset();
    assert_eq!(timer.stop_at(2), Err(TimerError::NotStarted));
    assert_eq!(timer.start_at(3), Ok(()));
}

#[test]
fn real_clock_measures_something_consistent() {
    let mut timer = SimpleTimer::new();
    assert_eq!(timer.start(), Ok(()));
    let mut sum: u64 = 0;
    for i in 0..10_000u64 {
        sum = sum.wrapping_add(i * i);
    }
    assert_eq!(timer.stop(), Ok(()));
    assert!(sum > 0);
    match timer.state() {
        TimerState::Stopped { start, stop } => {
            assert!(stop >= start);
            assert_eq!(timer.time_in_nanos(), Some(stop - start));
        }
        other => panic!("the timer is not stopped: {:?}", other),
    }
    let nanos = timer.time_in_nanos().unwrap();
    assert_eq!(timer.time_in_micros(), Some(nanos / 1_000));
    assert_eq!(timer.time_in_millis(), Some(nanos / 1_000_000));
    assert_eq!(timer.time_in_secs(), Some(nanos / 1_000_000_000));
}

#[test]
fn trait_methods_agree_with_the_timer() {
    let mut timer = SimpleTimer::new();
    assert_eq!(TimeDifferenceExt::time_in_nanos(&timer), None);
    timer.start_at(2_000_000_000).unwrap();
    assert_eq!(devtimer::TimeDifference::start(&timer), Some(2_000_000_000));
    assert_eq!(devtimer::TimeDifference::stop(&timer), None);
    assert_eq!(TimeDifferenceExt::time_in_secs(&timer), None);
    timer.stop_at(5_500_000_000).unwrap();
    assert_eq!(devtimer::TimeDifference::stop(&timer), Some(5_500_000_000));
    assert_eq!(TimeDifferenceExt::time_in_nanos(&timer), Some(3_500_000_000));
    assert_eq!(TimeDifferenceExt::time_in_micros(&timer), Some(3_500_000));
    assert_eq!(TimeDifferenceExt::time_in_millis(&timer), Some(3_500));
    assert_eq!(TimeDifferenceExt::time_in_secs(&timer), Some(3));
}

#[test]
fn test_simple_timer_impl() {
    let mut dt = DevTime::new_simple();
    dt.start().unwrap();
    dt.stop().unwrap();
    println!("Operation took: {}", dt.time_in_micros().unwrap());
}

#[test]
fn every_error_has_its_message() {
    assert_eq!(TimerError::AlreadyStarted.message(), "This timer was already started");
    assert_eq!(TimerError::AlreadyStopped.message(), "This timer was already stopped");
    assert_eq!(TimerError::NotStarted.message(), "This timer was not started");
    assert_eq!(TimerError::UnknownTag.message(), "This timer does not exist");
    assert_eq!(TimerError::DuplicateTag.message(), "This timer already exists");
    assert_eq!(
        TimerError::InvalidIterationCount.message(),
        "A benchmark needs at least one iteration"
    );
    assert_eq!(
        TimerError::Unavailable.message(),
        "This timer holds no complete measurement"
    );
}

#[test]
fn clock_does_not_run_backwards() {
    let clock = devtimer::Clock::new();
    let mut last = clock.now();
    for _ in 0..1_000 {
        let next = clock.now();
        assert!(next >= last);
        last = next;
    }
    let copy = clock;
    assert!(copy.now() >= last);
}
