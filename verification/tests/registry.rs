use devtimer::ComplexTimer;
use devtimer::DevTime;
use devtimer::TimerError;
use devtimer::TimerState;

#[test]
fn new_registry_holds_nothing() {
    let registry = ComplexTimer::new();
    assert!(registry.iter().is_empty());
    assert_eq!(registry.time_in_nanos("a"), None);
    assert!(registry.result_lines().is_empty());
}

#[test]
fn second_create_under_a_tag_is_refused() {
    let mut registry = ComplexTimer::new();
    assert_eq!(registry.create_timer("x"), Ok(()));
    assert_eq!(registry.create_timer("x"), Err(TimerError::DuplicateTag));
    assert_eq!(registry.iter().len(), 1);
    assert_eq!(registry.create_timer("y"), Ok(()));
    assert_eq!(registry.iter().len(), 2);
}

#[test]
fn duplicate_create_keeps_the_running_timer() {
    let mut registry = ComplexTimer::new();
    registry.create_timer("x").unwrap();
    registry.start_timer_at("x", 11).unwrap();
    assert_eq!(registry.create_timer("x"), Err(TimerError::DuplicateTag));
    let pairs = registry.iter();
    assert_eq!(pairs.len(), 1);
    assert_eq!(pairs[0].0, "x");
    assert_eq!(pairs[0].1.state(), TimerState::Started { start: 11 });
}

#[test]
fn operations_on_a_deleted_tag_are_refused() {
    let mut registry = ComplexTimer::new();
    registry.create_timer("x").unwrap();
    registry.start_timer_at("x", 1).unwrap();
    registry.stop_timer_at("x", 2).unwrap();
    assert_eq!(registry.time_in_nanos("x"), Some(1));
    assert_eq!(registry.delete_timer("x"), Ok(()));
    assert_eq!(registry.start_timer("x"), Err(TimerError::UnknownTag));
    assert_eq!(registry.stop_timer("x"), Err(TimerError::UnknownTag));
    assert_eq!(registry.start_timer_at("x", 3), Err(TimerError::UnknownTag));
    assert_eq!(registry.stop_timer_at("x", 4), Err(TimerError::UnknownTag));
    assert_eq!(registry.delete_timer("x"), Err(TimerError::UnknownTag));
    assert_eq!(registry.run_through("x", 3, |_| {}), Err(TimerError::UnknownTag));
    assert_eq!(registry.time_in_nanos("x"), None);
    assert_eq!(registry.time_in_micros("x"), None);
    assert_eq!(registry.time_in_millis("x"), None);
    assert_eq!(registry.time_in_secs("x"), None);
    assert!(registry.iter().is_empty());
    assert_eq!(registry.create_timer("x"), Ok(()));
    assert_eq!(registry.time_in_nanos("x"), None);
}

#[test]
fn unknown_tag_is_told_apart_from_a_wrong_state() {
    let mut registry = ComplexTimer::new();
    registry.create_timer("known").unwrap();
    assert_eq!(registry.stop_timer_at("known", 5), Err(TimerError::NotStarted));
    assert_eq!(registry.stop_timer_at("unknown", 5), Err(TimerError::UnknownTag));
    assert_eq!(registry.start_timer_at("known", 5), Ok(()));
    assert_eq!(registry.start_timer_at("known", 6), Err(TimerError::AlreadyStarted));
    assert_eq!(registry.start_timer_at("unknown", 6), Err(TimerError::UnknownTag));
    assert_eq!(registry.stop_timer_at("known", 9), Ok(()));
    assert_eq!(registry.stop_timer_at("known", 10), Err(TimerError::AlreadyStopped));
    assert_eq!(registry.time_in_nanos("known"), Some(4));
}

#[test]
fn tags_are_compared_by_their_text() {
    let mut registry = ComplexTimer::new();
    registry.create_timer("a").unwrap();
    registry.create_timer("ab").unwrap();
    registry.create_timer("").unwrap();
    assert_eq!(registry.create_timer("ab"), Err(TimerError::DuplicateTag));
    assert_eq!(registry.create_timer(""), Err(TimerError::DuplicateTag));
    registry.start_timer_at("ab", 1).unwrap();
    registry.stop_timer_at("ab", 3).unwrap();
    assert_eq!(registry.time_in_nanos("ab"), Some(2));
    assert_eq!(registry.time_in_nanos("a"), None);
    assert_eq!(registry.time_in_nanos(""), None);
    assert_eq!(registry.time_in_nanos("b"), None);
    let owned = String::from("a") + "b";
    assert_eq!(registry.time_in_nanos(owned.as_str()), Some(2));
}

#[test]
fn two_tags_measure_independently() {
    let mut registry = ComplexTimer::new();
    registry.create_timer("a").unwrap();
    registry.create_timer("b").unwrap();
    registry.start_timer_at("a", 1_000).unwrap();
    registry.start_timer_at("b", 2_000).unwrap();
    registry.stop_timer_at("a", 1_000 + 12_000).unwrap();
    registry.stop_timer_at("b", 2_000 + 45_000).unwrap();
    assert_eq!(registry.time_in_nanos("a"), Some(12_000));
    assert_eq!(registry.time_in_nanos("b"), Some(45_000));
    assert_eq!(registry.time_in_micros("a"), Some(12));
    assert_eq!(registry.time_in_micros("b"), Some(45));
    assert_eq!(registry.time_in_millis("b"), Some(0));
    assert_eq!(registry.time_in_secs("b"), Some(0));

    let pairs = registry.iter();
    assert_eq!(pairs.len(), 2);
    let mut seen: Vec<(&str, Option<u128>)> = Vec::new();
    for (tag, timer) in pairs.iter() {
        seen.push((*tag, timer.time_in_nanos()));
    }
    seen.sort();
    assert_eq!(seen, vec![("a", Some(12_000)), ("b", Some(45_000))]);
    let again = registry.iter();
    assert_eq!(again.len(), 2);
}

#[test]
fn delete_leaves_the_other_timers() {
    let mut registry = ComplexTimer::new();
    registry.create_timer("a").unwrap();
    registry.create_timer("b").unwrap();
    registry.create_timer("c").unwrap();
    registry.start_timer_at("c", 10).unwrap();
    registry.stop_timer_at("c", 30).unwrap();
    assert_eq!(registry.delete_timer("a"), Ok(()));
    assert_eq!(registry.time_in_nanos("c"), Some(20));
    assert_eq!(registry.start_timer_at("b", 1), Ok(()));
    let mut tags: Vec<&str> = registry.iter().iter().map(|pair| pair.0).collect();
    tags.sort();
    assert_eq!(tags, vec!["b", "c"]);
}

#[test]
fn clear_deletes_every_timer() {
    let mut registry = ComplexTimer::new();
    registry.create_timer("a").unwrap();
    registry.create_timer("b").unwrap();
    registry.clear_timers();
    assert!(registry.iter().is_empty());
    assert_eq!(registry.start_timer("a"), Err(TimerError::UnknownTag));
    assert_eq!(registry.create_timer("a"), Ok(()));
    registry.clear_timers();
    registry.clear_timers();
    assert!(registry.iter().is_empty());
}

#[test]
fn result_lines_name_tag_and_nanoseconds() {
    let mut registry = ComplexTimer::new();
    registry.create_timer("timerx").unwrap();
    registry.create_timer("timery").unwrap();
    registry.create_timer("idle").unwrap();
    registry.start_timer_at("timerx", 0).unwrap();
    registry.stop_timer_at("timerx", 120).unwrap();
    registry.start_timer_at("timery", 1_000).unwrap();
    registry.stop_timer_at("timery", 2_233).unwrap();
    let mut lines = registry.result_lines();
    lines.sort_by(|one, other| one.0.cmp(other.0));
    assert_eq!(
        lines,
        vec![
            ("idle", Err(TimerError::Unavailable)),
            ("timerx", Ok(String::from("timerx - 120 ns"))),
            ("timery", Ok(String::from("timery - 1233 ns"))),
        ]
    );
}

#[test]
fn result_line_of_a_single_timer() {
    let mut timer = devtimer::SimpleTimer::new();
    assert_eq!(
        devtimer::complex::write_result_line("t", &timer),
        Err(TimerError::Unavailable)
    );
    timer.start_at(5).unwrap();
    assert_eq!(
        devtimer::complex::write_result_line("t", &timer),
        Err(TimerError::Unavailable)
    );
    timer.stop_at(5).unwrap();
    assert_eq!(
        devtimer::complex::write_result_line("t", &timer),
        Ok(String::from("t - 0 ns"))
    );
}

#[test]
fn run_through_uses_the_tagged_timer() {
    let mut registry = ComplexTimer::new();
    registry.create_timer("loop").unwrap();
    registry.create_timer("other").unwrap();
    let calls = std::cell::RefCell::new(Vec::new());
    let report = registry
        .run_through("loop", 4, |i| calls.borrow_mut().push(i))
        .unwrap();
    assert_eq!(*calls.borrow(), vec![0, 1, 2, 3]);
    assert!(report.get_fastest() <= report.get_average());
    assert!(report.get_average() <= report.get_slowest());
    let last = registry.time_in_nanos("loop").unwrap();
    assert!(report.get_fastest() <= last);
    assert!(last <= report.get_slowest());
    assert_eq!(registry.time_in_nanos("other"), None);
}

#[test]
fn run_through_reuses_a_stopped_timer() {
    let mut registry = ComplexTimer::new();
    registry.create_timer("loop").unwrap();
    registry.start_timer_at("loop", 1).unwrap();
    registry.stop_timer_at("loop", 2).unwrap();
    let report = registry.run_through("loop", 1, |_| {}).unwrap();
    assert_eq!(report.get_fastest(), report.get_slowest());
    assert_eq!(report.get_fastest(), report.get_average());
    assert_eq!(registry.time_in_nanos("loop"), Some(report.get_fastest()));
}

#[test]
fn run_through_refuses_zero_iterations_and_unknown_tags() {
    let mut registry = ComplexTimer::new();
    registry.create_timer("loop").unwrap();
    registry.start_timer_at("loop", 7).unwrap();
    let calls = std::cell::Cell::new(0u32);
    assert_eq!(
        registry.run_through("loop", 0, |_| calls.set(calls.get() + 1)),
        Err(TimerError::InvalidIterationCount)
    );
    assert_eq!(
        registry.run_through("nowhere", 0, |_| calls.set(calls.get() + 1)),
        Err(TimerError::UnknownTag)
    );
    assert_eq!(
        registry.run_through("nowhere", 2, |_| calls.set(calls.get() + 1)),
        Err(TimerError::UnknownTag)
    );
    assert_eq!(calls.get(), 0);
    let pairs = registry.iter();
    assert_eq!(pairs[0].1.state(), TimerState::Started { start: 7 });
}

#[test]
fn check_complex_timer_impl() {
    let mut dt = DevTime::new_complex();

    dt.create_timer("pk12").unwrap();
    dt.start_timer("pk12").unwrap();
    dt.stop_timer("pk12").unwrap();
    println!(
        "The operation took: {} us",
        dt.time_in_micros("pk12").unwrap()
    );

    dt.create_timer("arg2").unwrap();
    dt.start_timer("arg2").unwrap();
    dt.stop_timer("arg2").unwrap();
    println!(
        "The operation took: {} us",
        dt.time_in_micros("arg2").unwrap()
    );

    for (timer, result) in dt.iter() {
        println!("Timer: {} - {}", timer, result.time_in_nanos().unwrap());
    }

    for (_, line) in dt.result_lines() {
        println!("{}", line.unwrap());
    }
    dt.clear_timers();
    assert!(dt.iter().is_empty());
}
