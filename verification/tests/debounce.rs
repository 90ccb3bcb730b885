use std::time::Duration;

use sticky::debounce::is_due;
use sticky::debounce::Bouncer;

#[test]
fn it_works() {
    let delay = Duration::from_secs(1);
    let mut bouncer = Bouncer::new(delay);

    let result = bouncer.debounce(|| 5 + 6);

    assert!(result.is_some());
    assert_eq!(result.unwrap(), 11);
}

#[test]
fn it_binds_internal_func() {
    let func = || 5 + 6;
    let delay = Duration::from_secs(1);

    let mut bouncer = Bouncer::new(delay).with_func(func);

    assert!(bouncer.get_result().is_none());
    bouncer.execute();
    assert!(bouncer.get_result().is_some());
}

#[test]
fn second_call_within_the_delay_does_not_run() {
    let mut bouncer = Bouncer::new(Duration::from_secs(3600));
    let func = || 5 + 6;

    let first = bouncer.debounce(func);
    let second = bouncer.debounce(func);

    assert_eq!(first, Some(11));
    assert_eq!(second, None);
}

#[test]
fn reset_makes_the_next_call_run() {
    let mut bouncer = Bouncer::new(Duration::from_secs(3600));
    let func = || 7;

    assert_eq!(bouncer.debounce(func), Some(7));
    assert_eq!(bouncer.debounce(func), None);
    bouncer.reset();
    assert_eq!(bouncer.debounce(func), Some(7));
}

#[test]
fn execute_within_the_delay_leaves_no_result() {
    let mut bouncer = Bouncer::new(Duration::from_secs(3600)).with_func(|| 11);

    bouncer.execute();
    assert_eq!(bouncer.get_result(), Some(&11));
    bouncer.execute();
    assert_eq!(bouncer.get_result(), None);
}

#[test]
fn a_run_is_due_only_after_more_than_the_delay() {
    assert!(is_due(None, 100));
    assert!(!is_due(Some(100), 100));
    assert!(is_due(Some(101), 100));
    assert!(!is_due(Some(0), 0));
}

#[test]
fn execute_without_a_function_does_nothing() {
    let mut bouncer: Bouncer<i32> = Bouncer::new(Duration::from_secs(1));
    bouncer.execute();
    assert!(bouncer.get_result().is_none());
    // Nothing ran, so the first call of a function still runs.
    assert_eq!(bouncer.debounce(|| 3), Some(3));
}

#[test]
fn a_call_that_does_not_run_does_not_restart_the_delay() {
    let delay = Duration::from_millis(200);
    let mut bouncer = Bouncer::new(delay);
    let func = || 1;
    let before = std::time::Instant::now();
    assert_eq!(bouncer.debounce(func), Some(1));
    let after = std::time::Instant::now();
    // Calls within the delay do not run.
    while after.elapsed() < Duration::from_millis(100) {
        let result = bouncer.debounce(func);
        if before.elapsed() < delay {
            assert_eq!(result, None);
        }
    }
    // Nor did they put the next run off: it is due once the delay has passed
    // since the first run.
    while after.elapsed() <= delay {}
    assert_eq!(bouncer.debounce(func), Some(1));
}
