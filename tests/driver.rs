use simple_block_on::driver::{Attempt, Driver, Phase, Step};
use std::time::Duration;

/// Runs `attempt` to completion the way a blocking loop does: record each
/// report and, after a pending one, attempt again once resumed. `resume_signal`
/// stands for the producer that resumes the suspended thread.
fn drive<T>(
    mut attempt: impl FnMut() -> Attempt<T>,
    mut resume_signal: impl FnMut(),
) -> (T, Driver) {
    let mut d = Driver::new();
    loop {
        assert!(d.attempts() < u64::MAX);
        match d.record_attempt(attempt()) {
            Step::Finish(v) => return (v, d),
            Step::Suspend => {
                resume_signal();
                d.resume();
            }
        }
    }
}

#[test]
fn new_driver_is_polling_with_nothing_counted() {
    let d = Driver::new();
    assert_eq!(d.phase(), Phase::Polling);
    assert_eq!(d.attempts(), 0);
    assert_eq!(d.suspensions(), 0);
}

#[test]
fn ready_on_first_attempt_returns_without_suspending() {
    let mut d = Driver::new();
    match d.record_attempt(Attempt::Ready(7)) {
        Step::Finish(v) => assert_eq!(v, 7),
        Step::Suspend => panic!("a ready attempt must finish"),
    }
    assert_eq!(d.phase(), Phase::Finished);
    assert_eq!(d.attempts(), 1);
    assert_eq!(d.suspensions(), 0);
}

#[test]
fn pending_attempt_suspends_and_resume_polls_again() {
    let mut d = Driver::new();
    assert!(matches!(d.record_attempt(Attempt::<u8>::Pending), Step::Suspend));
    assert_eq!(d.phase(), Phase::Suspended);
    assert_eq!(d.attempts(), 1);
    assert_eq!(d.suspensions(), 1);
    d.resume();
    assert_eq!(d.phase(), Phase::Polling);
    assert_eq!(d.attempts(), 1);
    assert_eq!(d.suspensions(), 1);
}

#[test]
fn pending_once_then_ready_with_producer_thread() {
    let mut calls = 0u32;
    let mut producer_wakes = 0u32;
    let (v, d) = drive(
        || {
            calls += 1;
            if calls == 1 {
                Attempt::Pending
            } else {
                Attempt::Ready(42)
            }
        },
        || producer_wakes += 1,
    );
    assert_eq!(v, 42);
    assert_eq!(producer_wakes, 1);
    assert_eq!(d.attempts(), 2);
    assert_eq!(d.suspensions(), 1);
    assert_eq!(d.phase(), Phase::Finished);
}

#[test]
fn pending_three_times_takes_four_attempts() {
    let mut calls = 0u32;
    let (v, d) = drive(
        || {
            calls += 1;
            if calls <= 3 {
                Attempt::Pending
            } else {
                Attempt::Ready("done")
            }
        },
        || {},
    );
    assert_eq!(v, "done");
    assert_eq!(calls, 4);
    assert_eq!(d.attempts(), 4);
    assert_eq!(d.suspensions(), 3);
}
