//! The bounded executor's polling schedule.

use gip::Error;
use gip::POLL_INTERVAL_MS;
use gip::PollSchedule;

#[test]
fn budget_is_one_poll_per_started_interval() {
    assert_eq!(PollSchedule::new(0).budget(), 0);
    assert_eq!(PollSchedule::new(1).budget(), 1);
    assert_eq!(PollSchedule::new(100).budget(), 1);
    assert_eq!(PollSchedule::new(101).budget(), 2);
    assert_eq!(PollSchedule::new(1000).budget(), 10);
    assert_eq!(PollSchedule::new(1050).budget(), 11);
}

#[test]
fn schedule_expires_after_its_budget() {
    let timeout: usize = 1000;
    let mut s = PollSchedule::new(timeout);
    let mut polls = 0;
    while !s.expired() {
        s.tick();
        polls += 1;
    }
    // One poll per interval: the total wait stays within one interval of
    // the timeout, and reaches at least the timeout.
    assert_eq!(polls, 10);
    assert!(polls * POLL_INTERVAL_MS < timeout + POLL_INTERVAL_MS);
    assert!(polls * POLL_INTERVAL_MS >= timeout);
}

#[test]
fn schedule_never_sleeps_short_of_the_timeout() {
    for timeout in [1, 99, 100, 250, 999, 1001] {
        let mut s = PollSchedule::new(timeout);
        let mut polls = 0;
        while !s.expired() {
            s.tick();
            polls += 1;
        }
        assert!(polls * POLL_INTERVAL_MS >= timeout);
        assert!(polls * POLL_INTERVAL_MS < timeout + POLL_INTERVAL_MS);
    }
}

#[test]
fn timeout_error_names_endpoint_and_budget() {
    let s = PollSchedule::new(2000);
    let e = s.timeout_error("http://example.invalid/ip");
    assert_eq!(
        e,
        Error::Timeout {
            url: String::from("http://example.invalid/ip"),
            timeout: 2000
        }
    );
}
