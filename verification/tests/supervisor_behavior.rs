use pocket_harness::supervisor::{BackoffPolicy, BackoffSupervisor, Delay};

#[test]
fn backoff_exponentially_caps_and_opens_circuit() {
    let policy = BackoffPolicy::new(Delay::from_secs(2), Delay::from_secs(10), 3);
    let mut supervisor = BackoffSupervisor::new(policy);

    let first = supervisor.record_failure();
    assert_eq!(first.delay, Delay::from_secs(2));
    assert!(!first.circuit_open);

    let second = supervisor.record_failure();
    assert_eq!(second.delay, Delay::from_secs(4));
    assert!(!second.circuit_open);

    let third = supervisor.record_failure();
    assert_eq!(third.delay, Delay::from_secs(8));
    assert!(third.circuit_open);

    let capped = supervisor.record_failure();
    assert_eq!(capped.delay, Delay::from_secs(10));
    assert!(capped.circuit_open);

    supervisor.record_success();
    assert_eq!(supervisor.consecutive_failures(), 0);
    assert_eq!(supervisor.record_failure().delay, Delay::from_secs(2));
}

#[test]
fn delay_keeps_seconds_and_nanoseconds() {
    let d = Delay::new(3, 250_000_000);
    assert_eq!(d.as_secs(), 3);
    assert_eq!(d.subsec_nanos(), 250_000_000);
    assert_eq!(d.as_nanos(), 3_250_000_000);
    assert_eq!(Delay::from_millis(1500), Delay::new(1, 500_000_000));
    assert_eq!(Delay::from_secs(2).min(Delay::from_secs(1)), Delay::from_secs(1));
    assert_eq!(Delay::from_secs(2).checked_mul(3), Some(Delay::from_secs(6)));
}

#[test]
fn circuit_opens_on_first_failure_when_threshold_is_one() {
    let policy = BackoffPolicy::new(Delay::from_millis(100), Delay::from_secs(1), 1);
    let mut supervisor = BackoffSupervisor::new(policy);
    let first = supervisor.record_failure();
    assert_eq!(first.delay, Delay::from_millis(100));
    assert!(first.circuit_open);
    assert_eq!(supervisor.consecutive_failures(), 1);
}

#[test]
fn failure_count_is_failures_since_last_success() {
    let mut supervisor = BackoffSupervisor::default();
    assert_eq!(supervisor.consecutive_failures(), 0);
    supervisor.record_failure();
    supervisor.record_failure();
    supervisor.record_success();
    supervisor.record_failure();
    supervisor.record_failure();
    supervisor.record_failure();
    assert_eq!(supervisor.consecutive_failures(), 3);
}
