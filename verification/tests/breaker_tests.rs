use circuit_breaker::breaker::BreakerState;
use circuit_breaker::breaker::CallDisposition;
use circuit_breaker::breaker::CircuitBreaker;
use circuit_breaker::config::ResolvedConfig;

fn config(
    error_threshold: i32,
    error_threshold_percentage: i32,
    buckets: i32,
    bucket_ms: u64,
    open_ms: u64,
    enabled: bool,
) -> ResolvedConfig {
    ResolvedConfig {
        error_threshold,
        error_threshold_percentage,
        buckets_in_window: buckets,
        bucket_size_in_ms: bucket_ms,
        circuit_open_ms: open_ms,
        threadpool_size: 1,
        circuit_breaker_enabled: enabled,
    }
}

fn fail() -> Result<(), &'static str> {
    Err("boom")
}

fn succeed() -> Result<(), &'static str> {
    Ok(())
}

#[test]
fn fresh_breaker_is_closed_and_allows_calls() {
    let mut b = CircuitBreaker::new(config(2, 50, 1, 1000, 100, true), 0);
    assert_eq!(b.current_state(0), BreakerState::Closed);
    assert!(b.check_command_allowed(0));
    assert_eq!(b.open_time_ms(), None);
}

#[test]
fn trips_when_both_thresholds_met() {
    let mut b = CircuitBreaker::new(config(2, 50, 1, 1000, 100, true), 0);
    b.register_result(&fail(), 0);
    b.register_result(&fail(), 1);
    assert!(!b.check_command_allowed(2));
    assert_eq!(b.open_time_ms(), Some(2));
}

#[test]
fn does_not_trip_when_count_threshold_unmet() {
    // percentage is 100 but only one absolute failure: the count gate holds
    let mut b = CircuitBreaker::new(config(2, 50, 1, 1000, 100, true), 0);
    b.register_result(&fail(), 0);
    assert!(b.check_command_allowed(1));
    assert_eq!(b.open_time_ms(), None);
}

#[test]
fn does_not_trip_when_percentage_threshold_unmet() {
    // two failures among many successes: the percentage gate holds
    let mut b = CircuitBreaker::new(config(2, 50, 10, 1000, 100, true), 0);
    b.register_result(&fail(), 0);
    b.register_result(&fail(), 1);
    b.register_result(&succeed(), 2);
    b.register_result(&succeed(), 3);
    b.register_result(&succeed(), 4);
    assert!(b.check_command_allowed(5));
    assert_eq!(b.open_time_ms(), None);
}

#[test]
fn every_call_before_cooldown_expiry_is_rejected() {
    let mut b = CircuitBreaker::new(config(2, 50, 1, 1000, 100, true), 0);
    b.register_result(&fail(), 0);
    b.register_result(&fail(), 1);
    assert!(!b.check_command_allowed(2));
    assert!(!b.check_command_allowed(3));
    assert!(!b.check_command_allowed(50));
    assert!(!b.check_command_allowed(101));
    assert_eq!(b.current_state(101), BreakerState::Open);
    assert_eq!(b.open_time_ms(), Some(2));
}

#[test]
fn first_call_at_cooldown_expiry_is_the_probe_and_resets_the_marker() {
    let mut b = CircuitBreaker::new(config(2, 50, 1, 1000, 100, true), 0);
    b.register_result(&fail(), 0);
    b.register_result(&fail(), 1);
    assert!(!b.check_command_allowed(2));
    assert_eq!(b.current_state(102), BreakerState::Probing);
    assert!(b.check_command_allowed(102));
    assert_eq!(b.open_time_ms(), None);
    assert_eq!(b.current_state(102), BreakerState::Closed);
}

#[test]
fn statistics_are_zero_immediately_after_a_trip() {
    let mut b = CircuitBreaker::new(config(2, 50, 1, 1000, 100, true), 0);
    b.register_result(&fail(), 0);
    b.register_result(&fail(), 1);
    assert_eq!(b.error_count(), 2);
    assert_eq!(b.error_percentage(), 100);
    assert!(!b.check_command_allowed(2));
    assert_eq!(b.error_count(), 0);
    assert_eq!(b.error_percentage(), 0);
    assert_eq!(b.total_count(), 0);
}

#[test]
fn disabled_breaker_bypasses_and_records_nothing() {
    let mut b = CircuitBreaker::new(config(2, 50, 1, 1000, 100, false), 0);
    assert_eq!(b.evaluate(0), CallDisposition::Bypass);
    assert_eq!(b.evaluate(1), CallDisposition::Bypass);
    assert_eq!(b.error_count(), 0);
    assert_eq!(b.total_count(), 0);
    assert_eq!(b.open_time_ms(), None);
}

#[test]
fn scenario_two_failures_trip_probe_recovers() {
    // threshold=2, percentage=50%, 1 bucket of 1000 ms, cooldown=100 ms
    let mut b = CircuitBreaker::new(config(2, 50, 1, 1000, 100, true), 0);
    // two failing calls, both allowed since the breaker starts closed
    assert_eq!(b.evaluate(0), CallDisposition::Allowed);
    b.register_result(&fail(), 0);
    assert_eq!(b.evaluate(1), CallDisposition::Allowed);
    b.register_result(&fail(), 1);
    // third call sees error_count=2 >= 2 and 100% >= 50%: trips, rejected
    assert_eq!(b.evaluate(2), CallDisposition::Rejected);
    assert_eq!(b.open_time_ms(), Some(2));
    // calls during the next 100 ms are rejected
    assert_eq!(b.evaluate(40), CallDisposition::Rejected);
    assert_eq!(b.evaluate(101), CallDisposition::Rejected);
    // once 100 ms elapse the probe is allowed, and it succeeds
    assert_eq!(b.evaluate(102), CallDisposition::Allowed);
    b.register_result(&succeed(), 102);
    // subsequent calls are evaluated fresh against the cleared statistics
    assert_eq!(b.evaluate(103), CallDisposition::Allowed);
    assert_eq!(b.error_count(), 0);
}

#[test]
fn tripping_evaluates_against_the_live_window_only() {
    // failures older than the window do not trip the breaker
    let mut b = CircuitBreaker::new(config(2, 50, 1, 1000, 100, true), 0);
    b.register_result(&fail(), 0);
    b.register_result(&fail(), 1);
    // a fresh outcome two slices later: the old failures aged out
    b.register_result(&succeed(), 2500);
    assert!(b.check_command_allowed(2500));
    assert_eq!(b.open_time_ms(), None);
}

#[test]
fn a_maximal_cooldown_keeps_the_circuit_open_forever() {
    let mut b = CircuitBreaker::new(config(2, 50, 1, 1000, u64::MAX, true), 0);
    b.register_result(&fail(), 0);
    b.register_result(&fail(), 1);
    assert!(!b.check_command_allowed(2));
    assert!(!b.check_command_allowed(u64::MAX));
    assert_eq!(b.current_state(u64::MAX), BreakerState::Open);
}

#[test]
fn timestamps_near_the_end_of_the_clock_still_count() {
    let far = u64::MAX - 500;
    let mut b = CircuitBreaker::new(config(2, 50, 10, 1000, 100, true), far);
    b.register_result(&fail(), far);
    b.register_result(&fail(), u64::MAX);
    assert_eq!(b.error_count(), 2);
    assert!(!b.check_command_allowed(u64::MAX));
    assert_eq!(b.open_time_ms(), Some(u64::MAX));
}

#[test]
fn negative_thresholds_always_count_as_met() {
    let mut b = CircuitBreaker::new(config(-1, -1, 1, 1000, 100, true), 0);
    // with both thresholds vacuous, the very first evaluation trips
    assert!(!b.check_command_allowed(0));
    assert_eq!(b.open_time_ms(), Some(0));
}
