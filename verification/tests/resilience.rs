use scry_proxy::resilience::circuit_breaker::{
    CircuitBreaker, CircuitBreakerConfig, CircuitState, HealthMonitor, HealthStatus,
};
use scry_proxy::resilience::errors::{CircuitBreakerError, RetryError};
use scry_proxy::resilience::healthcheck::{ActiveHealthcheck, HealthcheckConfig, ProbeOutcome};
use scry_proxy::resilience::retry::{
    ConnectionRetryConfig, RetryState, RetryStep, RetryStrategy,
};
use scry_proxy::time::{seconds_of, unix_seconds, unix_seconds_at};
use std::time::{Duration, UNIX_EPOCH};

fn config(failure_threshold: u32, open_timeout_secs: u64) -> CircuitBreakerConfig {
    CircuitBreakerConfig {
        enabled: true,
        failure_threshold,
        success_threshold: 2,
        window_secs: 30,
        open_timeout_secs,
        use_health_monitor: false,
    }
}

#[test]
fn test_report_health_gates_the_breaker() {
    let mut cb = CircuitBreaker::new(config(100, 60), None);
    assert_eq!(cb.get_state(), CircuitState::Closed);

    // A healthy probe on a closed breaker is a no-op.
    cb.report_health(true);
    assert_eq!(cb.get_state(), CircuitState::Closed);

    // An unhealthy probe opens the breaker proactively and sheds traffic.
    cb.report_health(false);
    assert_eq!(cb.get_state(), CircuitState::Open);
    assert!(cb.allow_request().is_err(), "open breaker must shed requests");

    // A healthy probe on an open breaker starts recovery (half-open).
    cb.report_health(true);
    assert_eq!(cb.get_state(), CircuitState::HalfOpen);
}

#[test]
fn test_circuit_breaker_creation() {
    let cb = CircuitBreaker::new(config(5, 60), None);
    assert_eq!(cb.get_state(), CircuitState::Closed);

    let metrics = cb.get_metrics();
    assert_eq!(metrics.state, "closed");
    assert_eq!(metrics.consecutive_failures, 0);
    assert_eq!(metrics.requests_allowed, 0);
    assert_eq!(metrics.requests_rejected, 0);
}

#[test]
fn test_circuit_breaker_disabled() {
    let config = CircuitBreakerConfig {
        enabled: false,
        failure_threshold: 1,
        success_threshold: 1,
        window_secs: 30,
        open_timeout_secs: 60,
        use_health_monitor: false,
    };

    let mut cb = CircuitBreaker::new(config, None);

    // Should allow requests even after failures
    assert!(cb.allow_request().is_ok());
    cb.record_failure();
    cb.record_failure();
    cb.record_failure();
    assert!(cb.allow_request().is_ok());

    // State should remain closed
    assert_eq!(cb.get_state(), CircuitState::Closed);
}

#[test]
fn test_transition_closed_to_open() {
    let mut cb = CircuitBreaker::new(config(3, 60), None);

    // Initially closed
    assert_eq!(cb.get_state(), CircuitState::Closed);
    assert!(cb.allow_request().is_ok());

    // Record failures
    cb.record_failure();
    assert_eq!(cb.get_state(), CircuitState::Closed);

    cb.record_failure();
    assert_eq!(cb.get_state(), CircuitState::Closed);

    // Third failure should open circuit
    cb.record_failure();
    assert_eq!(cb.get_state(), CircuitState::Open);

    // Requests should be rejected
    assert!(cb.allow_request().is_err());

    let metrics = cb.get_metrics();
    assert_eq!(metrics.state, "open");
    assert!(metrics.requests_rejected > 0);
}

#[test]
fn test_transition_open_to_half_open_to_closed() {
    let mut cb = CircuitBreaker::new_at(config(2, 1), None, 100);

    // Open the circuit
    cb.record_failure_at(100);
    cb.record_failure_at(100);
    assert_eq!(cb.get_state(), CircuitState::Open);

    // After the timeout it should transition to half-open
    assert!(cb.allow_request_at(102).is_ok());
    assert_eq!(cb.get_state(), CircuitState::HalfOpen);

    // Record successes
    cb.record_success_at(102);
    assert_eq!(cb.get_state(), CircuitState::HalfOpen);

    cb.record_success_at(102);
    // Should now be closed
    assert_eq!(cb.get_state(), CircuitState::Closed);
}

#[test]
fn test_transition_half_open_to_open_on_failure() {
    let mut cb = CircuitBreaker::new_at(config(2, 1), None, 100);

    // Open the circuit
    cb.record_failure_at(100);
    cb.record_failure_at(100);
    assert_eq!(cb.get_state(), CircuitState::Open);

    // After the timeout it should transition to half-open
    assert!(cb.allow_request_at(102).is_ok());
    assert_eq!(cb.get_state(), CircuitState::HalfOpen);

    // Single failure should reopen circuit
    cb.record_failure_at(102);
    assert_eq!(cb.get_state(), CircuitState::Open);
}

#[test]
fn test_success_resets_failures_in_closed_state() {
    let mut cb = CircuitBreaker::new(config(5, 60), None);

    // Record some failures
    cb.record_failure();
    cb.record_failure();

    let metrics = cb.get_metrics();
    assert_eq!(metrics.consecutive_failures, 2);

    // Success should reset failure counter
    cb.record_success();

    let metrics = cb.get_metrics();
    assert_eq!(metrics.consecutive_failures, 0);
    assert_eq!(cb.get_state(), CircuitState::Closed);
}

#[test]
fn open_breaker_sheds_until_its_timeout() {
    let mut cb = CircuitBreaker::new_at(config(1, 10), None, 100);
    cb.record_failure_at(100);
    assert!(cb.allow_request_at(109).is_err());
    assert!(cb.allow_request_at(110).is_ok());
    let metrics = cb.get_metrics();
    assert_eq!(metrics.requests_rejected, 1);
    assert_eq!(metrics.requests_allowed, 1);
    assert_eq!(metrics.state, "half_open");
    assert_eq!(metrics.last_state_change_secs, 110);
}

#[test]
fn unhealthy_backend_is_shed_where_health_is_watched() {
    let watched = CircuitBreakerConfig { use_health_monitor: true, ..config(5, 10) };
    let monitor = HealthMonitor { status: HealthStatus::Healthy };
    let mut cb = CircuitBreaker::new_at(watched, Some(monitor), 0);
    cb.record_failure_at(1);
    assert_eq!(cb.get_state(), CircuitState::Closed);
    cb.set_health_status(HealthStatus::Unhealthy);
    cb.record_failure_at(2);
    assert_eq!(cb.get_state(), CircuitState::Open);
    assert!(cb.allow_request_at(3).is_err());
}

#[test]
fn states_are_read_from_numbers() {
    assert_eq!(CircuitState::from(0), CircuitState::Closed);
    assert_eq!(CircuitState::from(1), CircuitState::Open);
    assert_eq!(CircuitState::from(2), CircuitState::HalfOpen);
    assert_eq!(CircuitState::from(9), CircuitState::Closed);
    assert_eq!(CircuitState::Closed.as_str(), "closed");
    assert_eq!(CircuitState::Open.as_str(), "open");
    assert_eq!(CircuitState::HalfOpen.as_str(), "half_open");
}

#[test]
fn clock_of_the_system_is_read() {
    // The clock stands long after the year 2001.
    let cb = CircuitBreaker::new(config(1, 1), None);
    assert!(cb.get_metrics().last_state_change_secs > 1_000_000_000);
}

#[test]
fn errors_have_their_texts() {
    assert!(CircuitBreakerError::CircuitOpen.message().contains("Circuit breaker is open"));
    assert!(RetryError::RetriesExhausted("why".to_string()).message().contains("why"));
}

fn healthcheck_config(active_enabled: bool) -> HealthcheckConfig {
    HealthcheckConfig { active_enabled, interval_secs: 30, timeout_ms: 1000, failure_threshold: 3 }
}

#[test]
fn test_healthcheck_creation() {
    let healthcheck = ActiveHealthcheck::new(healthcheck_config(true));

    assert!(healthcheck.is_healthy());
    assert_eq!(healthcheck.consecutive_failures(), 0);
}

#[test]
fn test_healthcheck_disabled() {
    let healthcheck = ActiveHealthcheck::new(healthcheck_config(false));

    assert!(healthcheck.is_healthy());
}

#[test]
fn backend_is_unhealthy_after_as_many_failures_as_the_threshold() {
    let mut hc = ActiveHealthcheck::new(healthcheck_config(true));
    assert_eq!(hc.probe_timeout_ms(), Some(1000));
    hc.check(ProbeOutcome::Failed);
    hc.check(ProbeOutcome::Error);
    assert!(hc.is_healthy());
    assert_eq!(hc.consecutive_failures(), 2);
    assert!(!hc.check(ProbeOutcome::TimedOut));
    assert!(!hc.is_healthy());
    assert!(hc.check(ProbeOutcome::Passed));
    assert!(hc.is_healthy());
    assert_eq!(hc.consecutive_failures(), 0);
}

#[test]
fn disabled_healthcheck_does_not_probe() {
    assert_eq!(ActiveHealthcheck::new(healthcheck_config(false)).probe_timeout_ms(), None);
}

fn retry_config(enabled: bool, max_attempts: u32) -> ConnectionRetryConfig {
    ConnectionRetryConfig { enabled, max_attempts, initial_backoff_ms: 10, max_backoff_ms: 100 }
}

#[test]
fn test_retry_disabled() {
    let strategy = RetryStrategy::new(retry_config(false, 3));
    let state = strategy.begin();

    // Should only call once since retries are disabled
    assert!(matches!(strategy.failed(state, true, 0, 20), RetryStep::GiveUp));
}

#[test]
fn test_retry_succeeds_on_second_attempt() {
    let strategy = RetryStrategy::new(retry_config(true, 3));
    let state = strategy.begin();
    match strategy.failed(state, true, 1, 20) {
        RetryStep::RetryAfter { delay_ms, next } => {
            assert_eq!(delay_ms, 11);
            assert_eq!(next.attempts, 1);
            assert_eq!(next.backoff_ms, 20);
        }
        RetryStep::GiveUp => panic!("should be tried again"),
    }
}

#[test]
fn test_retry_exhausts_attempts() {
    let strategy = RetryStrategy::new(retry_config(true, 3));
    let mut state = strategy.begin();
    let mut calls = 1;
    while let RetryStep::RetryAfter { next, .. } =
        strategy.failed(state, true, 0, state.backoff_ms * 2)
    {
        state = next;
        calls += 1;
    }

    // Should call max_attempts times
    assert_eq!(calls, 3);
}

#[test]
fn error_that_is_not_worth_it_is_not_retried() {
    let strategy = RetryStrategy::new(retry_config(true, 3));
    assert!(matches!(strategy.failed(strategy.begin(), false, 0, 20), RetryStep::GiveUp));
}

#[test]
fn test_jitter_calculation() {
    let strategy = RetryStrategy::new(ConnectionRetryConfig {
        enabled: true,
        max_attempts: 3,
        initial_backoff_ms: 100,
        max_backoff_ms: 5000,
    });
    let jitter_factor: f64 = 0.1;
    let range = (100_f64 * jitter_factor) as u64;

    // Jitter should be 0-10ms for base 100ms
    for _ in 0..10 {
        let jitter = strategy.calculate_jitter(range);
        assert!(jitter <= 10, "jitter {} should be <= 10", jitter);
    }
    assert_eq!(strategy.calculate_jitter(0), 0);
}

#[test]
fn jitter_is_drawn_and_not_the_range_itself() {
    let strategy = RetryStrategy::new(retry_config(true, 3));
    let drawn: Vec<u64> = (0..50).map(|_| strategy.calculate_jitter(1_000_000)).collect();
    assert!(drawn.iter().any(|j| *j != 1_000_000));
    assert!(drawn.iter().all(|j| *j <= 1_000_000));
}

#[test]
fn test_backoff_calculation() {
    let config = ConnectionRetryConfig {
        enabled: true,
        max_attempts: 5,
        initial_backoff_ms: 50,
        max_backoff_ms: 500,
    };
    let backoff_multiplier: f64 = 2.0;
    let strategy = RetryStrategy::new(config);

    // Backoff progression: 50, 100, 200, 400, 500 (capped)
    let expected_backoffs = vec![50, 100, 200, 400, 500];

    let mut backoff = strategy.begin().backoff_ms;
    for (i, expected) in expected_backoffs.iter().enumerate() {
        assert_eq!(backoff, *expected, "Backoff at attempt {}", i);

        // Calculate next backoff
        backoff = strategy.next_backoff(((backoff as f64) * backoff_multiplier) as u64);
    }
}

#[test]
fn seconds_are_whole_and_never_negative() {
    let later = UNIX_EPOCH + Duration::from_millis(2999);
    assert_eq!(seconds_of(later.duration_since(UNIX_EPOCH)), 2);
    assert_eq!(seconds_of(UNIX_EPOCH.duration_since(later)), 0);
    assert_eq!(unix_seconds_at(later), 2);
    assert_eq!(unix_seconds_at(UNIX_EPOCH), 0);
    assert_eq!(unix_seconds_at(UNIX_EPOCH - Duration::from_secs(5)), 0);
    assert!(unix_seconds() > 1_600_000_000);
}

#[test]
fn pause_that_is_not_made_may_be_of_any_length() {
    let strategy = RetryStrategy::new(ConnectionRetryConfig {
        enabled: true,
        max_attempts: 3,
        initial_backoff_ms: u64::MAX,
        max_backoff_ms: u64::MAX,
    });
    let first = strategy.begin();
    assert!(strategy.will_retry(first, true));
    assert!(!strategy.will_retry(first, false));
    assert_eq!(strategy.failed(first, false, 5, 0), RetryStep::GiveUp);
    let last = RetryState { attempts: u32::MAX, ..first };
    assert!(!strategy.will_retry(last, true));
    assert_eq!(strategy.failed(last, true, 5, 0), RetryStep::GiveUp);
}

#[test]
fn successes_are_counted_only_while_half_open() {
    let mut cb = CircuitBreaker::new_at(config(1, 60), None, 100);
    cb.record_success_at(100);
    assert_eq!(cb.get_metrics().consecutive_successes, 0);
    cb.record_failure_at(100);
    assert!(cb.allow_request_at(160).is_ok());
    cb.record_success_at(160);
    assert_eq!(cb.get_metrics().clone().consecutive_successes, 1);
    cb.record_success_at(160);
    assert_eq!(cb.get_state(), CircuitState::Closed);
    assert_eq!(cb.get_metrics().consecutive_successes, 0);
}
