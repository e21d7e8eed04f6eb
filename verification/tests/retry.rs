use bn_agent::retry::{
    backoff_delay, restore_circuit, CircuitBreaker, CircuitState, Pass, RetryConfig, RetryRun,
    RetryStep,
};

const MONO: u64 = 1_000_000;
const UNIX: u64 = 1_700_000_000_000;

#[test]
fn persist_repr_closed_and_halfopen() {
    assert_eq!(CircuitState::Closed.persist_repr(MONO, UNIX), ("closed", None));
    assert_eq!(CircuitState::HalfOpen.persist_repr(MONO, UNIX), ("half-open", None));
}

#[test]
fn persist_repr_open_is_future_ms() {
    let state = CircuitState::Open { until: MONO + 50_000 };
    let (name, until) = state.persist_repr(MONO, UNIX);
    assert_eq!(name, "open");
    assert!(until.expect("open has until") > UNIX as i64);
    assert_eq!(until, Some(UNIX as i64 + 50_000));
}

#[test]
fn roundtrip_closed() {
    let (name, until) = CircuitState::Closed.persist_repr(MONO, UNIX);
    let (state, failures) = restore_circuit(name, until, 0, MONO, UNIX);
    assert_eq!(state.name(), "closed");
    assert_eq!(failures, 0);
}

#[test]
fn roundtrip_open_not_expired_restores_open() {
    let (name, until) = CircuitState::Open { until: MONO + 60_000 }.persist_repr(MONO, UNIX);
    let (restored, failures) = restore_circuit(name, until, 5, 40, UNIX + 1_000);
    assert_eq!(restored, CircuitState::Open { until: 40 + 59_000 });
    assert_eq!(failures, 5);
}

#[test]
fn open_expired_restores_halfopen() {
    let (restored, failures) = restore_circuit("open", Some(UNIX as i64 - 1000), 7, MONO, UNIX);
    assert_eq!(restored.name(), "half-open");
    assert_eq!(failures, 7);
}

#[test]
fn unknown_state_restores_closed_and_failures_are_not_negative() {
    let (restored, failures) = restore_circuit("odd", None, -3, MONO, UNIX);
    assert_eq!(restored, CircuitState::Closed);
    assert_eq!(failures, 0);
}

#[test]
fn settings_have_defaults() {
    assert_eq!(RetryConfig::from_settings(None, Some("x"), None, None, None), RetryConfig::default());
    let c = RetryConfig::from_settings(Some("7"), Some("5"), Some("9"), Some("2"), Some("1"));
    assert_eq!((c.max_retries, c.base_delay_ms, c.max_delay_ms), (7, 5, 9));
    assert_eq!((c.circuit_breaker_threshold, c.circuit_breaker_cooldown_ms), (2, 1));
}

const FREE: Pass = Pass { changed: false, trial: false };
const TRIAL: Pass = Pass { changed: true, trial: true };

#[test]
fn breaker_opens_refuses_and_tries_again() {
    let config = RetryConfig { circuit_breaker_threshold: 2, ..RetryConfig::default() };
    let mut b = CircuitBreaker::new(config, None);
    assert_eq!(b.let_through(0), Ok(FREE));
    b.on_result(false, false, 0);
    assert_eq!(b.circuit, CircuitState::Closed);
    b.on_result(false, false, 0);
    assert_eq!(b.circuit, CircuitState::Open { until: 60_000 });
    assert_eq!(
        b.let_through(1),
        Err("service temporarily unavailable (circuit open, 59s cooldown)".to_string())
    );
    assert_eq!(b.let_through(60_000), Ok(TRIAL));
    assert_eq!(b.circuit, CircuitState::HalfOpen);
    assert_eq!(
        b.let_through(60_001),
        Err("service temporarily unavailable (circuit open, 0s cooldown)".to_string())
    );
    b.on_result(true, false, 60_000);
    assert_eq!(b.circuit, CircuitState::Open { until: 120_000 });
    assert_eq!(b.let_through(120_000), Ok(TRIAL));
    b.on_result(true, true, 120_000);
    assert_eq!(b.describe(), "circuit=closed, consecutive_failures=0");
}

#[test]
fn late_results_do_not_end_the_trial() {
    let config = RetryConfig { circuit_breaker_threshold: 1, ..RetryConfig::default() };
    let mut b = CircuitBreaker::new(config, None);
    for _ in 0..3 {
        assert_eq!(b.let_through(0), Ok(FREE));
    }
    b.on_result(false, false, 0);
    assert_eq!(b.let_through(60_000), Ok(TRIAL));
    b.on_result(false, false, 60_001);
    assert_eq!((b.circuit, b.consecutive_failures), (CircuitState::HalfOpen, 2));
    assert!(b.let_through(200_000).is_err());
    b.on_result(false, true, 200_001);
    assert_eq!((b.circuit, b.consecutive_failures), (CircuitState::HalfOpen, 0));
    assert!(b.let_through(200_002).is_err());
    b.on_result(true, false, 200_003);
    assert_eq!(b.circuit, CircuitState::Open { until: 260_003 });
}

#[test]
fn breaker_kept_on_trial_tries_again() {
    let mut b = CircuitBreaker::new(RetryConfig::default(), Some((CircuitState::HalfOpen, 5)));
    assert_eq!(b.let_through(0), Ok(Pass { changed: false, trial: true }));
    assert!(b.let_through(1).is_err());
    b.on_result(true, true, 2);
    assert_eq!(b.let_through(3), Ok(FREE));
}

#[test]
fn waits_double_up_to_the_limit() {
    assert_eq!(backoff_delay(1000, 30_000, 1), 1000);
    assert_eq!(backoff_delay(1000, 30_000, 2), 2000);
    assert_eq!(backoff_delay(1000, 30_000, 5), 16_000);
    assert_eq!(backoff_delay(1000, 30_000, 6), 30_000);
    assert_eq!(backoff_delay(1, u64::MAX, 40), 1024);
    assert_eq!(backoff_delay(u64::MAX, 7, 3), 7);
}

#[test]
fn retries_end_with_the_last_error() {
    let mut run = RetryRun::new(&RetryConfig::default(), 2);
    assert_eq!(run.on_failure("a"), RetryStep::Wait { delay_ms: 1000 });
    assert_eq!(
        run.on_failure("b"),
        RetryStep::GiveUp("retry exhausted after 2 attempts: b".to_string())
    );
    let mut once = RetryRun::new(&RetryConfig::default(), 0);
    assert_eq!(
        once.on_failure("c"),
        RetryStep::GiveUp("retry exhausted after 1 attempts: c".to_string())
    );
}

#[test]
fn configuration_bounds_the_attempts() {
    let config = RetryConfig { max_retries: 1, ..RetryConfig::default() };
    let mut run = RetryRun::new(&config, 5);
    assert_eq!(run.on_failure("a"), RetryStep::Wait { delay_ms: 1000 });
    assert_eq!(
        run.on_failure("b"),
        RetryStep::GiveUp("retry exhausted after 2 attempts: b".to_string())
    );
    let never = RetryConfig { max_retries: 0, ..RetryConfig::default() };
    assert!(matches!(RetryRun::new(&never, 3).on_failure("c"), RetryStep::GiveUp(_)));
    let always = RetryConfig { max_retries: u32::MAX, ..RetryConfig::default() };
    let mut run = RetryRun::new(&always, 50);
    for _ in 0..9 {
        assert!(matches!(run.on_failure("d"), RetryStep::Wait { .. }));
    }
    assert!(matches!(run.on_failure("d"), RetryStep::GiveUp(_)));
}

#[test]
fn success_between_failures_keeps_the_breaker_closed() {
    let config = RetryConfig { circuit_breaker_threshold: 3, ..RetryConfig::default() };
    let mut b = CircuitBreaker::new(config, None);
    for success in [false, false, true, false, false] {
        assert_eq!(b.let_through(0), Ok(FREE));
        b.on_result(false, success, 0);
    }
    assert_eq!((b.circuit, b.consecutive_failures), (CircuitState::Closed, 2));
    assert_eq!(b.let_through(0), Ok(FREE));
    b.on_result(false, false, 7);
    assert_eq!((b.circuit, b.consecutive_failures), (CircuitState::Open { until: 60_007 }, 3));
    assert!(b.let_through(60_006).is_err());
    assert_eq!((b.circuit, b.consecutive_failures), (CircuitState::Open { until: 60_007 }, 3));
}
