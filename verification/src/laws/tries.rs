//! How often something is tried, and how long it is waited.

use crate::laws::parts::{holds, lemma_holds};
use crate::numbers::decimal;
use crate::retry::{
    after_end, after_failure, backoff, bounded_attempts, doubled, kept_failures, kept_state,
    refusal, refuses, seconds_left, CircuitState, RetryConfig, Standing,
};
use vstd::prelude::*;

verus! {

broadcast use vstd::string::group_string_axioms;

/// The first wait is the shortest one, each further one is twice as long as the one before, up to
/// ten times, and none is longer than the limit.
pub proof fn waits_double(base: u64, max: u64, attempt: nat)
    requires
        attempt >= 1,
    ensures
        backoff(base, max, 1) == if base <= max {
            base as int
        } else {
            max as int
        },
        attempt <= 10 ==> backoff(base, max, attempt + 1) == if 2 * backoff(base, max, attempt)
            <= max {
            2 * backoff(base, max, attempt)
        } else {
            max as int
        },
        attempt > 10 ==> backoff(base, max, attempt + 1) == backoff(base, max, attempt),
{
    let n = (attempt - 1) as nat;
    assert(doubled(0) == 1);
    assert(base * doubled(0) == base);
    if attempt <= 10 {
        assert(doubled((n + 1) as nat) == 2 * doubled(n));
        assert(base * doubled((n + 1) as nat) == 2 * (base * doubled(n))) by (nonlinear_arith)
            requires
                doubled((n + 1) as nat) == 2 * doubled(n),
        ;
        assert(base * doubled(n) >= 0) by (nonlinear_arith)
            requires
                doubled(n) >= 0,
                base >= 0,
        ;
    }
}

/// A request is tried as often as it asks, where that is between once and ten times and no more than
/// once and the retries that are configured.
pub proof fn attempts_are_as_asked(config: RetryConfig, asked: u32)
    ensures
        1 <= asked <= 10 && asked <= config.max_retries + 1 ==> bounded_attempts(config, asked)
            == asked,
        asked > config.max_retries + 1 && config.max_retries < 10 ==> bounded_attempts(config, asked)
            == config.max_retries + 1,
        asked >= 10 && config.max_retries >= 9 ==> bounded_attempts(config, asked) == 10,
        asked == 0 ==> bounded_attempts(config, asked) == 1,
{
}

/// Who is refused by an open breaker is told how many whole seconds are left.
pub proof fn refusal_tells_the_time(until: u64, mono: u64)
    requires
        mono < until,
    ensures
        refuses(CircuitState::Open { until }, false, mono),
        exists|k: nat| #[trigger]
            holds(refusal(CircuitState::Open { until }, mono), decimal(k)) && k * 1000 <= until
                - mono < (k + 1) * 1000,
{
    let s = CircuitState::Open { until };
    let k = seconds_left(s, mono);
    lemma_holds("service temporarily unavailable (circuit open, "@, decimal(k), "s cooldown)"@);
    assert(holds(refusal(s, mono), decimal(k)));
}

/// A closed breaker refuses nobody, and an open one nobody from its time on.
pub proof fn breaker_lets_through(until: u64, mono: u64, trial: bool)
    requires
        until <= mono,
    ensures
        !refuses(CircuitState::Closed, trial, mono),
        !refuses(CircuitState::Open { until }, trial, mono),
        !refuses(CircuitState::HalfOpen, false, mono),
        refuses(CircuitState::HalfOpen, true, mono),
{
}

/// A breaker that opens stays open for the time that is configured.
pub proof fn breaker_opens_for_its_time(
    config: RetryConfig,
    s: CircuitState,
    failures: u32,
    mono: u64,
)
    requires
        failures < u32::MAX,
        mono + config.circuit_breaker_cooldown_ms <= u64::MAX,
    ensures
        ({
            let (t, n) = after_failure(config, s, failures, mono);
            &&& n == failures + 1
            &&& n >= config.circuit_breaker_threshold || s == CircuitState::HalfOpen ==> t
                == CircuitState::Open { until: (mono + config.circuit_breaker_cooldown_ms) as u64 }
            &&& n < config.circuit_breaker_threshold && s != CircuitState::HalfOpen ==> t == s
        }),
{
}

/// A result that comes while another request is on trial counts, but does not decide.
pub proof fn late_results_do_not_decide(
    config: RetryConfig,
    s: Standing,
    success: bool,
    mono: u64,
)
    requires
        s.trial,
        s.failures < u32::MAX,
    ensures
        ({
            let t = after_end(config, s, false, success, mono);
            &&& t.circuit == s.circuit
            &&& t.trial
            &&& t.failures == if success {
                0
            } else {
                s.failures + 1
            }
        }),
        !after_end(config, s, true, success, mono).trial,
        after_end(config, s, true, true, mono).circuit == CircuitState::Closed,
{
}

/// What was kept of a breaker counts from the time it is read: an open one stays open for what is
/// left of its time.
pub proof fn kept_breaker_waits_on(until: i64, mono: u64, unix: u64, later: u64, failures: i64)
    requires
        unix <= i64::MAX,
        mono + i64::MAX <= u64::MAX,
        mono <= later,
    ensures
        refuses(kept_state("open"@, Some(until), mono, unix), false, later) <==> (later - mono
            < until - unix),
        kept_state("closed"@, Some(until), mono, unix) == CircuitState::Closed,
        kept_state("half-open"@, Some(until), mono, unix) == CircuitState::HalfOpen,
        0 <= failures <= u32::MAX ==> kept_failures(failures) == failures,
        failures < 0 ==> kept_failures(failures) == 0,
{
    reveal_strlit("open");
    reveal_strlit("half-open");
    reveal_strlit("closed");
    assert("open"@.len() == 4);
    assert("half-open"@.len() == 9);
    assert("closed"@.len() == 6);
}

} // verus!
