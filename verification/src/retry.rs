//! Trying again, and a circuit breaker that stops trying for a while.
//!
//! Times are milliseconds. `mono` is a clock that never goes back; `unix` is the time of day, which
//! survives a restart.

use crate::numbers::{decimal, opt_str, push_decimal, setting, setting_u32, setting_u64};
use crate::text::same;
use vstd::prelude::*;

verus! {

broadcast use vstd::string::group_string_axioms;

/// How often and how fast to try again, and when to stop trying.
#[derive(Debug, Clone, Copy, PartialEq, Eq, Structural)]
pub struct RetryConfig {
    pub max_retries: u32,
    pub base_delay_ms: u64,
    pub max_delay_ms: u64,
    pub circuit_breaker_threshold: u32,
    pub circuit_breaker_cooldown_ms: u64,
}

/// The configuration where nothing is set.
pub open spec fn default_retry() -> RetryConfig {
    RetryConfig {
        max_retries: 3,
        base_delay_ms: 1_000,
        max_delay_ms: 30_000,
        circuit_breaker_threshold: 5,
        circuit_breaker_cooldown_ms: 60_000,
    }
}

impl Default for RetryConfig {
    fn default() -> (r: Self)
        ensures
            r == default_retry(),
    {
        RetryConfig {
            max_retries: 3,
            base_delay_ms: 1_000,
            max_delay_ms: 30_000,
            circuit_breaker_threshold: 5,
            circuit_breaker_cooldown_ms: 60_000,
        }
    }
}

impl RetryConfig {
    /// The configuration that five settings give; each that is missing or no number has its
    /// default.
    pub fn from_settings(
        max_retries: Option<&str>,
        base_delay_ms: Option<&str>,
        max_delay_ms: Option<&str>,
        threshold: Option<&str>,
        cooldown_ms: Option<&str>,
    ) -> (r: Self)
        ensures
            r.max_retries == setting(opt_str(max_retries), u32::MAX as nat, 3),
            r.base_delay_ms == setting(opt_str(base_delay_ms), u64::MAX as nat, 1_000),
            r.max_delay_ms == setting(opt_str(max_delay_ms), u64::MAX as nat, 30_000),
            r.circuit_breaker_threshold == setting(opt_str(threshold), u32::MAX as nat, 5),
            r.circuit_breaker_cooldown_ms == setting(opt_str(cooldown_ms), u64::MAX as nat, 60_000),
    {
        RetryConfig {
            max_retries: setting_u32(max_retries, 3),
            base_delay_ms: setting_u64(base_delay_ms, 1_000),
            max_delay_ms: setting_u64(max_delay_ms, 30_000),
            circuit_breaker_threshold: setting_u32(threshold, 5),
            circuit_breaker_cooldown_ms: setting_u64(cooldown_ms, 60_000),
        }
    }
}

/// Where the breaker stands.
#[derive(Debug, Clone, Copy, PartialEq, Eq, Structural)]
pub enum CircuitState {
    /// Requests pass.
    Closed,
    /// Requests are refused until the time.
    Open { until: u64 },
    /// One request passes, on trial.
    HalfOpen,
}

/// The name of a state.
pub open spec fn state_name(s: CircuitState) -> Seq<char> {
    match s {
        CircuitState::Closed => "closed"@,
        CircuitState::Open { .. } => "open"@,
        CircuitState::HalfOpen => "half-open"@,
    }
}

/// How long a breaker stays open.
pub open spec fn remaining(until: u64, mono: u64) -> int {
    if until > mono {
        until - mono
    } else {
        0
    }
}

/// The time of day until which a breaker stays open.
pub open spec fn open_until(s: CircuitState, mono: u64, unix: u64) -> Option<int> {
    match s {
        CircuitState::Open { until } => Some(unix + remaining(until, mono)),
        _ => None,
    }
}

impl CircuitState {
    /// The name of the state.
    pub fn name(&self) -> (r: &'static str)
        ensures
            r@ == state_name(*self),
    {
        match self {
            CircuitState::Closed => "closed",
            CircuitState::Open { .. } => "open",
            CircuitState::HalfOpen => "half-open",
        }
    }

    /// What is kept of the state: its name and, where it is open, the time of day until which.
    pub fn persist_repr(&self, mono: u64, unix: u64) -> (r: (&'static str, Option<i64>))
        requires
            open_until(*self, mono, unix) matches Some(t) ==> t <= i64::MAX,
        ensures
            r.0@ == state_name(*self),
            match r.1 {
                Some(t) => open_until(*self, mono, unix) == Some(t as int),
                None => open_until(*self, mono, unix) is None,
            },
    {
        match self {
            CircuitState::Closed => ("closed", None),
            CircuitState::HalfOpen => ("half-open", None),
            CircuitState::Open { until } => {
                let left: u64 = if *until > mono {
                    *until - mono
                } else {
                    0
                };
                ("open", Some((unix + left) as i64))
            },
        }
    }
}

/// The state that was kept: one whose time is over is on trial.
pub open spec fn kept_state(
    name: Seq<char>,
    until: Option<i64>,
    mono: u64,
    unix: u64,
) -> CircuitState {
    if name == "open"@ {
        match until {
            Some(t) if t > unix => CircuitState::Open { until: (mono + (t - unix)) as u64 },
            _ => CircuitState::HalfOpen,
        }
    } else if name == "half-open"@ {
        CircuitState::HalfOpen
    } else {
        CircuitState::Closed
    }
}

/// The number of failures that was kept: none where it is negative; it is cut to 32 bits.
pub open spec fn kept_failures(failures: i64) -> u32 {
    if failures < 0 {
        0
    } else {
        failures as u32
    }
}

/// Reads back what was kept of the breaker.
pub fn restore_circuit(
    name: &str,
    until: Option<i64>,
    failures: i64,
    mono: u64,
    unix: u64,
) -> (r: (CircuitState, u32))
    requires
        unix <= i64::MAX,
        mono + i64::MAX <= u64::MAX,
    ensures
        r.0 == kept_state(name@, until, mono, unix),
        r.1 == kept_failures(failures),
{
    let state = if same(name, "open") {
        match until {
            Some(t) => {
                if t > unix as i64 {
                    CircuitState::Open { until: mono + (t - unix as i64) as u64 }
                } else {
                    CircuitState::HalfOpen
                }
            },
            None => CircuitState::HalfOpen,
        }
    } else if same(name, "half-open") {
        CircuitState::HalfOpen
    } else {
        CircuitState::Closed
    };
    let count: u32 = if failures < 0 {
        0
    } else {
        #[verifier::truncate]
        (failures as u32)
    };
    (state, count)
}

/// The breaker, whether a request is on trial, and how many requests have failed in a row.
pub struct CircuitBreaker {
    pub config: RetryConfig,
    pub circuit: CircuitState,
    pub trial: bool,
    pub consecutive_failures: u32,
}

/// A request that has been let through.
#[derive(Debug, Clone, Copy, PartialEq, Eq, Structural)]
pub struct Pass {
    /// Whether the state of the breaker has changed.
    pub changed: bool,
    /// Whether the request is on trial.
    pub trial: bool,
}

/// The model of where a [`CircuitBreaker`] stands.
pub ghost struct Standing {
    pub circuit: CircuitState,
    /// Whether a request is on trial and its result has not come.
    pub trial: bool,
    pub failures: u32,
}

/// What holds of a breaker at all times: a request is on trial only while the breaker is half open.
pub open spec fn standing_sound(s: Standing) -> bool {
    s.trial ==> s.circuit == CircuitState::HalfOpen
}

/// Whether a request is refused: until the time is over, and while another is on trial.
pub open spec fn refuses(s: CircuitState, trial: bool, mono: u64) -> bool {
    match s {
        CircuitState::Open { until } => mono < until,
        CircuitState::HalfOpen => trial,
        CircuitState::Closed => false,
    }
}

/// How many whole seconds of its time are left to a breaker.
pub open spec fn seconds_left(s: CircuitState, mono: u64) -> nat {
    match s {
        CircuitState::Open { until } => (remaining(until, mono) / 1000) as nat,
        _ => 0,
    }
}

/// What a refused request is answered.
pub open spec fn refusal(s: CircuitState, mono: u64) -> Seq<char> {
    "service temporarily unavailable (circuit open, "@ + decimal(seconds_left(s, mono))
        + "s cooldown)"@
}

fn refusal_text(seconds: u64) -> (r: String)
    ensures
        r@ == "service temporarily unavailable (circuit open, "@ + decimal(seconds as nat)
            + "s cooldown)"@,
{
    let mut e = "service temporarily unavailable (circuit open, ".to_owned();
    push_decimal(&mut e, seconds);
    e.append("s cooldown)");
    e
}

/// The state once a request has been let through: one that was open is on trial.
pub open spec fn admitted(s: CircuitState) -> CircuitState {
    match s {
        CircuitState::Open { .. } => CircuitState::HalfOpen,
        other => other,
    }
}

/// The state and the number of failures after a request that failed: open where there are enough
/// failures in a row, or the request was on trial.
pub open spec fn after_failure(
    config: RetryConfig,
    s: CircuitState,
    failures: u32,
    mono: u64,
) -> (CircuitState, u32) {
    let n = (failures + 1) as u32;
    (
        if n >= config.circuit_breaker_threshold || s == CircuitState::HalfOpen {
            CircuitState::Open { until: (mono + config.circuit_breaker_cooldown_ms) as u64 }
        } else {
            s
        },
        n,
    )
}

/// The state and the number of failures after a request that was let through: one that succeeded
/// closes the breaker.
pub open spec fn after_outcome(
    config: RetryConfig,
    s: CircuitState,
    failures: u32,
    success: bool,
    mono: u64,
) -> (CircuitState, u32) {
    if success {
        (CircuitState::Closed, 0)
    } else {
        after_failure(config, s, failures, mono)
    }
}

/// Where the breaker stands once a request has been let through.
pub open spec fn after_pass(s: Standing) -> Standing {
    Standing {
        circuit: admitted(s.circuit),
        trial: admitted(s.circuit) == CircuitState::HalfOpen,
        failures: s.failures,
    }
}

/// Whether a result comes late: another request is on trial.
pub open spec fn comes_late(s: Standing, trial: bool) -> bool {
    s.trial && !trial
}

/// Where the breaker stands after the result of a request that was let through. One that comes late
/// counts among the failures, but only the request on trial decides where the breaker stands.
pub open spec fn after_end(
    config: RetryConfig,
    s: Standing,
    trial: bool,
    success: bool,
    mono: u64,
) -> Standing {
    let (circuit, failures) = after_outcome(config, s.circuit, s.failures, success, mono);
    if comes_late(s, trial) {
        Standing { failures, ..s }
    } else {
        Standing { circuit, trial: false, failures }
    }
}

impl CircuitBreaker {
    /// Where the breaker stands.
    pub open spec fn standing(&self) -> Standing {
        Standing {
            circuit: self.circuit,
            trial: self.trial,
            failures: self.consecutive_failures,
        }
    }

    /// A breaker in the given state.
    pub fn new(config: RetryConfig, kept: Option<(CircuitState, u32)>) -> (r: Self)
        ensures
            r.config == config,
            !r.trial,
            (r.circuit, r.consecutive_failures) == (match kept {
                Some(k) => k,
                None => (CircuitState::Closed, 0u32),
            }),
    {
        match kept {
            Some((circuit, consecutive_failures)) => CircuitBreaker {
                config,
                circuit,
                trial: false,
                consecutive_failures,
            },
            None => CircuitBreaker {
                config,
                circuit: CircuitState::Closed,
                trial: false,
                consecutive_failures: 0,
            },
        }
    }

    /// Lets a request through or refuses it. Whoever is let through hands in, with the result,
    /// whether the request was on trial.
    pub fn let_through(&mut self, mono: u64) -> (r: Result<Pass, String>)
        ensures
            final(self).config == old(self).config,
            match r {
                Err(e) => {
                    &&& refuses(old(self).circuit, old(self).trial, mono)
                    &&& e@ == refusal(old(self).circuit, mono)
                    &&& final(self).standing() == old(self).standing()
                },
                Ok(pass) => {
                    &&& !refuses(old(self).circuit, old(self).trial, mono)
                    &&& final(self).standing() == after_pass(old(self).standing())
                    &&& pass.trial == final(self).trial
                    &&& pass.changed == (final(self).circuit != old(self).circuit)
                },
            },
    {
        match self.circuit {
            CircuitState::Open { until } => {
                if mono < until {
                    let left: u64 = (until - mono) / 1000;
                    return Err(refusal_text(left));
                }
                self.circuit = CircuitState::HalfOpen;
                self.trial = true;
                Ok(Pass { changed: true, trial: true })
            },
            CircuitState::HalfOpen => {
                if self.trial {
                    return Err(refusal_text(0));
                }
                self.trial = true;
                Ok(Pass { changed: false, trial: true })
            },
            CircuitState::Closed => {
                self.trial = false;
                Ok(Pass { changed: false, trial: false })
            },
        }
    }

    /// Takes the result of a request that was let through; `trial` says whether it was on trial.
    pub fn on_result(&mut self, trial: bool, success: bool, mono: u64)
        requires
            !success ==> old(self).consecutive_failures < u32::MAX,
            !success && !comes_late(old(self).standing(), trial) ==> mono
                + old(self).config.circuit_breaker_cooldown_ms <= u64::MAX,
        ensures
            final(self).config == old(self).config,
            final(self).standing() == after_end(
                old(self).config,
                old(self).standing(),
                trial,
                success,
                mono,
            ),
    {
        self.consecutive_failures = if success {
            0
        } else {
            self.consecutive_failures + 1
        };
        if self.trial && !trial {
            return;
        }
        self.trial = false;
        if success {
            self.circuit = CircuitState::Closed;
            return;
        }
        if self.consecutive_failures >= self.config.circuit_breaker_threshold || self.circuit
            == CircuitState::HalfOpen {
            self.circuit = CircuitState::Open {
                until: mono + self.config.circuit_breaker_cooldown_ms,
            };
        }
    }

    /// A line on where the breaker stands.
    pub fn describe(&self) -> (r: String)
        ensures
            r@ == "circuit="@ + state_name(self.circuit) + ", consecutive_failures="@ + decimal(
                self.consecutive_failures as nat,
            ),
    {
        let mut out = "circuit=".to_owned();
        out.append(self.circuit.name());
        out.append(", consecutive_failures=");
        push_decimal(&mut out, self.consecutive_failures as u64);
        out
    }
}

/// Two to the power of `n`.
pub open spec fn doubled(n: nat) -> nat
    decreases n,
{
    if n == 0 {
        1
    } else {
        2 * doubled((n - 1) as nat)
    }
}

/// How long to wait after the given attempt: twice as long each time, up to ten times, and no longer
/// than the limit.
pub open spec fn backoff(base: u64, max: u64, attempt: nat) -> int {
    let n: nat = if attempt <= 1 {
        0
    } else if attempt - 1 > 10 {
        10
    } else {
        (attempt - 1) as nat
    };
    let delay = base * doubled(n);
    if delay > max {
        max as int
    } else {
        delay
    }
}

proof fn lemma_doubled_bound(n: nat)
    requires
        n <= 10,
    ensures
        1 <= doubled(n) <= 1024,
    decreases n,
{
    reveal_with_fuel(doubled, 11);
}

/// How long to wait after the given attempt.
pub fn backoff_delay(base: u64, max: u64, attempt: u32) -> (r: u64)
    ensures
        r == backoff(base, max, attempt as nat),
{
    let n: u32 = if attempt <= 1 {
        0
    } else if attempt - 1 > 10 {
        10
    } else {
        attempt - 1
    };
    let mut factor: u64 = 1;
    let mut i: u32 = 0;
    while i < n
        invariant
            i <= n <= 10,
            factor == doubled(i as nat),
        decreases n - i,
    {
        proof {
            lemma_doubled_bound(i as nat);
        }
        factor = factor * 2;
        i = i + 1;
    }
    match base.checked_mul(factor) {
        Some(delay) => {
            if delay > max {
                max
            } else {
                delay
            }
        },
        None => max,
    }
}

/// A request that is tried until it succeeds or has been tried often enough.
pub struct RetryRun {
    attempt: u32,
    max_retries: u32,
    base_delay_ms: u64,
    max_delay_ms: u64,
}

/// What to do after an attempt that failed.
#[derive(Debug, PartialEq)]
pub enum RetryStep {
    /// Wait so long, and try again.
    Wait { delay_ms: u64 },
    /// Give up with the error.
    GiveUp(String),
}

/// How often a request is tried: at least once and at most ten times.
pub open spec fn allowed_attempts(asked: u32) -> u32 {
    if asked > 10 {
        10
    } else if asked < 1 {
        1
    } else {
        asked
    }
}

/// How often a request may be tried at most: once, and as often again as is configured.
pub open spec fn configured_attempts(config: RetryConfig) -> u32 {
    if config.max_retries == u32::MAX {
        u32::MAX
    } else {
        (config.max_retries + 1) as u32
    }
}

/// How often a request is tried that asks for so many attempts, within what is configured.
pub open spec fn bounded_attempts(config: RetryConfig, asked: u32) -> u32 {
    let most = configured_attempts(config);
    allowed_attempts(
        if asked < most {
            asked
        } else {
            most
        },
    )
}

impl RetryRun {
    /// How often the request has been tried.
    pub closed spec fn tried(&self) -> nat {
        self.attempt as nat
    }

    /// How often it may be tried.
    pub closed spec fn allowed(&self) -> nat {
        self.max_retries as nat
    }

    /// How long the waits are.
    pub closed spec fn delays(&self) -> (u64, u64) {
        (self.base_delay_ms, self.max_delay_ms)
    }

    /// A request that has not been tried yet.
    pub fn new(config: &RetryConfig, max_retries: u32) -> (r: Self)
        ensures
            r.tried() == 0,
            r.allowed() == bounded_attempts(*config, max_retries),
            r.delays() == (config.base_delay_ms, config.max_delay_ms),
    {
        let configured: u32 = if config.max_retries == u32::MAX {
            u32::MAX
        } else {
            config.max_retries + 1
        };
        let asked: u32 = if max_retries < configured {
            max_retries
        } else {
            configured
        };
        let most: u32 = if asked > 10 {
            10
        } else if asked < 1 {
            1
        } else {
            asked
        };
        RetryRun {
            attempt: 0,
            max_retries: most,
            base_delay_ms: config.base_delay_ms,
            max_delay_ms: config.max_delay_ms,
        }
    }

    /// Takes the error of an attempt.
    pub fn on_failure(&mut self, error: &str) -> (r: RetryStep)
        requires
            old(self).tried() < old(self).allowed(),
        ensures
            final(self).tried() == old(self).tried() + 1,
            final(self).allowed() == old(self).allowed(),
            final(self).delays() == old(self).delays(),
            match r {
                RetryStep::GiveUp(e) => final(self).tried() == final(self).allowed() && e@
                    == "retry exhausted after "@ + decimal(final(self).allowed())
                    + " attempts: "@ + error@,
                RetryStep::Wait { delay_ms } => final(self).tried() < final(self).allowed()
                    && delay_ms == backoff(
                    final(self).delays().0,
                    final(self).delays().1,
                    final(self).tried(),
                ),
            },
    {
        self.attempt = self.attempt + 1;
        if self.attempt >= self.max_retries {
            let mut e = "retry exhausted after ".to_owned();
            push_decimal(&mut e, self.max_retries as u64);
            e.append(" attempts: ");
            e.append(error);
            return RetryStep::GiveUp(e);
        }
        RetryStep::Wait {
            delay_ms: backoff_delay(self.base_delay_ms, self.max_delay_ms, self.attempt),
        }
    }
}

/// A request is tried at least once, at most ten times, no more often than asked for unless that is
/// never, and again no more often than is configured.
pub proof fn attempts_are_bounded(config: RetryConfig, asked: u32)
    ensures
        1 <= bounded_attempts(config, asked) <= 10,
        bounded_attempts(config, asked) <= asked || asked == 0,
        bounded_attempts(config, asked) - 1 <= config.max_retries,
{
}

/// Waits never get shorter and never exceed the limit.
pub proof fn backoff_grows_to_the_limit(base: u64, max: u64, a: nat, b: nat)
    requires
        a <= b,
    ensures
        backoff(base, max, a) <= backoff(base, max, b) <= max,
{
    let n: nat = if a <= 1 {
        0
    } else if a - 1 > 10 {
        10
    } else {
        (a - 1) as nat
    };
    let m: nat = if b <= 1 {
        0
    } else if b - 1 > 10 {
        10
    } else {
        (b - 1) as nat
    };
    lemma_doubled_grows(n, m);
    assert(base * doubled(n) <= base * doubled(m)) by (nonlinear_arith)
        requires
            doubled(n) <= doubled(m),
            0 <= base,
    ;
}

proof fn lemma_doubled_grows(n: nat, m: nat)
    requires
        n <= m,
    ensures
        doubled(n) <= doubled(m),
    decreases m,
{
    if n < m {
        lemma_doubled_grows(n, (m - 1) as nat);
    }
}

/// Enough failures in a row open the breaker; until the cooldown is over it refuses every request,
/// and from that time on none.
pub proof fn open_breaker_refuses_until_cooldown(
    config: RetryConfig,
    s: CircuitState,
    failures: u32,
    mono: u64,
    later: u64,
)
    requires
        failures < u32::MAX,
        failures + 1 >= config.circuit_breaker_threshold,
        mono + config.circuit_breaker_cooldown_ms <= u64::MAX,
    ensures
        refuses(after_failure(config, s, failures, mono).0, false, later) == (later < mono
            + config.circuit_breaker_cooldown_ms),
{
}

/// Something that happens to a breaker.
pub ghost enum BreakerEvent {
    /// A request asks to be let through.
    Asked { mono: u64 },
    /// The result of a request that was let through comes.
    Ended { trial: bool, success: bool, mono: u64 },
}

/// Where the breaker stands after something has happened.
pub open spec fn after_event(config: RetryConfig, s: Standing, e: BreakerEvent) -> Standing {
    match e {
        BreakerEvent::Asked { mono } => if refuses(s.circuit, s.trial, mono) {
            s
        } else {
            after_pass(s)
        },
        BreakerEvent::Ended { trial, success, mono } => after_end(config, s, trial, success, mono),
    }
}

/// Where the breaker stands after all that has happened, in order.
pub open spec fn after_events(
    config: RetryConfig,
    s: Standing,
    events: Seq<BreakerEvent>,
) -> Standing
    decreases events.len(),
{
    if events.len() == 0 {
        s
    } else {
        after_event(config, after_events(config, s, events.drop_last()), events.last())
    }
}

/// Whether an event is the result of a request on trial.
pub open spec fn ends_trial(e: BreakerEvent) -> bool {
    e matches BreakerEvent::Ended { trial, .. } && trial
}

/// Whether an event lets a request through on trial.
pub open spec fn begins_trial(s: Standing, e: BreakerEvent) -> bool {
    e matches BreakerEvent::Asked { mono } && !refuses(s.circuit, s.trial, mono) && admitted(
        s.circuit,
    ) == CircuitState::HalfOpen
}

/// How many requests are on trial whose result has not come.
pub open spec fn trials_out(config: RetryConfig, s: Standing, events: Seq<BreakerEvent>) -> int
    decreases events.len(),
{
    if events.len() == 0 {
        if s.trial {
            1
        } else {
            0
        }
    } else {
        let before = events.drop_last();
        trials_out(config, s, before) + if begins_trial(
            after_events(config, s, before),
            events.last(),
        ) {
            1int
        } else if ends_trial(events.last()) {
            -1
        } else {
            0
        }
    }
}

/// Whether results of requests on trial come only from requests that are on trial.
pub open spec fn trials_end_once(
    config: RetryConfig,
    s: Standing,
    events: Seq<BreakerEvent>,
) -> bool {
    forall|n: int|
        0 <= n < events.len() && ends_trial(#[trigger] events[n]) ==> trials_out(
            config,
            s,
            events.take(n),
        ) > 0
}

/// From the time that a request is let through on trial until its own result comes, no other request
/// passes, whatever others ask and whatever other results come, in whatever order.
pub proof fn one_trial_at_a_time(
    config: RetryConfig,
    s: Standing,
    asked: u64,
    events: Seq<BreakerEvent>,
    later: u64,
)
    requires
        begins_trial(s, BreakerEvent::Asked { mono: asked }),
        forall|i: int| 0 <= i < events.len() ==> !ends_trial(#[trigger] events[i]),
    ensures
        ({
            let t = after_events(config, after_pass(s), events);
            &&& t.circuit == CircuitState::HalfOpen
            &&& t.trial
            &&& refuses(t.circuit, t.trial, later)
        }),
    decreases events.len(),
{
    if events.len() > 0 {
        let before = events.drop_last();
        assert forall|i: int| 0 <= i < before.len() implies !ends_trial(#[trigger] before[i]) by {
            assert(before[i] == events[i]);
        }
        one_trial_at_a_time(config, s, asked, before, later);
        assert(!ends_trial(events[events.len() - 1]));
    }
}

/// At no time is more than one request on trial, in whatever order requests ask and results come, and
/// the breaker knows whether one is.
pub proof fn at_most_one_is_on_trial(config: RetryConfig, s: Standing, events: Seq<BreakerEvent>)
    requires
        standing_sound(s),
        trials_end_once(config, s, events),
    ensures
        ({
            let t = after_events(config, s, events);
            &&& standing_sound(t)
            &&& trials_out(config, s, events) == if t.trial {
                1int
            } else {
                0
            }
        }),
    decreases events.len(),
{
    if events.len() > 0 {
        let before = events.drop_last();
        assert forall|n: int|
            0 <= n < before.len() && ends_trial(#[trigger] before[n]) implies trials_out(
            config,
            s,
            before.take(n),
        ) > 0 by {
            assert(before[n] == events[n]);
            assert(before.take(n) =~= events.take(n));
        }
        at_most_one_is_on_trial(config, s, before);
        assert(events.take(events.len() - 1) =~= before);
        if ends_trial(events.last()) {
            assert(ends_trial(events[events.len() - 1]));
        }
    }
}

/// A request on trial decides: success closes the breaker, failure opens it again, however few
/// failures there were.
pub proof fn trial_decides(config: RetryConfig, until: u64, failures: u32, mono: u64)
    requires
        failures < u32::MAX,
    ensures
        admitted(CircuitState::Open { until }) == CircuitState::HalfOpen,
        after_failure(config, CircuitState::HalfOpen, failures, mono).0 is Open,
{
}

/// With too few failures the breaker does not open.
pub proof fn few_failures_do_not_open(config: RetryConfig, failures: u32, mono: u64)
    requires
        failures + 1 < config.circuit_breaker_threshold,
    ensures
        after_failure(config, CircuitState::Closed, failures, mono) == (
            CircuitState::Closed,
            (failures + 1) as u32,
        ),
{
}

/// A request that came at one time and, where it was let through, ended at another.
pub ghost struct Handled {
    pub asked: u64,
    pub success: bool,
    pub ended: u64,
}

/// Where the breaker stands after a request, no other being under way: one that is refused changes
/// nothing.
pub open spec fn after_request(config: RetryConfig, s: Standing, request: Handled) -> Standing {
    if refuses(s.circuit, s.trial, request.asked) {
        s
    } else {
        let t = after_pass(s);
        after_end(config, t, t.trial, request.success, request.ended)
    }
}

/// Where the breaker stands after requests that came one after the other, it being closed at first.
pub open spec fn after_requests(config: RetryConfig, requests: Seq<Handled>) -> Standing
    decreases requests.len(),
{
    if requests.len() == 0 {
        Standing { circuit: CircuitState::Closed, trial: false, failures: 0 }
    } else {
        after_request(config, after_requests(config, requests.drop_last()), requests.last())
    }
}

/// Whether the last of the requests was refused.
pub open spec fn last_refused(config: RetryConfig, requests: Seq<Handled>) -> bool {
    let s = after_requests(config, requests.drop_last());
    refuses(s.circuit, s.trial, requests.last().asked)
}

/// How many of the requests that were let through have failed in a row, up to the last.
pub open spec fn failed_in_a_row(config: RetryConfig, requests: Seq<Handled>) -> nat
    decreases requests.len(),
{
    if requests.len() == 0 {
        0
    } else if last_refused(config, requests) {
        failed_in_a_row(config, requests.drop_last())
    } else if requests.last().success {
        0
    } else {
        failed_in_a_row(config, requests.drop_last()) + 1
    }
}

/// Whatever requests have come one after the other, the breaker counts the failures in a row; it is
/// open where they are as many as the threshold, and closed where they are fewer.
pub proof fn breaker_opens_after_failures_in_a_row(config: RetryConfig, requests: Seq<Handled>)
    requires
        config.circuit_breaker_threshold >= 1,
        requests.len() <= u32::MAX,
    ensures
        ({
            let s = after_requests(config, requests);
            let n = failed_in_a_row(config, requests);
            &&& s.failures == n
            &&& !s.trial
            &&& n <= requests.len()
            &&& s.circuit is Open <==> n >= config.circuit_breaker_threshold
            &&& s.circuit is Closed <==> n < config.circuit_breaker_threshold
        }),
    decreases requests.len(),
{
    if requests.len() > 0 {
        breaker_opens_after_failures_in_a_row(config, requests.drop_last());
    }
}

/// What one more request does, whatever came before: one that is refused leaves the breaker as it
/// is, one that succeeds closes it, and one that fails opens it where the failures in a row have
/// reached the threshold or it was on trial.
pub proof fn each_request_moves_the_breaker(
    config: RetryConfig,
    before: Seq<Handled>,
    request: Handled,
)
    requires
        config.circuit_breaker_threshold >= 1,
        before.len() < u32::MAX,
    ensures
        ({
            let all = before.push(request);
            let s = after_requests(config, before);
            let t = after_requests(config, all);
            &&& s.circuit matches CircuitState::Open { until } ==> (request.asked < until
                <==> last_refused(config, all))
            &&& s.circuit !is Open ==> !last_refused(config, all)
            &&& last_refused(config, all) ==> t == s
            &&& !last_refused(config, all) && request.success ==> t.circuit == CircuitState::Closed
                && t.failures == 0
            &&& !last_refused(config, all) && !request.success ==> (t.circuit is Open <==> (
            failed_in_a_row(config, all) >= config.circuit_breaker_threshold || admitted(s.circuit)
                == CircuitState::HalfOpen))
        }),
{
    let all = before.push(request);
    assert(all.drop_last() =~= before);
    breaker_opens_after_failures_in_a_row(config, before);
    breaker_opens_after_failures_in_a_row(config, all);
}

/// What is kept of a breaker reads back as the same state with the same time left, where that time
/// is not over; an open breaker whose time is over reads back on trial.
pub proof fn kept_breaker_reads_back(s: CircuitState, mono: u64, unix: u64, mono2: u64)
    requires
        open_until(s, mono, unix) matches Some(t) ==> t <= i64::MAX,
        mono2 + i64::MAX <= u64::MAX,
    ensures
        ({
            let until = match open_until(s, mono, unix) {
                Some(t) => Some(t as i64),
                None => None,
            };
            let back = kept_state(state_name(s), until, mono2, unix);
            match s {
                CircuitState::Open { until } => if until > mono {
                    back is Open && remaining(back->until, mono2) == remaining(until, mono)
                } else {
                    back == CircuitState::HalfOpen
                },
                other => back == other,
            }
        }),
{
    reveal_strlit("open");
    reveal_strlit("half-open");
    reveal_strlit("closed");
    assert("open"@.len() == 4);
    assert("half-open"@.len() == 9);
    assert("closed"@.len() == 6);
}

} // verus!
