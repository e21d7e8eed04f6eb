//! Token usage: the ledger of calls, its summary, and the budget over rolling windows.

use crate::numbers::{opt_str, parse_u64, parsed_u64};
use crate::text::same;
use crate::tool::opt_text;
use vstd::prelude::*;

verus! {

broadcast use vstd::string::group_string_axioms;

/// The limits on the tokens used in the last day, week and month. None and 0 mean no limit.
#[derive(Clone, Debug, Default)]
pub struct TokenBudgetConfig {
    pub daily: Option<u64>,
    pub weekly: Option<u64>,
    pub monthly: Option<u64>,
}

/// Whether a new request is within the budget and, where it is not, the first period that is
/// used up.
#[derive(Clone, Debug)]
pub struct BudgetCheck {
    pub allowed: bool,
    pub period: Option<String>,
    pub used: u64,
    pub limit: u64,
}

/// The model of a [`BudgetCheck`].
pub ghost struct BudgetCheckView {
    pub allowed: bool,
    pub period: Option<Seq<char>>,
    pub used: u64,
    pub limit: u64,
}

impl View for BudgetCheck {
    type V = BudgetCheckView;

    open spec fn view(&self) -> BudgetCheckView {
        BudgetCheckView {
            allowed: self.allowed,
            period: opt_text(self.period),
            used: self.used,
            limit: self.limit,
        }
    }
}

impl BudgetCheckView {
    /// The answer that lets a request through.
    pub open spec fn allow() -> BudgetCheckView {
        BudgetCheckView { allowed: true, period: None, used: 0, limit: 0 }
    }

    /// The answer that stops a request.
    pub open spec fn stop(period: Seq<char>, used: u64, limit: u64) -> BudgetCheckView {
        BudgetCheckView { allowed: false, period: Some(period), used, limit }
    }
}

impl BudgetCheck {
    /// The answer that lets a request through.
    pub fn allow() -> (r: Self)
        ensures
            r@ == BudgetCheckView::allow(),
    {
        BudgetCheck { allowed: true, period: None, used: 0, limit: 0 }
    }

    fn stop(period: &str, used: u64, limit: u64) -> (r: Self)
        ensures
            r@ == BudgetCheckView::stop(period@, used, limit),
    {
        BudgetCheck { allowed: false, period: Some(period.to_owned()), used, limit }
    }
}

/// A limit as it is configured: a positive number, anything else meaning no limit.
pub open spec fn configured_limit(value: Option<Seq<char>>) -> Option<u64> {
    match value {
        Some(s) => match parsed_u64(s) {
            Some(n) => if n > 0 {
                Some(n)
            } else {
                None
            },
            None => None,
        },
        None => None,
    }
}

fn read_limit(value: Option<&str>) -> (r: Option<u64>)
    ensures
        value matches Some(s) ==> r == configured_limit(Some(s@)),
        value is None ==> r == configured_limit(None),
{
    match value {
        Some(s) => match parse_u64(s) {
            Some(n) => {
                if n > 0 {
                    Some(n)
                } else {
                    None
                }
            },
            None => None,
        },
        None => None,
    }
}

/// Whether a limit limits anything.
pub open spec fn limits(limit: Option<u64>) -> bool {
    limit matches Some(l) && l > 0
}

fn limiting(limit: Option<u64>) -> (r: Option<u64>)
    ensures
        r is Some == limits(limit),
        limits(limit) ==> r == limit,
{
    match limit {
        Some(l) => {
            if l > 0 {
                Some(l)
            } else {
                None
            }
        },
        None => None,
    }
}

impl TokenBudgetConfig {
    /// The limits that three settings give.
    pub fn from_settings(daily: Option<&str>, weekly: Option<&str>, monthly: Option<&str>) -> (r:
        Self)
        ensures
            r.daily == configured_limit(opt_str(daily)),
            r.weekly == configured_limit(opt_str(weekly)),
            r.monthly == configured_limit(opt_str(monthly)),
    {
        TokenBudgetConfig {
            daily: read_limit(daily),
            weekly: read_limit(weekly),
            monthly: read_limit(monthly),
        }
    }

    /// Whether no period has a limit.
    pub open spec fn unlimited(&self) -> bool {
        !limits(self.daily) && !limits(self.weekly) && !limits(self.monthly)
    }

    /// Tells whether no period has a limit.
    pub fn is_unlimited(&self) -> (r: bool)
        ensures
            r == self.unlimited(),
    {
        limiting(self.daily).is_none() && limiting(self.weekly).is_none() && limiting(
            self.monthly,
        ).is_none()
    }
}

/// Whether a period with the limit is used up.
pub open spec fn used_up(limit: Option<u64>, used: u64) -> bool {
    limits(limit) && used >= limit->0
}

/// The answer for given uses: the first of day, week and month that is used up stops the request.
pub open spec fn budget_answer(
    config: TokenBudgetConfig,
    day: u64,
    week: u64,
    month: u64,
) -> BudgetCheckView {
    if used_up(config.daily, day) {
        BudgetCheckView::stop("daily"@, day, config.daily->0)
    } else if used_up(config.weekly, week) {
        BudgetCheckView::stop("weekly"@, week, config.weekly->0)
    } else if used_up(config.monthly, month) {
        BudgetCheckView::stop("monthly"@, month, config.monthly->0)
    } else {
        BudgetCheckView::allow()
    }
}

/// Checks the budget, asking `used_since` for the tokens used in each window that has a limit, and in
/// no other.
pub fn evaluate_budget<F: Fn(&'static str) -> u64>(
    config: &TokenBudgetConfig,
    used_since: F,
) -> (r: BudgetCheck)
    requires
        limits(config.daily) ==> call_requires(used_since, ("-1 day",)),
        limits(config.weekly) ==> call_requires(used_since, ("-7 days",)),
        limits(config.monthly) ==> call_requires(used_since, ("-30 days",)),
    ensures
        config.unlimited() ==> r@ == BudgetCheckView::allow(),
        exists|day: u64, week: u64, month: u64| #[trigger]
            budget_answer(*config, day, week, month) == r@ && (limits(config.daily)
                ==> call_ensures(used_since, ("-1 day",), day)) && (limits(config.weekly)
                && !used_up(config.daily, day) ==> call_ensures(used_since, ("-7 days",), week))
                && (limits(config.monthly) && !used_up(config.daily, day) && !used_up(
                config.weekly,
                week,
            ) ==> call_ensures(used_since, ("-30 days",), month)),
{
    let ghost mut day: u64 = 0;
    let ghost mut week: u64 = 0;
    if let Some(limit) = limiting(config.daily) {
        let used = used_since("-1 day");
        proof {
            day = used;
        }
        if used >= limit {
            let r = BudgetCheck::stop("daily", used, limit);
            assert(budget_answer(*config, day, 0, 0) == r@);
            return r;
        }
    }
    if let Some(limit) = limiting(config.weekly) {
        let used = used_since("-7 days");
        proof {
            week = used;
        }
        if used >= limit {
            let r = BudgetCheck::stop("weekly", used, limit);
            assert(budget_answer(*config, day, week, 0) == r@);
            return r;
        }
    }
    if let Some(limit) = limiting(config.monthly) {
        let used = used_since("-30 days");
        if used >= limit {
            let r = BudgetCheck::stop("monthly", used, limit);
            assert(budget_answer(*config, day, week, used) == r@);
            return r;
        }
        let r = BudgetCheck::allow();
        assert(budget_answer(*config, day, week, used) == r@);
        return r;
    }
    let r = BudgetCheck::allow();
    assert(budget_answer(*config, day, week, 0) == r@);
    r
}

/// A budget stops a request exactly when one of its periods is used up.
pub proof fn budget_stops_when_used_up(
    config: TokenBudgetConfig,
    day: u64,
    week: u64,
    month: u64,
)
    ensures
        budget_answer(config, day, week, month).allowed == !(used_up(config.daily, day) || used_up(
            config.weekly,
            week,
        ) || used_up(config.monthly, month)),
        config.unlimited() ==> budget_answer(config, day, week, month) == BudgetCheckView::allow(),
{
}

/// One call in the ledger.
#[derive(Clone, Debug)]
pub struct UsageRow {
    pub model: String,
    pub prompt_tokens: u32,
    pub completion_tokens: u32,
    pub prompt_cache_hit_tokens: u32,
    pub prompt_cache_miss_tokens: u32,
    pub total_tokens: u32,
    /// Seconds since the epoch.
    pub created_at: i64,
}

impl UsageRow {
    /// The row of one call: its total is what went in and what came out.
    pub fn new(
        model: &str,
        prompt_tokens: u32,
        completion_tokens: u32,
        prompt_cache_hit_tokens: u32,
        prompt_cache_miss_tokens: u32,
        created_at: i64,
    ) -> (r: Self)
        requires
            prompt_tokens + completion_tokens <= u32::MAX,
        ensures
            r.model@ == model@,
            r.prompt_tokens == prompt_tokens,
            r.completion_tokens == completion_tokens,
            r.prompt_cache_hit_tokens == prompt_cache_hit_tokens,
            r.prompt_cache_miss_tokens == prompt_cache_miss_tokens,
            r.total_tokens == prompt_tokens + completion_tokens,
            r.created_at == created_at,
    {
        UsageRow {
            model: model.to_owned(),
            prompt_tokens,
            completion_tokens,
            prompt_cache_hit_tokens,
            prompt_cache_miss_tokens,
            total_tokens: prompt_tokens + completion_tokens,
            created_at,
        }
    }
}

/// What a set of calls comes to.
#[derive(Clone, Copy, Debug, PartialEq, Eq, Structural)]
pub struct ModelUsage {
    pub prompt_tokens: u64,
    pub completion_tokens: u64,
    pub prompt_cache_hit_tokens: u64,
    pub prompt_cache_miss_tokens: u64,
    pub total_tokens: u64,
    pub call_count: u64,
}

/// The sum of `f` over the rows that `keep` holds of.
pub open spec fn sum_where(
    rows: Seq<UsageRow>,
    keep: spec_fn(UsageRow) -> bool,
    f: spec_fn(UsageRow) -> nat,
) -> nat
    decreases rows.len(),
{
    if rows.len() == 0 {
        0
    } else {
        sum_where(rows.drop_last(), keep, f) + if keep(rows.last()) {
            f(rows.last())
        } else {
            0
        }
    }
}

/// Whether `u` is the sum, field by field, of the rows that `keep` holds of.
pub open spec fn totals(rows: Seq<UsageRow>, keep: spec_fn(UsageRow) -> bool, u: ModelUsage) -> bool {
    &&& u.prompt_tokens == sum_where(rows, keep, |r: UsageRow| r.prompt_tokens as nat)
    &&& u.completion_tokens == sum_where(rows, keep, |r: UsageRow| r.completion_tokens as nat)
    &&& u.prompt_cache_hit_tokens == sum_where(
        rows,
        keep,
        |r: UsageRow| r.prompt_cache_hit_tokens as nat,
    )
    &&& u.prompt_cache_miss_tokens == sum_where(
        rows,
        keep,
        |r: UsageRow| r.prompt_cache_miss_tokens as nat,
    )
    &&& u.total_tokens == sum_where(rows, keep, |r: UsageRow| r.total_tokens as nat)
    &&& u.call_count == sum_where(rows, keep, |r: UsageRow| 1)
}

/// The rows of one model.
pub open spec fn of_model(model: Seq<char>) -> spec_fn(UsageRow) -> bool {
    |r: UsageRow| r.model@ == model
}

/// All rows.
pub open spec fn any_row() -> spec_fn(UsageRow) -> bool {
    |r: UsageRow| true
}

/// The rows made at or after a time.
pub open spec fn since(cutoff: i64) -> spec_fn(UsageRow) -> bool {
    |r: UsageRow| r.created_at >= cutoff
}

proof fn lemma_step(
    rows: Seq<UsageRow>,
    i: int,
    keep: spec_fn(UsageRow) -> bool,
    f: spec_fn(UsageRow) -> nat,
)
    requires
        0 <= i < rows.len(),
    ensures
        sum_where(rows.take(i + 1), keep, f) == sum_where(rows.take(i), keep, f) + if keep(
            rows[i],
        ) {
            f(rows[i])
        } else {
            0
        },
{
    let t = rows.take(i + 1);
    assert(t.drop_last() =~= rows.take(i));
    assert(t.last() == rows[i]);
}

fn zero_usage() -> (r: ModelUsage)
    ensures
        r == (ModelUsage {
            prompt_tokens: 0,
            completion_tokens: 0,
            prompt_cache_hit_tokens: 0,
            prompt_cache_miss_tokens: 0,
            total_tokens: 0,
            call_count: 0,
        }),
{
    ModelUsage {
        prompt_tokens: 0,
        completion_tokens: 0,
        prompt_cache_hit_tokens: 0,
        prompt_cache_miss_tokens: 0,
        total_tokens: 0,
        call_count: 0,
    }
}

/// The most that a sum over `n` rows can come to.
pub open spec fn bounded(u: ModelUsage, n: int) -> bool {
    &&& u.prompt_tokens <= n * 0xffff_ffff
    &&& u.completion_tokens <= n * 0xffff_ffff
    &&& u.prompt_cache_hit_tokens <= n * 0xffff_ffff
    &&& u.prompt_cache_miss_tokens <= n * 0xffff_ffff
    &&& u.total_tokens <= n * 0xffff_ffff
    &&& u.call_count <= n * 0xffff_ffff
}

fn add_row(u: ModelUsage, row: &UsageRow, n: Ghost<int>) -> (r: ModelUsage)
    requires
        bounded(u, n@),
        0 <= n@ < 0xffff_ffff,
    ensures
        bounded(r, n@ + 1),
        r.prompt_tokens == u.prompt_tokens + row.prompt_tokens,
        r.completion_tokens == u.completion_tokens + row.completion_tokens,
        r.prompt_cache_hit_tokens == u.prompt_cache_hit_tokens + row.prompt_cache_hit_tokens,
        r.prompt_cache_miss_tokens == u.prompt_cache_miss_tokens + row.prompt_cache_miss_tokens,
        r.total_tokens == u.total_tokens + row.total_tokens,
        r.call_count == u.call_count + 1,
{
    ModelUsage {
        prompt_tokens: u.prompt_tokens + row.prompt_tokens as u64,
        completion_tokens: u.completion_tokens + row.completion_tokens as u64,
        prompt_cache_hit_tokens: u.prompt_cache_hit_tokens + row.prompt_cache_hit_tokens as u64,
        prompt_cache_miss_tokens: u.prompt_cache_miss_tokens + row.prompt_cache_miss_tokens as u64,
        total_tokens: u.total_tokens + row.total_tokens as u64,
        call_count: u.call_count + 1,
    }
}

/// The sum over all rows of the ledger, or over those of one model.
pub fn total_usage(rows: &Vec<UsageRow>, model: Option<&str>) -> (r: ModelUsage)
    requires
        rows@.len() <= 0xffff_ffff,
    ensures
        model is None ==> totals(rows@, any_row(), r),
        model matches Some(m) ==> totals(rows@, of_model(m@), r),
{
    let ghost keep: spec_fn(UsageRow) -> bool = match model {
        Some(m) => of_model(m@),
        None => any_row(),
    };
    let mut u = zero_usage();
    let mut i: usize = 0;
    while i < rows.len()
        invariant
            i <= rows@.len() <= 0xffff_ffff,
            keep == (match model {
                Some(m) => of_model(m@),
                None => any_row(),
            }),
            totals(rows@.take(i as int), keep, u),
            bounded(u, i as int),
        decreases rows@.len() - i,
    {
        let counts = match model {
            Some(m) => same(rows[i].model.as_str(), m),
            None => true,
        };
        proof {
            lemma_step(rows@, i as int, keep, |r: UsageRow| r.prompt_tokens as nat);
            lemma_step(rows@, i as int, keep, |r: UsageRow| r.completion_tokens as nat);
            lemma_step(rows@, i as int, keep, |r: UsageRow| r.prompt_cache_hit_tokens as nat);
            lemma_step(rows@, i as int, keep, |r: UsageRow| r.prompt_cache_miss_tokens as nat);
            lemma_step(rows@, i as int, keep, |r: UsageRow| r.total_tokens as nat);
            lemma_step(rows@, i as int, keep, |r: UsageRow| 1);
            assert(keep(rows@[i as int]) == counts);
        }
        if counts {
            u = add_row(u, &rows[i], Ghost(i as int));
        }
        i = i + 1;
    }
    assert(rows@.take(rows@.len() as int) =~= rows@);
    u
}

/// The tokens used at or after a time.
pub fn used_tokens_since(rows: &Vec<UsageRow>, cutoff: i64) -> (r: u64)
    requires
        rows@.len() <= 0xffff_ffff,
    ensures
        r == sum_where(rows@, since(cutoff), |r: UsageRow| r.total_tokens as nat),
{
    let mut used: u64 = 0;
    let mut i: usize = 0;
    while i < rows.len()
        invariant
            i <= rows@.len() <= 0xffff_ffff,
            used == sum_where(
                rows@.take(i as int),
                since(cutoff),
                |r: UsageRow| r.total_tokens as nat,
            ),
            used <= i * 0xffff_ffff,
        decreases rows@.len() - i,
    {
        proof {
            lemma_step(rows@, i as int, since(cutoff), |r: UsageRow| r.total_tokens as nat);
        }
        if rows[i].created_at >= cutoff {
            used = used + rows[i].total_tokens as u64;
        }
        i = i + 1;
    }
    assert(rows@.take(rows@.len() as int) =~= rows@);
    used
}

/// How many seconds a window reaches back: a day, seven days or thirty.
pub open spec fn window_seconds(window: Seq<char>) -> int {
    if window == "-1 day"@ {
        86400
    } else if window == "-7 days"@ {
        604800
    } else {
        2592000
    }
}

/// The tokens of the ledger that were used in a window that ends now.
pub open spec fn used_in_window(rows: Seq<UsageRow>, window: Seq<char>, now: i64) -> nat {
    sum_where(
        rows,
        since((now - window_seconds(window)) as i64),
        |r: UsageRow| r.total_tokens as nat,
    )
}

/// Checks the budget against the ledger. Each window ends now.
pub fn check_budget(config: &TokenBudgetConfig, rows: &Vec<UsageRow>, now: i64) -> (r: BudgetCheck)
    requires
        rows@.len() <= 0xffff_ffff,
        0 <= now,
    ensures
        r@ == budget_answer(
            *config,
            used_in_window(rows@, "-1 day"@, now) as u64,
            used_in_window(rows@, "-7 days"@, now) as u64,
            used_in_window(rows@, "-30 days"@, now) as u64,
        ),
{
    let used_since = |window: &'static str| -> (used: u64)
        requires
            rows@.len() <= 0xffff_ffff,
            0 <= now,
        ensures
            used == used_in_window(rows@, window@, now),
        {
            let seconds: i64 = if same(window, "-1 day") {
                86400
            } else if same(window, "-7 days") {
                604800
            } else {
                2592000
            };
            used_tokens_since(rows, now - seconds)
        };
    evaluate_budget(config, used_since)
}

/// The usage of the whole ledger and of each model in it.
#[derive(Clone, Debug)]
pub struct TokenUsageSummary {
    pub total_prompt_tokens: u64,
    pub total_completion_tokens: u64,
    pub total_prompt_cache_hit_tokens: u64,
    pub total_prompt_cache_miss_tokens: u64,
    pub total_tokens: u64,
    pub total_calls: u64,
    pub by_model: Vec<(String, ModelUsage)>,
}

impl TokenUsageSummary {
    /// The line of the whole ledger.
    pub open spec fn total(&self) -> ModelUsage {
        ModelUsage {
            prompt_tokens: self.total_prompt_tokens,
            completion_tokens: self.total_completion_tokens,
            prompt_cache_hit_tokens: self.total_prompt_cache_hit_tokens,
            prompt_cache_miss_tokens: self.total_prompt_cache_miss_tokens,
            total_tokens: self.total_tokens,
            call_count: self.total_calls,
        }
    }
}

/// Whether a model has a line in the summary.
pub open spec fn has_line(by_model: Seq<(String, ModelUsage)>, model: Seq<char>) -> bool {
    exists|i: int| 0 <= i < by_model.len() && (#[trigger] by_model[i]).0@ == model
}

/// Whether each model of the rows has exactly one line, which is its sum, and no other has one.
pub open spec fn lines_match(
    rows: Seq<UsageRow>,
    seen: Seq<UsageRow>,
    by_model: Seq<(String, ModelUsage)>,
) -> bool {
    &&& forall|i: int|
        0 <= i < by_model.len() ==> totals(
            rows,
            of_model((#[trigger] by_model[i]).0@),
            by_model[i].1,
        )
    &&& forall|i: int, j: int|
        #![trigger by_model[i], by_model[j]]
        0 <= i < j < by_model.len() ==> by_model[i].0@ != by_model[j].0@
    &&& forall|k: int|
        0 <= k < seen.len() ==> has_line(by_model, (#[trigger] seen[k]).model@)
    &&& forall|i: int|
        0 <= i < by_model.len() ==> exists|k: int|
            0 <= k < seen.len() && (#[trigger] seen[k]).model@ == (#[trigger] by_model[i]).0@
}

/// Sums the ledger, in all and by model.
pub fn build_summary(rows: &Vec<UsageRow>) -> (r: TokenUsageSummary)
    requires
        rows@.len() <= 0xffff_ffff,
    ensures
        totals(rows@, any_row(), r.total()),
        lines_match(rows@, rows@, r.by_model@),
{
    let total = total_usage(rows, None);
    let mut by_model: Vec<(String, ModelUsage)> = Vec::new();
    let mut i: usize = 0;
    while i < rows.len()
        invariant
            i <= rows@.len() <= 0xffff_ffff,
            lines_match(rows@, rows@.take(i as int), by_model@),
        decreases rows@.len() - i,
    {
        let ghost seen = rows@.take(i as int);
        let ghost next = rows@.take(i + 1);
        let mut found: bool = false;
        let mut k: usize = 0;
        while k < by_model.len()
            invariant
                k <= by_model@.len(),
                i < rows@.len(),
                found ==> has_line(by_model@, rows@[i as int].model@),
                !found ==> forall|j: int|
                    0 <= j < k ==> (#[trigger] by_model@[j]).0@ != rows@[i as int].model@,
            decreases by_model@.len() - k,
        {
            if same(by_model[k].0.as_str(), rows[i].model.as_str()) {
                found = true;
            }
            k = k + 1;
        }
        let ghost before = by_model@;
        if !found {
            let usage = total_usage(rows, Some(rows[i].model.as_str()));
            by_model.push((rows[i].model.clone(), usage));
        }
        proof {
            let after = by_model@;
            assert(next[i as int] == rows@[i as int]);
            assert forall|k: int| 0 <= k < next.len() implies has_line(
                after,
                (#[trigger] next[k]).model@,
            ) by {
                if k < i {
                    assert(seen[k] == next[k]);
                    let j = choose|j: int|
                        0 <= j < before.len() && (#[trigger] before[j]).0@ == seen[k].model@;
                    assert(after[j] == before[j]);
                } else if !found {
                    assert(after[before.len() as int].0@ == next[k].model@);
                }
            }
            assert forall|j: int| 0 <= j < after.len() implies exists|k: int|
                0 <= k < next.len() && (#[trigger] next[k]).model@ == (
                #[trigger] after[j]).0@ by {
                if j < before.len() {
                    assert(after[j] == before[j]);
                    let k = choose|k: int|
                        0 <= k < seen.len() && (#[trigger] seen[k]).model@ == before[j].0@;
                    assert(next[k] == seen[k]);
                } else {
                    assert(next[i as int].model@ == after[j].0@);
                }
            }
        }
        i = i + 1;
    }
    assert(rows@.take(rows@.len() as int) =~= rows@);
    TokenUsageSummary {
        total_prompt_tokens: total.prompt_tokens,
        total_completion_tokens: total.completion_tokens,
        total_prompt_cache_hit_tokens: total.prompt_cache_hit_tokens,
        total_prompt_cache_miss_tokens: total.prompt_cache_miss_tokens,
        total_tokens: total.total_tokens,
        total_calls: total.call_count,
        by_model,
    }
}

} // verus!
