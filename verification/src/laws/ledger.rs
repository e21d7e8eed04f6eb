//! What is used, and what that allows.

use crate::numbers::{decimal, parse_inverts_decimal};
use crate::usage::{
    any_row, budget_answer, configured_limit, has_line, lines_match, of_model, since, sum_where,
    totals, used_in_window, ModelUsage, TokenBudgetConfig, UsageRow,
};
use vstd::prelude::*;

verus! {

broadcast use vstd::string::group_string_axioms;

/// Whether more than a limit allows has been used, a limit of none or of 0 being none.
pub open spec fn is_over(limit: Option<u64>, used: u64) -> bool {
    limit matches Some(l) && 0 < l <= used
}

/// A request is let through as long as no period is used up. One that is stopped is told the first
/// of day, week and month that is, with what was used in it and its limit.
pub proof fn budget_stops_at_its_limits(
    c: TokenBudgetConfig,
    day: u64,
    week: u64,
    month: u64,
)
    ensures
        ({
            let a = budget_answer(c, day, week, month);
            &&& a.allowed <==> !is_over(c.daily, day) && !is_over(c.weekly, week) && !is_over(
                c.monthly,
                month,
            )
            &&& is_over(c.daily, day) ==> a.period == Some("daily"@) && a.used == day && Some(
                a.limit,
            ) == c.daily
            &&& !is_over(c.daily, day) && is_over(c.weekly, week) ==> a.period == Some("weekly"@)
                && a.used == week && Some(a.limit) == c.weekly
            &&& !is_over(c.daily, day) && !is_over(c.weekly, week) && is_over(c.monthly, month)
                ==> a.period == Some("monthly"@) && a.used == month && Some(a.limit) == c.monthly
            &&& a.allowed ==> a.period is None
            &&& !a.allowed ==> a.used >= a.limit > 0
        }),
{
}

/// With every further use a budget can only get tighter.
pub proof fn use_never_loosens_a_budget(
    c: TokenBudgetConfig,
    day: u64,
    week: u64,
    month: u64,
    day2: u64,
    week2: u64,
    month2: u64,
)
    requires
        day <= day2,
        week <= week2,
        month <= month2,
    ensures
        !budget_answer(c, day, week, month).allowed ==> !budget_answer(
            c,
            day2,
            week2,
            month2,
        ).allowed,
{
}

proof fn lemma_push(
    rows: Seq<UsageRow>,
    row: UsageRow,
    keep: spec_fn(UsageRow) -> bool,
    f: spec_fn(UsageRow) -> nat,
)
    ensures
        sum_where(rows.push(row), keep, f) == sum_where(rows, keep, f) + if keep(row) {
            f(row)
        } else {
            0
        },
{
    assert(rows.push(row).drop_last() =~= rows);
}

/// A call that is entered counts once in the whole and once for its model, with what it used, and
/// not for any other model.
pub proof fn call_counts_once(
    rows: Seq<UsageRow>,
    row: UsageRow,
    model: Seq<char>,
    u: ModelUsage,
    v: ModelUsage,
    m: ModelUsage,
    n: ModelUsage,
)
    requires
        totals(rows, any_row(), u),
        totals(rows.push(row), any_row(), v),
        totals(rows, of_model(model), m),
        totals(rows.push(row), of_model(model), n),
    ensures
        adds(u, row, v),
        row.model@ == model ==> adds(m, row, n),
        row.model@ != model ==> n == m,
{
    let fs = (
        |r: UsageRow| r.prompt_tokens as nat,
        |r: UsageRow| r.completion_tokens as nat,
        |r: UsageRow| r.prompt_cache_hit_tokens as nat,
        |r: UsageRow| r.prompt_cache_miss_tokens as nat,
        |r: UsageRow| r.total_tokens as nat,
        |r: UsageRow| 1nat,
    );
    lemma_push(rows, row, any_row(), fs.0);
    lemma_push(rows, row, any_row(), fs.1);
    lemma_push(rows, row, any_row(), fs.2);
    lemma_push(rows, row, any_row(), fs.3);
    lemma_push(rows, row, any_row(), fs.4);
    lemma_push(rows, row, any_row(), fs.5);
    lemma_push(rows, row, of_model(model), fs.0);
    lemma_push(rows, row, of_model(model), fs.1);
    lemma_push(rows, row, of_model(model), fs.2);
    lemma_push(rows, row, of_model(model), fs.3);
    lemma_push(rows, row, of_model(model), fs.4);
    lemma_push(rows, row, of_model(model), fs.5);
}

/// Whether a sum is another one and a call more.
pub open spec fn adds(u: ModelUsage, row: UsageRow, v: ModelUsage) -> bool {
    &&& v.prompt_tokens == u.prompt_tokens + row.prompt_tokens
    &&& v.completion_tokens == u.completion_tokens + row.completion_tokens
    &&& v.prompt_cache_hit_tokens == u.prompt_cache_hit_tokens + row.prompt_cache_hit_tokens
    &&& v.prompt_cache_miss_tokens == u.prompt_cache_miss_tokens + row.prompt_cache_miss_tokens
    &&& v.total_tokens == u.total_tokens + row.total_tokens
    &&& v.call_count == u.call_count + 1
}

/// Without calls nothing has been used.
pub proof fn empty_ledger_sums_to_nothing(u: ModelUsage, model: Seq<char>)
    ensures
        totals(Seq::empty(), any_row(), u) || totals(Seq::empty(), of_model(model), u)
            ==> u.prompt_tokens == 0 && u.completion_tokens == 0 && u.total_tokens == 0
            && u.call_count == 0,
{
}

/// How many seconds back the last day, week and month begin.
pub open spec fn reaches_back(window: Seq<char>, seconds: int) -> bool {
    ||| window == "-1 day"@ && seconds == 24 * 60 * 60
    ||| window == "-7 days"@ && seconds == 7 * 24 * 60 * 60
    ||| window == "-30 days"@ && seconds == 30 * 24 * 60 * 60
}

/// A call counts in the last day, week or month where it was made no longer ago than that, with all
/// its tokens; an older one does not count.
pub proof fn window_counts_what_is_recent(
    rows: Seq<UsageRow>,
    row: UsageRow,
    window: Seq<char>,
    seconds: int,
    now: i64,
)
    requires
        reaches_back(window, seconds),
        0 <= now,
    ensures
        used_in_window(rows.push(row), window, now) == used_in_window(rows, window, now)
            + if now - row.created_at <= seconds {
            row.total_tokens as nat
        } else {
            0
        },
        used_in_window(Seq::empty(), window, now) == 0,
{
    reveal_strlit("-1 day");
    reveal_strlit("-7 days");
    reveal_strlit("-30 days");
    assert("-1 day"@.len() == 6 && "-7 days"@.len() == 7 && "-30 days"@.len() == 8);
    let cutoff = (now - seconds) as i64;
    assert(crate::usage::window_seconds(window) == seconds);
    lemma_push(rows, row, since(cutoff), |r: UsageRow| r.total_tokens as nat);
}

/// Whether the line at place `i` is the only one of a model, and tells the sums of its calls.
pub open spec fn is_line_of(
    by_model: Seq<(String, ModelUsage)>,
    i: int,
    model: Seq<char>,
    rows: Seq<UsageRow>,
) -> bool {
    &&& 0 <= i < by_model.len()
    &&& by_model[i].0@ == model
    &&& totals(rows, of_model(model), by_model[i].1)
    &&& forall|j: int| 0 <= j < by_model.len() && j != i ==> (#[trigger] by_model[j]).0@ != model
}

/// A summary has one line for each model that was called, with the sums of that model's calls, and
/// no line for another.
pub proof fn every_model_has_a_line(
    rows: Seq<UsageRow>,
    by_model: Seq<(String, ModelUsage)>,
    k: int,
    n: int,
)
    requires
        lines_match(rows, rows, by_model),
        0 <= k < rows.len(),
        0 <= n < by_model.len(),
    ensures
        exists|i: int| #[trigger] is_line_of(by_model, i, rows[k].model@, rows),
        exists|j: int| 0 <= j < rows.len() && (#[trigger] rows[j]).model@ == by_model[n].0@,
{
    assert(has_line(by_model, rows[k].model@));
    let i = choose|i: int|
        0 <= i < by_model.len() && (#[trigger] by_model[i]).0@ == rows[k].model@;
    assert(is_line_of(by_model, i, rows[k].model@, rows));
    assert(by_model[n].0@ == by_model[n].0@);
}

/// A limit is what the settings say, as a number above 0; without one there is no limit.
pub proof fn limit_is_read(n: u64)
    ensures
        configured_limit(Some(decimal(n as nat))) == if n > 0 {
            Some(n)
        } else {
            None
        },
        configured_limit(None) is None,
{
    parse_inverts_decimal(0, n);
}

} // verus!
