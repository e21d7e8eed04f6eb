//! What is counted: the calls of the model and of the tools, and the errors.
//!
//! Times in seconds and averages are no integers: whoever asks hands them in as text or as values.

use crate::json::{Json, JsonView};
use crate::numbers::{decimal, push_decimal};
use crate::string_map::StringMap;
use crate::text::{join, join_strings, views};
use vstd::prelude::*;

verus! {

broadcast use vstd::string::group_string_axioms;

/// What is counted of a tool.
#[derive(Debug, Clone, Copy, PartialEq, Eq, Structural)]
pub struct ToolCallStats {
    pub total: u64,
    pub successes: u64,
    pub failures: u64,
    pub total_duration_ms: u64,
}

/// What has been counted.
pub struct Metrics {
    tools: StringMap<ToolCallStats>,
    errors: StringMap<u64>,
    models: StringMap<u64>,
    llm_calls: u64,
}

/// The model of [`Metrics`].
#[verifier::ext_equal]
pub ghost struct MetricsView {
    pub tools: Map<Seq<char>, ToolCallStats>,
    pub errors: Map<Seq<char>, u64>,
    pub models: Map<Seq<char>, u64>,
    pub llm_calls: u64,
}

impl View for Metrics {
    type V = MetricsView;

    closed spec fn view(&self) -> MetricsView {
        MetricsView {
            tools: self.tools@,
            errors: self.errors@,
            models: self.models@,
            llm_calls: self.llm_calls,
        }
    }
}

/// A tool of which nothing has been counted.
pub open spec fn no_calls() -> ToolCallStats {
    ToolCallStats { total: 0, successes: 0, failures: 0, total_duration_ms: 0 }
}

/// What has been counted of a tool.
pub open spec fn stats_of(m: MetricsView, name: Seq<char>) -> ToolCallStats {
    if m.tools.dom().contains(name) {
        m.tools[name]
    } else {
        no_calls()
    }
}

/// What has been counted under a name.
pub open spec fn count_of(m: Map<Seq<char>, u64>, name: Seq<char>) -> u64 {
    if m.dom().contains(name) {
        m[name]
    } else {
        0
    }
}

/// The counts under some names, added up.
pub open spec fn sum_over(m: Map<Seq<char>, u64>, names: Set<Seq<char>>) -> nat
    decreases names.len(),
    when names.finite()
{
    if names.len() == 0 {
        0
    } else {
        let name = names.choose();
        m[name] as nat + sum_over(m, names.remove(name))
    }
}

/// All counts, added up.
pub open spec fn sum_of(m: Map<Seq<char>, u64>) -> nat {
    sum_over(m, m.dom())
}

/// Whether every call of a tool has been counted as a success or as a failure, and every call of
/// the model for one model.
pub open spec fn balanced(m: MetricsView) -> bool {
    &&& forall|name: Seq<char>| #[trigger]
        m.tools.dom().contains(name) ==> m.tools[name].successes + m.tools[name].failures
            == m.tools[name].total
    &&& m.models.dom().finite()
    &&& m.llm_calls == sum_of(m.models)
}

/// Whether a list has each of the names once, and no other.
pub open spec fn lists(order: Seq<Seq<char>>, names: Set<Seq<char>>) -> bool {
    &&& order.no_duplicates()
    &&& forall|i: int| 0 <= i < order.len() ==> names.contains(#[trigger] order[i])
    &&& forall|name: Seq<char>| names.contains(name) ==> #[trigger] order.contains(name)
}

/// With one more under a name.
pub open spec fn one_more_of(m: Map<Seq<char>, u64>, name: Seq<char>) -> Map<Seq<char>, u64> {
    m.insert(name, (count_of(m, name) + 1) as u64)
}

/// With one more call of the model.
pub open spec fn with_llm_call(m: MetricsView, model: Seq<char>) -> MetricsView {
    MetricsView {
        models: one_more_of(m.models, model),
        llm_calls: (m.llm_calls + 1) as u64,
        ..m
    }
}

/// With one more call of a tool.
pub open spec fn with_tool_call(
    m: MetricsView,
    name: Seq<char>,
    success: bool,
    duration_ms: u64,
) -> MetricsView {
    MetricsView {
        tools: m.tools.insert(name, one_more(stats_of(m, name), success, duration_ms)),
        ..m
    }
}

/// With one more error of a kind.
pub open spec fn with_error(m: MetricsView, category: Seq<char>) -> MetricsView {
    MetricsView { errors: one_more_of(m.errors, category), ..m }
}

/// The counts of a tool after one more call.
pub open spec fn one_more(s: ToolCallStats, success: bool, duration_ms: u64) -> ToolCallStats {
    ToolCallStats {
        total: (s.total + 1) as u64,
        successes: if success {
            (s.successes + 1) as u64
        } else {
            s.successes
        },
        failures: if success {
            s.failures
        } else {
            (s.failures + 1) as u64
        },
        total_duration_ms: (s.total_duration_ms + duration_ms) as u64,
    }
}

/// Entries with the names, in order.
pub open spec fn entries(names: Seq<Seq<char>>, values: spec_fn(int) -> JsonView) -> Seq<
    (Seq<char>, JsonView),
> {
    Seq::new(names.len(), |i: int| (names[i], values(i)))
}

/// The lines on one tool; the average is told where there was a call.
pub open spec fn tool_text(name: Seq<char>, s: ToolCallStats, average: Seq<char>) -> Seq<Seq<char>> {
    let lines = seq![
        "bn_agent_tool_calls_total{tool=\""@ + name + "\",status=\"success\"} "@ + decimal(
            s.successes as nat,
        ),
        "bn_agent_tool_calls_total{tool=\""@ + name + "\",status=\"failure\"} "@ + decimal(
            s.failures as nat,
        ),
    ];
    if s.total > 0 {
        lines.push("bn_agent_tool_duration_ms{tool=\""@ + name + "\"} "@ + average)
    } else {
        lines
    }
}

/// The lines on the first `n` tools.
pub open spec fn tool_texts(
    m: MetricsView,
    names: Seq<Seq<char>>,
    averages: Seq<Seq<char>>,
    n: nat,
) -> Seq<Seq<char>>
    decreases n,
{
    if n == 0 {
        Seq::empty()
    } else {
        tool_texts(m, names, averages, (n - 1) as nat) + tool_text(
            names[n - 1],
            stats_of(m, names[n - 1]),
            averages[n - 1],
        )
    }
}

/// A line on a count under a name.
pub open spec fn count_text(lead: Seq<char>, name: Seq<char>, n: u64) -> Seq<char> {
    lead + name + "\"} "@ + decimal(n as nat)
}

/// The lines on the counts under the names.
pub open spec fn count_texts(lead: Seq<char>, m: Map<Seq<char>, u64>, names: Seq<Seq<char>>) -> Seq<
    Seq<char>,
> {
    names.map_values(|name: Seq<char>| count_text(lead, name, count_of(m, name)))
}

/// All lines. The orders in which the names come are not fixed.
pub open spec fn metrics_lines(
    m: MetricsView,
    models: Seq<Seq<char>>,
    tools: Seq<Seq<char>>,
    errors: Seq<Seq<char>>,
    uptime: Seq<char>,
    average: Seq<char>,
    longest: Seq<char>,
    averages: Seq<Seq<char>>,
) -> Seq<Seq<char>> {
    seq![
        "# HELP bn_agent_uptime_seconds Agent uptime"@,
        "# TYPE bn_agent_uptime_seconds gauge"@,
        "bn_agent_uptime_seconds "@ + uptime,
        "# HELP bn_agent_llm_calls_total Total LLM API calls"@,
        "# TYPE bn_agent_llm_calls_total counter"@,
    ] + count_texts("bn_agent_llm_calls_total{model=\""@, m.models, models) + seq![
        "# HELP bn_agent_llm_latency_seconds LLM API call latency"@,
        "# TYPE bn_agent_llm_latency_seconds gauge"@,
        "bn_agent_llm_latency_avg_seconds "@ + average,
        "bn_agent_llm_latency_max_seconds "@ + longest,
        "bn_agent_llm_latency_count "@ + decimal(m.llm_calls as nat),
        "# HELP bn_agent_tool_calls_total Tool calls by name"@,
        "# TYPE bn_agent_tool_calls_total counter"@,
    ] + tool_texts(m, tools, averages, tools.len()) + seq![
        "# HELP bn_agent_errors_total Errors by category"@,
        "# TYPE bn_agent_errors_total counter"@,
    ] + count_texts("bn_agent_errors_total{category=\""@, m.errors, errors)
}

/// What is told of one tool.
pub open spec fn tool_value(s: ToolCallStats, average: JsonView) -> JsonView {
    JsonView::object().with("total"@, JsonView::PosInt(s.total)).with(
        "successes"@,
        JsonView::PosInt(s.successes),
    ).with("failures"@, JsonView::PosInt(s.failures)).with("avg_duration_ms"@, average)
}

/// What is told of one model.
pub open spec fn model_value(calls: u64, average: JsonView) -> JsonView {
    JsonView::object().with("call_count"@, JsonView::PosInt(calls)).with(
        "avg_latency_seconds"@,
        average,
    )
}

/// All that is told, as a value.
pub open spec fn metrics_value(
    m: MetricsView,
    models: Seq<Seq<char>>,
    tools: Seq<Seq<char>>,
    errors: Seq<Seq<char>>,
    uptime: JsonView,
    average: JsonView,
    longest: JsonView,
    model_averages: Seq<Json>,
    tool_averages: Seq<Json>,
) -> JsonView {
    JsonView::object().with("uptime_seconds"@, uptime).with(
        "llm"@,
        JsonView::object().with("total_calls"@, JsonView::PosInt(m.llm_calls)).with(
            "avg_latency_seconds"@,
            average,
        ).with("max_latency_seconds"@, longest).with(
            "by_model"@,
            JsonView::Obj(
                entries(
                    models,
                    |i: int| model_value(count_of(m.models, models[i]), model_averages[i]@),
                ),
            ),
        ),
    ).with(
        "tool_calls"@,
        JsonView::Obj(
            entries(tools, |i: int| tool_value(stats_of(m, tools[i]), tool_averages[i]@)),
        ),
    ).with(
        "errors"@,
        JsonView::Obj(
            entries(errors, |i: int| JsonView::PosInt(count_of(m.errors, errors[i]))),
        ),
    )
}

fn put(out: &mut Vec<String>, line: String)
    ensures
        views(final(out)@) == views(old(out)@).push(line@),
{
    let ghost before = out@;
    out.push(line);
    assert(views(before.push(line)) =~= views(before).push(line@));
}

fn put_text(out: &mut Vec<String>, line: &str)
    ensures
        views(final(out)@) == views(old(out)@).push(line@),
{
    put(out, line.to_owned());
}

fn put_with(out: &mut Vec<String>, lead: &str, rest: &str)
    ensures
        views(final(out)@) == views(old(out)@).push(lead@ + rest@),
{
    let mut line = lead.to_owned();
    line.append(rest);
    put(out, line);
}

fn put_counts(out: &mut Vec<String>, lead: &str, counts: &StringMap<u64>)
    ensures
        views(final(out)@) == views(old(out)@) + count_texts(lead@, counts@, counts.keys()),
        lists(counts.keys(), counts@.dom()),
{
    let n = counts.len();
    let ghost names = counts.keys();
    let ghost start = views(out@);
    let ghost lines = count_texts(lead@, counts@, names);
    let mut i: usize = 0;
    assert(start + lines.take(0) =~= start);
    while i < n
        invariant
            i <= n,
            n == names.len(),
            names == counts.keys(),
            lines == count_texts(lead@, counts@, names),
            views(out@) == start + lines.take(i as int),
        decreases n - i,
    {
        let count = *counts.value_at(i);
        let mut line = lead.to_owned();
        line.append(counts.key_at(i).as_str());
        line.append("\"} ");
        push_decimal(&mut line, count);
        put(out, line);
        proof {
            assert(line@ =~= lines[i as int]);
            assert((start + lines.take(i as int)).push(line@) =~= start + lines.take(i + 1));
        }
        i = i + 1;
    }
    assert(lines.take(lines.len() as int) =~= lines);
}

impl Metrics {
    /// The names of the tools, in the order in which they are told.
    pub closed spec fn tool_order(&self) -> Seq<Seq<char>> {
        self.tools.keys()
    }

    /// The names of the models, in the order in which they are told.
    pub closed spec fn model_order(&self) -> Seq<Seq<char>> {
        self.models.keys()
    }

    /// The kinds of errors, in the order in which they are told.
    pub closed spec fn error_order(&self) -> Seq<Seq<char>> {
        self.errors.keys()
    }

    /// Nothing has been counted.
    pub fn new() -> (r: Self)
        ensures
            r@.tools == Map::<Seq<char>, ToolCallStats>::empty(),
            r@.errors == Map::<Seq<char>, u64>::empty(),
            r@.models == Map::<Seq<char>, u64>::empty(),
            r@.llm_calls == 0,
            balanced(r@),
            r.tool_order() == Seq::<Seq<char>>::empty(),
            r.model_order() == Seq::<Seq<char>>::empty(),
            r.error_order() == Seq::<Seq<char>>::empty(),
    {
        Metrics {
            tools: StringMap::new(),
            errors: StringMap::new(),
            models: StringMap::new(),
            llm_calls: 0,
        }
    }

    /// How many calls of the model have been counted.
    pub fn llm_calls(&self) -> (r: u64)
        ensures
            r == self@.llm_calls,
    {
        self.llm_calls
    }

    /// How often a model has been called.
    pub fn model_count(&self, model: &str) -> (r: u64)
        ensures
            r == count_of(self@.models, model@),
    {
        match self.models.get(model) {
            Some(n) => *n,
            None => 0,
        }
    }

    /// How often a kind of error has come up.
    pub fn error_count(&self, category: &str) -> (r: u64)
        ensures
            r == count_of(self@.errors, category@),
    {
        match self.errors.get(category) {
            Some(n) => *n,
            None => 0,
        }
    }

    /// What has been counted of a tool.
    pub fn tool_count(&self, name: &str) -> (r: ToolCallStats)
        ensures
            r == stats_of(self@, name@),
    {
        match self.tools.get(name) {
            Some(s) => *s,
            None => ToolCallStats { total: 0, successes: 0, failures: 0, total_duration_ms: 0 },
        }
    }

    /// Counts a call of the model.
    pub fn record_llm_call(&mut self, model: &str)
        requires
            balanced(old(self)@),
            old(self)@.llm_calls < u64::MAX,
        ensures
            final(self)@ == with_llm_call(old(self)@, model@),
            balanced(final(self)@),
    {
        proof {
            lemma_one_more_of(self@.models, model@);
        }
        self.llm_calls = self.llm_calls + 1;
        let n: u64 = self.model_count(model);
        self.models.insert(model, n + 1);
    }

    /// Counts a call of a tool.
    pub fn record_tool_call(&mut self, name: &str, success: bool, duration_ms: u64)
        requires
            balanced(old(self)@),
            stats_of(old(self)@, name@).total < u64::MAX,
            stats_of(old(self)@, name@).total_duration_ms + duration_ms <= u64::MAX,
        ensures
            final(self)@ == with_tool_call(old(self)@, name@, success, duration_ms),
            balanced(final(self)@),
    {
        let mut s = self.tool_count(name);
        s.total = s.total + 1;
        if success {
            s.successes = s.successes + 1;
        } else {
            s.failures = s.failures + 1;
        }
        s.total_duration_ms = s.total_duration_ms + duration_ms;
        self.tools.insert(name, s);
    }

    /// Counts an error of a kind.
    pub fn record_error(&mut self, category: &str)
        requires
            count_of(old(self)@.errors, category@) < u64::MAX,
        ensures
            final(self)@ == with_error(old(self)@, category@),
            balanced(old(self)@) ==> balanced(final(self)@),
    {
        let n: u64 = self.error_count(category);
        let ghost before = self@;
        self.errors.insert(category, n + 1);
        assert(self@.tools == before.tools && self@.models == before.models);
    }

    /// The counts of the tools, in the order in which they are told.
    pub fn tool_stats(&self) -> (r: Vec<ToolCallStats>)
        ensures
            lists(self.tool_order(), self@.tools.dom()),
            r@.len() == self.tool_order().len(),
            forall|i: int|
                0 <= i < r@.len() ==> #[trigger] r@[i] == stats_of(self@, self.tool_order()[i]),
    {
        let n = self.tools.len();
        let mut out: Vec<ToolCallStats> = Vec::new();
        let mut i: usize = 0;
        while i < n
            invariant
                i <= n,
                n == self.tool_order().len(),
                out@.len() == i,
                forall|k: int|
                    0 <= k < i ==> #[trigger] out@[k] == stats_of(self@, self.tool_order()[k]),
            decreases n - i,
        {
            out.push(*self.tools.value_at(i));
            i = i + 1;
        }
        out
    }

    /// The models with their counts, in the order in which they are told.
    pub fn model_counts(&self) -> (r: Vec<(String, u64)>)
        ensures
            lists(self.model_order(), self@.models.dom()),
            r@.len() == self.model_order().len(),
            forall|i: int|
                0 <= i < r@.len() ==> (#[trigger] r@[i]).0@ == self.model_order()[i] && r@[i].1
                    == count_of(self@.models, self.model_order()[i]),
    {
        let n = self.models.len();
        let mut out: Vec<(String, u64)> = Vec::new();
        let mut i: usize = 0;
        while i < n
            invariant
                i <= n,
                n == self.model_order().len(),
                out@.len() == i,
                forall|k: int|
                    0 <= k < i ==> (#[trigger] out@[k]).0@ == self.model_order()[k] && out@[k].1
                        == count_of(self@.models, self.model_order()[k]),
            decreases n - i,
        {
            let name = self.models.key_at(i).clone();
            let count = *self.models.value_at(i);
            out.push((name, count));
            i = i + 1;
        }
        out
    }

    fn put_tool(&self, out: &mut Vec<String>, i: usize, average: &String)
        requires
            i < self.tool_order().len(),
        ensures
            views(final(out)@) == views(old(out)@) + tool_text(
                self.tool_order()[i as int],
                stats_of(self@, self.tool_order()[i as int]),
                average@,
            ),
    {
        let ghost start = views(out@);
        let name = self.tools.key_at(i);
        let s = *self.tools.value_at(i);
        let mut good = "bn_agent_tool_calls_total{tool=\"".to_owned();
        good.append(name.as_str());
        good.append("\",status=\"success\"} ");
        push_decimal(&mut good, s.successes);
        put(out, good);
        let mut bad = "bn_agent_tool_calls_total{tool=\"".to_owned();
        bad.append(name.as_str());
        bad.append("\",status=\"failure\"} ");
        push_decimal(&mut bad, s.failures);
        put(out, bad);
        assert(start.push(good@).push(bad@) =~= start + seq![good@, bad@]);
        if s.total > 0 {
            let mut line = "bn_agent_tool_duration_ms{tool=\"".to_owned();
            line.append(name.as_str());
            line.append("\"} ");
            line.append(average.as_str());
            put(out, line);
            assert((start + seq![good@, bad@]).push(line@) =~= start + seq![good@, bad@].push(
                line@,
            ));
        }
    }

    fn put_tools(&self, out: &mut Vec<String>, averages: &Vec<String>)
        requires
            averages@.len() == self.tool_order().len(),
        ensures
            views(final(out)@) == views(old(out)@) + tool_texts(
                self@,
                self.tool_order(),
                views(averages@),
                self.tool_order().len(),
            ),
            lists(self.tool_order(), self@.tools.dom()),
    {
        let n = self.tools.len();
        let ghost start = views(out@);
        let mut i: usize = 0;
        assert(start + Seq::<Seq<char>>::empty() =~= start);
        while i < n
            invariant
                i <= n,
                n == averages@.len(),
                n == self.tool_order().len(),
                views(out@) == start + tool_texts(
                    self@,
                    self.tool_order(),
                    views(averages@),
                    i as nat,
                ),
            decreases n - i,
        {
            let ghost before = tool_texts(self@, self.tool_order(), views(averages@), i as nat);
            let ghost mine = tool_text(
                self.tool_order()[i as int],
                stats_of(self@, self.tool_order()[i as int]),
                averages@[i as int]@,
            );
            self.put_tool(out, i, &averages[i]);
            proof {
                assert((start + before) + mine =~= start + (before + mine));
            }
            i = i + 1;
        }
    }

    /// All that is told, as lines. `averages` are the average durations of the tools.
    pub fn text(&self, uptime: &str, average: &str, longest: &str, averages: &Vec<String>) -> (r:
        String)
        requires
            averages@.len() == self.tool_order().len(),
        ensures
            lists(self.model_order(), self@.models.dom()),
            lists(self.tool_order(), self@.tools.dom()),
            lists(self.error_order(), self@.errors.dom()),
            r@ == join(
                metrics_lines(
                    self@,
                    self.model_order(),
                    self.tool_order(),
                    self.error_order(),
                    uptime@,
                    average@,
                    longest@,
                    views(averages@),
                ),
                "\n"@,
            ) + "\n"@,
    {
        let mut out: Vec<String> = Vec::new();
        put_text(&mut out, "# HELP bn_agent_uptime_seconds Agent uptime");
        put_text(&mut out, "# TYPE bn_agent_uptime_seconds gauge");
        put_with(&mut out, "bn_agent_uptime_seconds ", uptime);
        put_text(&mut out, "# HELP bn_agent_llm_calls_total Total LLM API calls");
        put_text(&mut out, "# TYPE bn_agent_llm_calls_total counter");
        assert(views(out@) =~= seq![
            "# HELP bn_agent_uptime_seconds Agent uptime"@,
            "# TYPE bn_agent_uptime_seconds gauge"@,
            "bn_agent_uptime_seconds "@ + uptime@,
            "# HELP bn_agent_llm_calls_total Total LLM API calls"@,
            "# TYPE bn_agent_llm_calls_total counter"@,
        ]);
        put_counts(&mut out, "bn_agent_llm_calls_total{model=\"", &self.models);
        let ghost a = views(out@);
        let mut count = "bn_agent_llm_latency_count ".to_owned();
        push_decimal(&mut count, self.llm_calls);
        put_text(&mut out, "# HELP bn_agent_llm_latency_seconds LLM API call latency");
        put_text(&mut out, "# TYPE bn_agent_llm_latency_seconds gauge");
        put_with(&mut out, "bn_agent_llm_latency_avg_seconds ", average);
        put_with(&mut out, "bn_agent_llm_latency_max_seconds ", longest);
        put(&mut out, count);
        put_text(&mut out, "# HELP bn_agent_tool_calls_total Tool calls by name");
        put_text(&mut out, "# TYPE bn_agent_tool_calls_total counter");
        assert(views(out@) =~= a + seq![
            "# HELP bn_agent_llm_latency_seconds LLM API call latency"@,
            "# TYPE bn_agent_llm_latency_seconds gauge"@,
            "bn_agent_llm_latency_avg_seconds "@ + average@,
            "bn_agent_llm_latency_max_seconds "@ + longest@,
            "bn_agent_llm_latency_count "@ + decimal(self@.llm_calls as nat),
            "# HELP bn_agent_tool_calls_total Tool calls by name"@,
            "# TYPE bn_agent_tool_calls_total counter"@,
        ]);
        self.put_tools(&mut out, averages);
        let ghost b = views(out@);
        put_text(&mut out, "# HELP bn_agent_errors_total Errors by category");
        put_text(&mut out, "# TYPE bn_agent_errors_total counter");
        assert(views(out@) =~= b + seq![
            "# HELP bn_agent_errors_total Errors by category"@,
            "# TYPE bn_agent_errors_total counter"@,
        ]);
        put_counts(&mut out, "bn_agent_errors_total{category=\"", &self.errors);
        let mut text = join_strings(&out, "\n");
        text.append("\n");
        text
    }

    fn models_object(&self, averages: &Vec<Json>) -> (r: Json)
        requires
            averages@.len() == self.model_order().len(),
        ensures
            lists(self.model_order(), self@.models.dom()),
            r@ == JsonView::Obj(
                entries(
                    self.model_order(),
                    |i: int|
                        model_value(
                            count_of(self@.models, self.model_order()[i]),
                            averages@[i]@,
                        ),
                ),
            ),
    {
        let ghost all = entries(
            self.model_order(),
            |i: int| model_value(count_of(self@.models, self.model_order()[i]), averages@[i]@),
        );
        let n = self.models.len();
        let mut out = Json::object();
        let mut i: usize = 0;
        assert(all.take(0) =~= Seq::empty());
        while i < n
            invariant
                i <= n,
                n == self.model_order().len(),
                n == averages@.len(),
                all == entries(
                    self.model_order(),
                    |i: int|
                        model_value(
                            count_of(self@.models, self.model_order()[i]),
                            averages@[i]@,
                        ),
                ),
                out@ == JsonView::Obj(all.take(i as int)),
            decreases n - i,
        {
            let count = *self.models.value_at(i);
            let value = Json::object().with("call_count", Json::PosInt(count)).with(
                "avg_latency_seconds",
                averages[i].clone(),
            );
            out = out.with(self.models.key_at(i).as_str(), value);
            proof {
                assert(all[i as int] == (self.model_order()[i as int], value@));
                assert(all.take(i as int).push(all[i as int]) =~= all.take(i + 1));
            }
            i = i + 1;
        }
        assert(all.take(n as int) =~= all);
        out
    }

    fn tools_object(&self, averages: &Vec<Json>) -> (r: Json)
        requires
            averages@.len() == self.tool_order().len(),
        ensures
            lists(self.tool_order(), self@.tools.dom()),
            r@ == JsonView::Obj(
                entries(
                    self.tool_order(),
                    |i: int| tool_value(stats_of(self@, self.tool_order()[i]), averages@[i]@),
                ),
            ),
    {
        let ghost all = entries(
            self.tool_order(),
            |i: int| tool_value(stats_of(self@, self.tool_order()[i]), averages@[i]@),
        );
        let n = self.tools.len();
        let mut out = Json::object();
        let mut i: usize = 0;
        assert(all.take(0) =~= Seq::empty());
        while i < n
            invariant
                i <= n,
                n == self.tool_order().len(),
                n == averages@.len(),
                all == entries(
                    self.tool_order(),
                    |i: int| tool_value(stats_of(self@, self.tool_order()[i]), averages@[i]@),
                ),
                out@ == JsonView::Obj(all.take(i as int)),
            decreases n - i,
        {
            let s = *self.tools.value_at(i);
            let value = Json::object().with("total", Json::PosInt(s.total)).with(
                "successes",
                Json::PosInt(s.successes),
            ).with("failures", Json::PosInt(s.failures)).with(
                "avg_duration_ms",
                averages[i].clone(),
            );
            out = out.with(self.tools.key_at(i).as_str(), value);
            proof {
                assert(all[i as int] == (self.tool_order()[i as int], value@));
                assert(all.take(i as int).push(all[i as int]) =~= all.take(i + 1));
            }
            i = i + 1;
        }
        assert(all.take(n as int) =~= all);
        out
    }

    fn errors_object(&self) -> (r: Json)
        ensures
            lists(self.error_order(), self@.errors.dom()),
            r@ == JsonView::Obj(
                entries(
                    self.error_order(),
                    |i: int| JsonView::PosInt(count_of(self@.errors, self.error_order()[i])),
                ),
            ),
    {
        let ghost all = entries(
            self.error_order(),
            |i: int| JsonView::PosInt(count_of(self@.errors, self.error_order()[i])),
        );
        let n = self.errors.len();
        let mut out = Json::object();
        let mut i: usize = 0;
        assert(all.take(0) =~= Seq::empty());
        while i < n
            invariant
                i <= n,
                n == self.error_order().len(),
                all == entries(
                    self.error_order(),
                    |i: int| JsonView::PosInt(count_of(self@.errors, self.error_order()[i])),
                ),
                out@ == JsonView::Obj(all.take(i as int)),
            decreases n - i,
        {
            let value = Json::PosInt(*self.errors.value_at(i));
            out = out.with(self.errors.key_at(i).as_str(), value);
            proof {
                assert(all[i as int] == (self.error_order()[i as int], value@));
                assert(all.take(i as int).push(all[i as int]) =~= all.take(i + 1));
            }
            i = i + 1;
        }
        assert(all.take(n as int) =~= all);
        out
    }

    /// All that is told, as a value.
    pub fn json(
        &self,
        uptime: Json,
        average: Json,
        longest: Json,
        model_averages: &Vec<Json>,
        tool_averages: &Vec<Json>,
    ) -> (r: Json)
        requires
            model_averages@.len() == self.model_order().len(),
            tool_averages@.len() == self.tool_order().len(),
        ensures
            lists(self.model_order(), self@.models.dom()),
            lists(self.tool_order(), self@.tools.dom()),
            lists(self.error_order(), self@.errors.dom()),
            r@ == metrics_value(
                self@,
                self.model_order(),
                self.tool_order(),
                self.error_order(),
                uptime@,
                average@,
                longest@,
                model_averages@,
                tool_averages@,
            ),
    {
        let by_model = self.models_object(model_averages);
        let tools = self.tools_object(tool_averages);
        let errors = self.errors_object();
        let r = Json::object().with("uptime_seconds", uptime).with(
            "llm",
            Json::object().with("total_calls", Json::PosInt(self.llm_calls)).with(
                "avg_latency_seconds",
                average,
            ).with("max_latency_seconds", longest).with("by_model", by_model),
        ).with("tool_calls", tools).with("errors", errors);
        proof {
            let models = self.model_order();
            assert(by_model@->Obj_0 =~= entries(
                models,
                |i: int| model_value(count_of(self@.models, models[i]), model_averages@[i]@),
            ));
            let names = self.tool_order();
            assert(tools@->Obj_0 =~= entries(
                names,
                |i: int| tool_value(stats_of(self@, names[i]), tool_averages@[i]@),
            ));
            let kinds = self.error_order();
            assert(errors@->Obj_0 =~= entries(
                kinds,
                |i: int| JsonView::PosInt(count_of(self@.errors, kinds[i])),
            ));
        }
        r
    }
}

proof fn lemma_sum_without(m: Map<Seq<char>, u64>, names: Set<Seq<char>>, name: Seq<char>)
    requires
        names.finite(),
        names.contains(name),
    ensures
        sum_over(m, names) == m[name] + sum_over(m, names.remove(name)),
    decreases names.len(),
{
    let k = names.choose();
    if k != name {
        lemma_sum_without(m, names.remove(k), name);
        lemma_sum_without(m, names.remove(name), k);
        assert(names.remove(k).remove(name) =~= names.remove(name).remove(k));
    }
}

proof fn lemma_sum_same(m: Map<Seq<char>, u64>, n: Map<Seq<char>, u64>, names: Set<Seq<char>>)
    requires
        names.finite(),
        forall|name: Seq<char>| names.contains(name) ==> #[trigger] m[name] == n[name],
    ensures
        sum_over(m, names) == sum_over(n, names),
    decreases names.len(),
{
    if names.len() > 0 {
        lemma_sum_same(m, n, names.remove(names.choose()));
    }
}

proof fn lemma_one_more_of(m: Map<Seq<char>, u64>, name: Seq<char>)
    requires
        m.dom().finite(),
        sum_of(m) < u64::MAX,
    ensures
        count_of(m, name) <= sum_of(m),
        sum_of(one_more_of(m, name)) == sum_of(m) + 1,
        one_more_of(m, name).dom().finite(),
{
    let n = one_more_of(m, name);
    let others = m.dom().remove(name);
    if m.dom().contains(name) {
        lemma_sum_without(m, m.dom(), name);
    } else {
        assert(others =~= m.dom());
    }
    assert(n.dom() =~= m.dom().insert(name));
    assert(n.dom().remove(name) =~= others);
    lemma_sum_without(n, n.dom(), name);
    lemma_sum_same(m, n, others);
}

/// The counts in a list of names, added up.
pub open spec fn sum_along(m: Map<Seq<char>, u64>, order: Seq<Seq<char>>) -> nat
    decreases order.len(),
{
    if order.len() == 0 {
        0
    } else {
        sum_along(m, order.drop_last()) + count_of(m, order.last()) as nat
    }
}

proof fn lemma_sum_along(m: Map<Seq<char>, u64>, order: Seq<Seq<char>>, names: Set<Seq<char>>)
    requires
        names.finite(),
        names.subset_of(m.dom()),
        lists(order, names),
    ensures
        sum_along(m, order) == sum_over(m, names),
    decreases order.len(),
{
    if order.len() == 0 {
        assert forall|name: Seq<char>| !names.contains(name) by {
            if names.contains(name) {
                assert(order.contains(name));
            }
        }
        assert(names =~= Set::empty());
    } else {
        let last = order.last();
        let rest = order.drop_last();
        let others = names.remove(last);
        assert(names.contains(order[order.len() - 1]));
        lemma_sum_without(m, names, last);
        assert(rest.no_duplicates());
        assert forall|i: int| 0 <= i < rest.len() implies others.contains(#[trigger] rest[i]) by {
            assert(rest[i] == order[i]);
            assert(order[i] != order[order.len() - 1]);
        }
        assert forall|name: Seq<char>| others.contains(name) implies #[trigger] rest.contains(
            name,
        ) by {
            assert(order.contains(name));
            let i = choose|i: int| 0 <= i < order.len() && order[i] == name;
            assert(rest[i] == name);
        }
        lemma_sum_along(m, rest, others);
    }
}

/// The calls that are told of the models add up to all calls of the model that are told.
pub proof fn told_models_add_up(m: MetricsView, models: Seq<Seq<char>>)
    requires
        balanced(m),
        lists(models, m.models.dom()),
    ensures
        sum_along(m.models, models) == m.llm_calls,
{
    lemma_sum_along(m.models, models, m.models.dom());
}

/// Something that is counted.
pub ghost enum Counted {
    /// A call of a model.
    Llm(Seq<char>),
    /// A call of a tool: its name, whether it succeeded, and how long it took.
    Tool(Seq<char>, bool, u64),
    /// An error of a kind.
    Error(Seq<char>),
}

/// Before anything has been counted.
pub open spec fn nothing_counted() -> MetricsView {
    MetricsView { tools: Map::empty(), errors: Map::empty(), models: Map::empty(), llm_calls: 0 }
}

/// With one more thing counted.
pub open spec fn with_counted(m: MetricsView, e: Counted) -> MetricsView {
    match e {
        Counted::Llm(model) => with_llm_call(m, model),
        Counted::Tool(name, success, duration_ms) => with_tool_call(m, name, success, duration_ms),
        Counted::Error(category) => with_error(m, category),
    }
}

/// The counts after all that has happened, in order.
pub open spec fn after_all(events: Seq<Counted>) -> MetricsView
    decreases events.len(),
{
    if events.len() == 0 {
        nothing_counted()
    } else {
        with_counted(after_all(events.drop_last()), events.last())
    }
}

/// How many of the events are such.
pub open spec fn how_many(events: Seq<Counted>, such: spec_fn(Counted) -> bool) -> nat
    decreases events.len(),
{
    if events.len() == 0 {
        0
    } else {
        how_many(events.drop_last(), such) + if such(events.last()) {
            1nat
        } else {
            0
        }
    }
}

/// Calls of the model.
pub open spec fn llm_event() -> spec_fn(Counted) -> bool {
    |e: Counted| e is Llm
}

/// Calls of one model.
pub open spec fn model_event(model: Seq<char>) -> spec_fn(Counted) -> bool {
    |e: Counted| e == Counted::Llm(model)
}

/// Calls of one tool.
pub open spec fn tool_event(name: Seq<char>) -> spec_fn(Counted) -> bool {
    |e: Counted| e matches Counted::Tool(n, _, _) && n == name
}

/// Calls of one tool that ended so.
pub open spec fn tool_event_with(name: Seq<char>, success: bool) -> spec_fn(Counted) -> bool {
    |e: Counted| e matches Counted::Tool(n, s, _) && n == name && s == success
}

/// Errors of one kind.
pub open spec fn error_event(category: Seq<char>) -> spec_fn(Counted) -> bool {
    |e: Counted| e == Counted::Error(category)
}

/// The counts are true: after whatever has happened in whatever order, each tool has as many calls,
/// successes and failures, each model as many calls and each kind of error as many errors as there
/// were, and the calls of all models are the calls of the model.
pub proof fn counts_are_true(events: Seq<Counted>, name: Seq<char>)
    requires
        events.len() <= u64::MAX,
    ensures
        ({
            let m = after_all(events);
            &&& balanced(m)
            &&& stats_of(m, name).total == how_many(events, tool_event(name))
            &&& stats_of(m, name).successes == how_many(events, tool_event_with(name, true))
            &&& stats_of(m, name).failures == how_many(events, tool_event_with(name, false))
            &&& m.llm_calls == how_many(events, llm_event())
            &&& m.llm_calls == sum_of(m.models)
            &&& count_of(m.models, name) == how_many(events, model_event(name))
            &&& count_of(m.errors, name) == how_many(events, error_event(name))
        }),
    decreases events.len(),
{
    if events.len() == 0 {
        assert(nothing_counted().models.dom() =~= Set::empty());
    } else {
        let before = events.drop_last();
        let m = after_all(before);
        counts_are_true(before, name);
        lemma_how_many_bound(before, tool_event(name));
        lemma_how_many_bound(before, tool_event_with(name, true));
        lemma_how_many_bound(before, tool_event_with(name, false));
        lemma_how_many_bound(before, llm_event());
        lemma_how_many_bound(before, model_event(name));
        lemma_how_many_bound(before, error_event(name));
        match events.last() {
            Counted::Llm(model) => {
                counts_are_true(before, model);
                lemma_one_more_of(m.models, model);
            },
            Counted::Tool(tool, success, duration_ms) => {
                counts_are_true(before, tool);
                lemma_how_many_bound(before, tool_event(tool));
                lemma_how_many_bound(before, tool_event_with(tool, true));
                lemma_how_many_bound(before, tool_event_with(tool, false));
            },
            Counted::Error(category) => {},
        }
    }
}

proof fn lemma_how_many_bound(events: Seq<Counted>, such: spec_fn(Counted) -> bool)
    ensures
        how_many(events, such) <= events.len(),
    decreases events.len(),
{
    if events.len() > 0 {
        lemma_how_many_bound(events.drop_last(), such);
    }
}

/// Counting a call of one tool leaves the counts of the others alone.
pub proof fn tools_are_counted_apart(
    m: MetricsView,
    name: Seq<char>,
    other: Seq<char>,
    success: bool,
    duration_ms: u64,
)
    requires
        other != name,
    ensures
        ({
            let after = with_tool_call(m, name, success, duration_ms);
            &&& stats_of(after, other) == stats_of(m, other)
            &&& stats_of(after, name) == one_more(stats_of(m, name), success, duration_ms)
        }),
{
}

} // verus!
