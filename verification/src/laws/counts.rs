//! What is told of what has been counted.

use crate::json::{lookup, Json, JsonView};
use crate::metrics::{
    count_of, metrics_lines, metrics_value, stats_of, tool_text, tool_texts, with_error,
    with_llm_call, with_tool_call, MetricsView,
};
use crate::numbers::decimal;
use vstd::prelude::*;

verus! {

broadcast use {vstd::string::group_string_axioms, crate::json::member_after_with};

proof fn lemma_entry(
    names: Seq<Seq<char>>,
    list: Seq<(Seq<char>, JsonView)>,
    i: int,
)
    requires
        names.no_duplicates(),
        list.len() == names.len(),
        forall|k: int| 0 <= k < names.len() ==> (#[trigger] list[k]).0 == names[k],
        0 <= i < names.len(),
    ensures
        lookup(list, names[i]) == Some(list[i].1),
    decreases names.len(),
{
    if i > 0 {
        let rest = names.skip(1);
        let tail = list.skip(1);
        assert(list[0].0 == names[0]);
        assert(names[0] != names[i]);
        assert forall|k: int| 0 <= k < rest.len() implies (#[trigger] tail[k]).0 == rest[k] by {
            assert(tail[k] == list[k + 1]);
        }
        assert(rest.no_duplicates());
        lemma_entry(rest, tail, i - 1);
        assert(rest[i - 1] == names[i]);
        assert(tail[i - 1] == list[i]);
    } else {
        assert(list[0].0 == names[0]);
    }
}

proof fn lemma_metrics_names()
    ensures
        "uptime_seconds"@.len() == 14,
        "llm"@.len() == 3,
        "errors"@.len() == 6,
        "tool_calls"@.len() == 10,
        "total_calls"@.len() == 11,
        "avg_latency_seconds"@.len() == 19,
        "max_latency_seconds"@.len() == 19,
        "avg_latency_seconds"@[0] == 'a',
        "max_latency_seconds"@[0] == 'm',
        "by_model"@.len() == 8,
        "total"@.len() == 5,
        "successes"@.len() == 9,
        "failures"@.len() == 8,
        "avg_duration_ms"@.len() == 15,
        "call_count"@.len() == 10,
{
    reveal_strlit("uptime_seconds");
    reveal_strlit("llm");
    reveal_strlit("errors");
    reveal_strlit("tool_calls");
    reveal_strlit("total_calls");
    reveal_strlit("avg_latency_seconds");
    reveal_strlit("max_latency_seconds");
    reveal_strlit("by_model");
    reveal_strlit("total");
    reveal_strlit("successes");
    reveal_strlit("failures");
    reveal_strlit("avg_duration_ms");
    reveal_strlit("call_count");
}

/// What is told is what was counted: of the model, of each model, of each tool, and of each kind of
/// error.
pub proof fn counts_are_told(
    m: MetricsView,
    models: Seq<Seq<char>>,
    tools: Seq<Seq<char>>,
    errors: Seq<Seq<char>>,
    uptime: JsonView,
    average: JsonView,
    longest: JsonView,
    model_averages: Seq<Json>,
    tool_averages: Seq<Json>,
    i: int,
)
    requires
        models.no_duplicates(),
        tools.no_duplicates(),
        errors.no_duplicates(),
    ensures
        ({
            let v = metrics_value(
                m,
                models,
                tools,
                errors,
                uptime,
                average,
                longest,
                model_averages,
                tool_averages,
            );
            &&& v.at("uptime_seconds"@) == uptime
            &&& v.at("llm"@).at("total_calls"@) == JsonView::PosInt(m.llm_calls)
            &&& v.at("llm"@).at("avg_latency_seconds"@) == average
            &&& v.at("llm"@).at("max_latency_seconds"@) == longest
            &&& 0 <= i < models.len() ==> v.at("llm"@).at("by_model"@).at(models[i]).at(
                "call_count"@,
            ) == JsonView::PosInt(count_of(m.models, models[i]))
            &&& 0 <= i < tools.len() ==> {
                let t = v.at("tool_calls"@).at(tools[i]);
                let s = stats_of(m, tools[i]);
                &&& t.at("total"@) == JsonView::PosInt(s.total)
                &&& t.at("successes"@) == JsonView::PosInt(s.successes)
                &&& t.at("failures"@) == JsonView::PosInt(s.failures)
                &&& t.at("avg_duration_ms"@) == tool_averages[i]@
            }
            &&& 0 <= i < errors.len() ==> v.at("errors"@).at(errors[i]) == JsonView::PosInt(
                count_of(m.errors, errors[i]),
            )
        }),
{
    lemma_metrics_names();
    let v = metrics_value(
        m,
        models,
        tools,
        errors,
        uptime,
        average,
        longest,
        model_averages,
        tool_averages,
    );
    if 0 <= i < models.len() {
        lemma_entry(models, v.at("llm"@).at("by_model"@)->Obj_0, i);
    }
    if 0 <= i < tools.len() {
        lemma_entry(tools, v.at("tool_calls"@)->Obj_0, i);
    }
    if 0 <= i < errors.len() {
        lemma_entry(errors, v.at("errors"@)->Obj_0, i);
    }
}

proof fn lemma_tool_texts(
    m: MetricsView,
    names: Seq<Seq<char>>,
    averages: Seq<Seq<char>>,
    n: nat,
    i: int,
    k: int,
)
    requires
        0 <= i < n <= names.len(),
        0 <= k < 2,
    ensures
        tool_texts(m, names, averages, n).contains(
            tool_text(names[i], stats_of(m, names[i]), averages[i])[k],
        ),
    decreases n,
{
    let before = tool_texts(m, names, averages, (n - 1) as nat);
    let all = tool_texts(m, names, averages, n);
    let line = tool_text(names[i], stats_of(m, names[i]), averages[i])[k];
    if i == n - 1 {
        assert(all[before.len() + k] == line);
    } else {
        lemma_tool_texts(m, names, averages, (n - 1) as nat, i, k);
        let j = choose|j: int| 0 <= j < before.len() && before[j] == line;
        assert(all[j] == line);
    }
}

/// The lines tell how often each tool has succeeded and failed, how often each model was called, and
/// how often there was each kind of error.
pub proof fn lines_tell_the_counts(
    m: MetricsView,
    models: Seq<Seq<char>>,
    tools: Seq<Seq<char>>,
    errors: Seq<Seq<char>>,
    uptime: Seq<char>,
    average: Seq<char>,
    longest: Seq<char>,
    averages: Seq<Seq<char>>,
    i: int,
)
    ensures
        ({
            let lines = metrics_lines(
                m,
                models,
                tools,
                errors,
                uptime,
                average,
                longest,
                averages,
            );
            &&& lines.contains("bn_agent_uptime_seconds "@ + uptime)
            &&& lines.contains("bn_agent_llm_latency_avg_seconds "@ + average)
            &&& lines.contains("bn_agent_llm_latency_max_seconds "@ + longest)
            &&& 0 <= i < models.len() ==> lines.contains(
                "bn_agent_llm_calls_total{model=\""@ + models[i] + "\"} "@ + decimal(
                    count_of(m.models, models[i]) as nat,
                ),
            )
            &&& 0 <= i < errors.len() ==> lines.contains(
                "bn_agent_errors_total{category=\""@ + errors[i] + "\"} "@ + decimal(
                    count_of(m.errors, errors[i]) as nat,
                ),
            )
            &&& 0 <= i < tools.len() ==> lines.contains(
                "bn_agent_tool_calls_total{tool=\""@ + tools[i] + "\",status=\"success\"} "@
                    + decimal(stats_of(m, tools[i]).successes as nat),
            ) && lines.contains(
                "bn_agent_tool_calls_total{tool=\""@ + tools[i] + "\",status=\"failure\"} "@
                    + decimal(stats_of(m, tools[i]).failures as nat),
            )
        }),
{
    let lines = metrics_lines(m, models, tools, errors, uptime, average, longest, averages);
    let n = models.len() as int;
    let texts = tool_texts(m, tools, averages, tools.len());
    assert(lines[2] == "bn_agent_uptime_seconds "@ + uptime);
    assert(lines[5 + n + 2] == "bn_agent_llm_latency_avg_seconds "@ + average);
    assert(lines[5 + n + 3] == "bn_agent_llm_latency_max_seconds "@ + longest);
    if 0 <= i < models.len() {
        assert(lines[5 + i] == "bn_agent_llm_calls_total{model=\""@ + models[i] + "\"} "@
            + decimal(count_of(m.models, models[i]) as nat));
    }
    if 0 <= i < errors.len() {
        assert(lines[5 + n + 7 + texts.len() + 2 + i]
            == "bn_agent_errors_total{category=\""@ + errors[i] + "\"} "@ + decimal(
            count_of(m.errors, errors[i]) as nat,
        ));
    }
    if 0 <= i < tools.len() {
        let of_tool = tool_text(tools[i], stats_of(m, tools[i]), averages[i]);
        lemma_tool_texts(m, tools, averages, tools.len(), i, 0);
        lemma_tool_texts(m, tools, averages, tools.len(), i, 1);
        let a = choose|j: int| 0 <= j < texts.len() && texts[j] == of_tool[0];
        let b = choose|j: int| 0 <= j < texts.len() && texts[j] == of_tool[1];
        assert(lines[5 + n + 7 + a] == of_tool[0]);
        assert(lines[5 + n + 7 + b] == of_tool[1]);
    }
}

/// A call of a tool adds itself and its time to the tool's counts, and to no other.
pub proof fn call_of_a_tool_is_counted(
    m: MetricsView,
    name: Seq<char>,
    success: bool,
    duration_ms: u64,
    other: Seq<char>,
)
    requires
        stats_of(m, name).total < u64::MAX,
        stats_of(m, name).successes < u64::MAX,
        stats_of(m, name).failures < u64::MAX,
        stats_of(m, name).total_duration_ms + duration_ms <= u64::MAX,
    ensures
        ({
            let s = stats_of(m, name);
            let t = stats_of(with_tool_call(m, name, success, duration_ms), name);
            &&& t.total == s.total + 1
            &&& t.successes == s.successes + (if success {
                1int
            } else {
                0int
            })
            &&& t.failures == s.failures + (if success {
                0int
            } else {
                1int
            })
            &&& t.total_duration_ms == s.total_duration_ms + duration_ms
        }),
        other != name ==> stats_of(with_tool_call(m, name, success, duration_ms), other) == stats_of(
            m,
            other,
        ),
        with_tool_call(m, name, success, duration_ms).errors == m.errors,
        with_tool_call(m, name, success, duration_ms).models == m.models,
{
}

/// A call of the model counts for its model alone and among all calls; an error for its kind alone.
pub proof fn calls_and_errors_are_counted(m: MetricsView, name: Seq<char>, other: Seq<char>)
    requires
        m.llm_calls < u64::MAX,
        count_of(m.models, name) < u64::MAX,
        count_of(m.errors, name) < u64::MAX,
    ensures
        with_llm_call(m, name).llm_calls == m.llm_calls + 1,
        count_of(with_llm_call(m, name).models, name) == count_of(m.models, name) + 1,
        other != name ==> count_of(with_llm_call(m, name).models, other) == count_of(
            m.models,
            other,
        ),
        count_of(with_error(m, name).errors, name) == count_of(m.errors, name) + 1,
        other != name ==> count_of(with_error(m, name).errors, other) == count_of(m.errors, other),
        with_error(m, name).llm_calls == m.llm_calls,
{
}

} // verus!
