//! What a loop remembers from step to step, and what it does with it.

use crate::agent_loop::{loop_prompt, observation, status_label, status_name, AgentLoopStatus};
use crate::agent_runner::{
    after_step, at_answer, at_begin, at_calls, at_hold, at_prepared, at_tool, denied_line,
    loop_tools, outcome_decided, run_started, step_of, LoopActionView, LoopAnswerView, LoopOutView,
    LoopRunView, OutcomeView, RunStage,
};
use crate::chat::LlmResponseView;
use crate::effect::EffectView;
use crate::event::EventView;
use crate::json::JsonView;
use crate::laws::answers::{reports, tells_of};
use crate::laws::parts::{
    all_of_them, holds, holds_in_order, lemma_alone_in_order, lemma_holds, lemma_joined_in_order,
    lemma_joined_lists, lemma_names, lemma_order_behind, lemma_order_in_front,
};
use crate::loop_table::ProgressView;
use crate::numbers::decimal;
use crate::pipeline::{answer_records, not_found, result_line};
use crate::text::join;
use crate::tool::{ToolCallView, ToolDefView, ToolResultView};
use vstd::prelude::*;

verus! {

broadcast use {vstd::string::group_string_axioms, crate::json::member_after_with};

/// The names of calls, in order.
pub open spec fn names_of(calls: Seq<ToolCallView>) -> Seq<Seq<char>> {
    Seq::new(calls.len(), |i: int| calls[i].name)
}

/// What there is to tell of a step: its number, what the model said, the tools it called, and what
/// came of them.
pub open spec fn told_of_step(s: LoopRunView, o: OutcomeView) -> Seq<Seq<char>> {
    seq![decimal(s.step as nat), o.message] + names_of(s.all_calls) + s.all_results
}

proof fn lemma_observation(s: LoopRunView, o: OutcomeView, elapsed_ms: u64, now: u64)
    ensures
        holds_in_order(observation(step_of(s, o, elapsed_ms, now)), told_of_step(s, o)),
{
    let step = step_of(s, o, elapsed_ms, now);
    let n = decimal(s.step as nat);
    let label = status_label(o.status);
    assert(step.tool_calls =~= names_of(s.all_calls));
    let names = names_of(s.all_calls);
    let tools = if names.len() == 0 {
        "无"@
    } else {
        join(names, ", "@)
    };
    lemma_alone_in_order(n);
    lemma_alone_in_order(o.message);
    let none = Seq::<Seq<char>>::empty();
    assert(holds_in_order("Step "@, none));
    let head = " ["@ + label + "]\n消息："@;
    lemma_order_behind("Step "@, none, n, seq![n], head);
    assert(none + seq![n] =~= seq![n]);
    let a = "Step "@ + n + head;
    lemma_order_behind(a, seq![n], o.message, seq![o.message], "\n工具："@);
    assert(seq![n] + seq![o.message] =~= seq![n, o.message]);
    let b = a + o.message + "\n工具："@;
    if names.len() == 0 {
        lemma_order_in_front(b, tools + "\n结果："@, seq![n, o.message]);
        assert(b + (tools + "\n结果："@) =~= b + tools + "\n结果："@);
        assert(seq![n, o.message] + names =~= seq![n, o.message]);
    } else {
        lemma_joined_in_order(Seq::empty(), names, ", "@, Seq::empty());
        assert(Seq::<char>::empty() + tools + Seq::<char>::empty() =~= tools);
        lemma_order_behind(b, seq![n, o.message], tools, names, "\n结果："@);
    }
    let c = b + tools + "\n结果："@;
    let results = join(s.all_results, "\n"@);
    lemma_joined_in_order(Seq::empty(), s.all_results, "\n"@, Seq::empty());
    assert(Seq::<char>::empty() + results + Seq::<char>::empty() =~= results);
    lemma_order_behind(
        c,
        seq![n, o.message] + names,
        results,
        s.all_results,
        Seq::empty(),
    );
    assert(c + results + Seq::<char>::empty() =~= observation(step));
}

/// A step is remembered once, behind the steps before it, which stay as they are: with its number,
/// what the model said, the tools it called, and what came of them, in this order.
pub proof fn step_is_remembered(
    s: LoopRunView,
    effects: Seq<EffectView>,
    o: OutcomeView,
    stop: bool,
    elapsed_ms: u64,
    now: u64,
)
    ensures
        ({
            let t = after_step(s, effects, o, stop, elapsed_ms, now).0;
            &&& t.observations.len() == s.observations.len() + 1
            &&& t.observations.drop_last() == s.observations
            &&& holds_in_order(t.observations.last(), told_of_step(s, o))
            &&& t.goal == s.goal
            &&& t.id == s.id
            &&& t.peer_id == s.peer_id
            &&& t.max_steps == s.max_steps
        }),
{
    lemma_observation(s, o, elapsed_ms, now);
    let t = after_step(s, effects, o, stop, elapsed_ms, now).0;
    assert(t.observations.drop_last() =~= s.observations);
}

/// Nothing but the end of a step changes what is remembered of the steps.
pub proof fn memory_is_kept_within_a_step(
    s: LoopRunView,
    stop: bool,
    pause: bool,
    elapsed_secs: u64,
    contexts: Seq<Seq<char>>,
    defs: Seq<ToolDefView>,
    deny: Seq<Seq<char>>,
    result: Option<ToolResultView>,
)
    requires
        s.response.tool_calls.len() <= usize::MAX,
    ensures
        same_loop(at_begin(s, stop, pause, elapsed_secs).0, s),
        same_loop(at_hold(s, stop, pause).0, s),
        same_loop(at_prepared(s, contexts, defs, deny).0, s),
        s.next_call < s.response.tool_calls.len() ==> same_loop(at_tool(s, result).0, s),
{
    if s.next_call < s.response.tool_calls.len() {
        let name = s.response.tool_calls[s.next_call as int].name;
        let r = match result {
            Some(r) => r,
            None => crate::pipeline::not_found(name),
        };
        lemma_calls_keep(
            LoopRunView {
                next_call: (s.next_call + 1) as usize,
                round_results: s.round_results.push(crate::pipeline::result_line(name, r)),
                ..s
            },
            seq![EffectView::RecordTool { tool_name: name, success: r.success }],
        );
    }
}

/// Whether two states are of the same loop at the same step, with the same memory.
pub open spec fn same_loop(t: LoopRunView, s: LoopRunView) -> bool {
    &&& t.observations == s.observations
    &&& t.step == s.step
    &&& t.goal == s.goal
    &&& t.id == s.id
    &&& t.peer_id == s.peer_id
    &&& t.max_steps == s.max_steps
    &&& t.max_tool_rounds == s.max_tool_rounds
    &&& t.max_duration_secs == s.max_duration_secs
    &&& t.sleep_cap == s.sleep_cap
}

proof fn lemma_calls_keep(s: LoopRunView, effects: Seq<EffectView>)
    requires
        s.response.tool_calls.len() <= usize::MAX,
    ensures
        same_loop(at_calls(s, effects).0, s),
        at_calls(s, effects).0.response == s.response,
        at_calls(s, effects).1.effects == effects,
        at_calls(s, effects).1.action is RunTool || at_calls(s, effects).1.action is Ask,
        at_calls(s, effects).1.reports.len() == 0,
        s.round_results.is_prefix_of(at_calls(s, effects).0.round_results),
    decreases s.response.tool_calls.len() - s.next_call,
{
    if s.next_call < s.response.tool_calls.len() {
        let call = s.response.tool_calls[s.next_call as int];
        if s.deny.contains(call.name) {
            let t = LoopRunView {
                next_call: (s.next_call + 1) as usize,
                round_results: s.round_results.push(crate::agent_runner::denied_line(call.name)),
                ..s
            };
            lemma_calls_keep(t, effects);
            assert(s.round_results.is_prefix_of(t.round_results));
        }
    }
}

/// The model is told the goal, which step it is at and of how many, and everything that is
/// remembered of the steps before, in their order.
pub proof fn memory_is_told(
    s: LoopRunView,
    contexts: Seq<Seq<char>>,
    defs: Seq<ToolDefView>,
    deny: Seq<Seq<char>>,
)
    ensures
        at_prepared(s, contexts, defs, deny).1.action matches LoopActionView::Ask { request, .. }
            && {
            &&& holds_in_order(
                request.message,
                seq![s.goal, decimal(s.step as nat), decimal(s.max_steps as nat)] + s.observations,
            )
            &&& request.peer_id == s.peer_id
            &&& request.contexts == contexts
            &&& request.tools == loop_tools(defs, deny)
            &&& request.assistant_tool_calls.len() == 0
            &&& request.tool_results.len() == 0
            &&& request.skip_store
            &&& !request.stream
            &&& holds(request.request_id, s.id)
        },
{
    let lists = Seq::new(s.observations.len(), |i: int| seq![s.observations[i]]);
    assert forall|i: int| 0 <= i < s.observations.len() implies holds_in_order(
        #[trigger] s.observations[i],
        lists[i],
    ) by {
        lemma_alone_in_order(s.observations[i]);
    }
    lemma_prompt(s.goal, s.observations, lists, s.step as nat, s.max_steps as nat);
    lemma_singles(s.observations);
    lemma_holds("agent-loop-"@, s.id, "-s"@ + decimal(s.step as nat));
    assert("agent-loop-"@ + s.id + ("-s"@ + decimal(s.step as nat))
        =~= crate::agent_runner::step_request_id(s));
}

proof fn lemma_singles(texts: Seq<Seq<char>>)
    ensures
        all_of_them(Seq::new(texts.len(), |i: int| seq![texts[i]])) == texts,
    decreases texts.len(),
{
    let lists = Seq::new(texts.len(), |i: int| seq![texts[i]]);
    if texts.len() > 0 {
        lemma_singles(texts.drop_last());
        assert(lists.drop_last() =~= Seq::new(
            texts.drop_last().len(),
            |i: int| seq![texts.drop_last()[i]],
        ));
        assert(all_of_them(lists) =~= texts);
    }
}

proof fn lemma_prompt(
    goal: Seq<char>,
    observations: Seq<Seq<char>>,
    lists: Seq<Seq<Seq<char>>>,
    step: nat,
    max_steps: nat,
)
    requires
        observations.len() == lists.len(),
        forall|i: int|
            0 <= i < observations.len() ==> holds_in_order(#[trigger] observations[i], lists[i]),
    ensures
        holds_in_order(
            loop_prompt(goal, observations, step, max_steps),
            seq![goal, decimal(step), decimal(max_steps)] + all_of_them(lists),
        ),
{
    let p = loop_prompt(goal, observations, step, max_steps);
    let none = Seq::<Seq<char>>::empty();
    let start = "[系统·Agent Loop]\n目标："@;
    let n = decimal(step);
    let m = decimal(max_steps);
    lemma_alone_in_order(goal);
    lemma_alone_in_order(n);
    lemma_alone_in_order(m);
    assert(holds_in_order(start, none));
    lemma_order_behind(start, none, goal, seq![goal], "\n当前步数："@);
    assert(none + seq![goal] =~= seq![goal]);
    let a = start + goal + "\n当前步数："@;
    lemma_order_behind(a, seq![goal], n, seq![n], "/"@);
    assert(seq![goal] + seq![n] =~= seq![goal, n]);
    let b = a + n + "/"@;
    lemma_order_behind(b, seq![goal, n], m, seq![m], "\n已有观察：\n"@);
    assert(seq![goal, n] + seq![m] =~= seq![goal, n, m]);
    let c = b + m + "\n已有观察：\n"@;
    let back = p.skip(
        (c + if observations.len() == 0 {
            "（暂无）"@
        } else {
            join(observations, "\n\n"@)
        }).len() as int,
    );
    if observations.len() == 0 {
        lemma_order_in_front(c, "（暂无）"@ + back, seq![goal, n, m]);
        assert(c + ("（暂无）"@ + back) =~= p);
        assert(seq![goal, n, m] + all_of_them(lists) =~= seq![goal, n, m]);
    } else {
        let text = join(observations, "\n\n"@);
        lemma_joined_lists(Seq::empty(), observations, lists, "\n\n"@, Seq::empty());
        assert(Seq::<char>::empty() + text + Seq::<char>::empty() =~= text);
        lemma_order_behind(c, seq![goal, n, m], text, all_of_them(lists), back);
        assert(c + text + back =~= p);
    }
}

/// A step that a loop has taken: how it stood at the end of the step, and what the step came to.
pub ghost struct StepTaken {
    pub at: LoopRunView,
    pub effects: Seq<EffectView>,
    pub outcome: OutcomeView,
    pub stop: bool,
    pub elapsed_ms: u64,
    pub now: u64,
}

/// How a loop stands after a step.
pub open spec fn after_taken(t: StepTaken) -> LoopRunView {
    after_step(t.at, t.effects, t.outcome, t.stop, t.elapsed_ms, t.now).0
}

/// Whether steps are one run of a loop: the first one begins with nothing remembered, and each other
/// one with what is remembered after the one before.
pub open spec fn is_run(steps: Seq<StepTaken>) -> bool {
    &&& steps.len() > 0 ==> steps[0].at.observations.len() == 0
    &&& forall|k: int, j: int|
        #![trigger steps[k], steps[j]]
        0 <= k < steps.len() && j == k + 1 && j < steps.len() ==> steps[j].at.observations
            == after_taken(steps[k]).observations
}

/// What there is to tell of each of the steps.
pub open spec fn told_of_run(steps: Seq<StepTaken>) -> Seq<Seq<Seq<char>>> {
    Seq::new(steps.len(), |i: int| told_of_step(steps[i].at, steps[i].outcome))
}

proof fn lemma_run(steps: Seq<StepTaken>)
    requires
        is_run(steps),
        steps.len() > 0,
    ensures
        ({
            let seen = after_taken(steps.last()).observations;
            &&& seen.len() == steps.len()
            &&& forall|i: int|
                0 <= i < seen.len() ==> holds_in_order(
                    #[trigger] seen[i],
                    told_of_step(steps[i].at, steps[i].outcome),
                )
        }),
    decreases steps.len(),
{
    let last = steps.last();
    step_is_remembered(
        last.at,
        last.effects,
        last.outcome,
        last.stop,
        last.elapsed_ms,
        last.now,
    );
    let seen = after_taken(last).observations;
    let n = steps.len() - 1;
    if n > 0 {
        let rest = steps.drop_last();
        assert forall|k: int, j: int|
            #![trigger rest[k], rest[j]]
            0 <= k < rest.len() && j == k + 1 && j < rest.len() implies rest[j].at.observations
            == after_taken(rest[k]).observations by {
            assert(steps[k] == rest[k] && steps[j] == rest[j]);
        }
        assert(rest[0] == steps[0]);
        lemma_run(rest);
        assert(steps[n - 1] == rest.last() && steps[n] == last);
        assert(seen[n] == seen.last());
        assert forall|i: int| 0 <= i < seen.len() implies holds_in_order(
            #[trigger] seen[i],
            told_of_step(steps[i].at, steps[i].outcome),
        ) by {
            if i < n {
                assert(seen[i] == seen.drop_last()[i]);
                assert(seen.drop_last() == last.at.observations);
                assert(steps[i] == rest[i]);
            }
        }
    } else {
        assert(steps[0] == last);
        assert(seen[0] == seen.last());
    }
}

/// After any number of steps the request of the next one tells the model of all of them, in their
/// order: of each its number, what the model said, the tools it called, and what came of them.
pub proof fn all_steps_are_told(
    steps: Seq<StepTaken>,
    s: LoopRunView,
    contexts: Seq<Seq<char>>,
    defs: Seq<ToolDefView>,
    deny: Seq<Seq<char>>,
)
    requires
        is_run(steps),
        steps.len() > 0,
        s.observations == after_taken(steps.last()).observations,
    ensures
        s.observations.len() == steps.len(),
        at_prepared(s, contexts, defs, deny).1.action matches LoopActionView::Ask { request, .. }
            && holds_in_order(
            request.message,
            seq![s.goal, decimal(s.step as nat), decimal(s.max_steps as nat)] + all_of_them(
                told_of_run(steps),
            ),
        ),
{
    lemma_run(steps);
    let lists = told_of_run(steps);
    assert forall|i: int| 0 <= i < s.observations.len() implies holds_in_order(
        #[trigger] s.observations[i],
        lists[i],
    ) by {}
    lemma_prompt(s.goal, s.observations, lists, s.step as nat, s.max_steps as nat);
}

/// A loop begins at its first step with nothing remembered, for the goal and the peer it was started
/// with, and within the bounds it was given.
pub proof fn loop_begins_fresh(
    snap: crate::agent_loop::SnapshotView,
    max_duration_secs: u64,
    sleep_cap: u64,
)
    ensures
        ({
            let s = run_started(snap, max_duration_secs, sleep_cap);
            &&& s.id == snap.id
            &&& s.goal == snap.goal
            &&& s.peer_id == snap.peer_id
            &&& s.max_steps == snap.max_steps
            &&& s.max_tool_rounds == snap.max_tool_rounds
            &&& s.max_duration_secs == max_duration_secs
            &&& s.sleep_cap == sleep_cap
            &&& s.step == 1
            &&& s.stage == RunStage::Begin
            &&& s.observations.len() == 0
        }),
{
}

/// Whether an event tells of a step of a loop.
pub open spec fn announces_step(e: EventView, s: LoopRunView, o: OutcomeView) -> bool {
    &&& e.topic == "agent.loop.step"@
    &&& e.data.str_at("id"@) == Some(s.id)
    &&& e.data.at("step"@) == JsonView::PosInt(s.step as u64)
    &&& e.data.str_at("status"@) == Some(status_name(o.status))
    &&& e.data.str_at("message"@) == Some(o.message)
    &&& e.data.at("tool_calls"@) matches JsonView::Arr(items) && {
        &&& items.len() == s.all_calls.len()
        &&& forall|i: int|
            0 <= i < items.len() ==> #[trigger] items[i] == JsonView::Str(s.all_calls[i].name)
    }
}

/// Whether an event tells of the end of a loop.
pub open spec fn announces_end(
    e: EventView,
    id: Seq<char>,
    status: AgentLoopStatus,
    error: Option<Seq<char>>,
) -> bool {
    &&& e.topic == "agent.loop.done"@
    &&& e.data.str_at("id"@) == Some(id)
    &&& e.data.str_at("status"@) == Some(status_name(status))
    &&& e.data.str_at("error"@) == error
}

/// Whether a step is kept as it was taken.
pub open spec fn records_step(
    p: ProgressView,
    s: LoopRunView,
    o: OutcomeView,
    elapsed_ms: u64,
    now: u64,
) -> bool {
    &&& p.id == s.id
    &&& p.status == Some(AgentLoopStatus::Running)
    &&& p.error is None
    &&& p.step matches Some(step) && {
        &&& step.step == s.step
        &&& step.status == o.status
        &&& step.llm_message == o.message
        &&& step.reason == o.reason
        &&& step.tool_calls == names_of(s.all_calls)
        &&& step.tool_results == s.all_results
        &&& step.elapsed_ms == elapsed_ms
        &&& step.created_at_ms == now
    }
}

/// A step is reported and announced as it was taken, behind what else is to be done. The loop ends
/// where the step is done, waits for the user or has failed, and that is reported and announced too;
/// else it goes on with the next step, after the sleep that was asked for, as far as it is allowed.
pub proof fn step_is_reported(
    s: LoopRunView,
    effects: Seq<EffectView>,
    o: OutcomeView,
    stop: bool,
    elapsed_ms: u64,
    now: u64,
)
    requires
        s.step < usize::MAX,
    ensures
        ({
            let (t, out) = after_step(s, effects, o, stop, elapsed_ms, now);
            let ends = o.status == AgentLoopStatus::Completed || o.status
                == AgentLoopStatus::WaitingForUser || o.status == AgentLoopStatus::Failed;
            let last = if stop {
                AgentLoopStatus::Stopped
            } else {
                o.status
            };
            let error = if o.status == AgentLoopStatus::Failed {
                o.reason
            } else {
                None
            };
            let n = effects.len() as int;
            &&& records_step(out.reports[0], s, o, elapsed_ms, now)
            &&& effects.is_prefix_of(out.effects)
            &&& out.effects[n] is Publish
            &&& announces_step(out.effects[n]->Publish_0, s, o)
            &&& ends ==> {
                &&& t.stage == RunStage::Done
                &&& out.action is Finish
                &&& out.reports.len() == 2
                &&& out.reports[1].id == s.id
                &&& out.reports[1].step is None
                &&& out.reports[1].status == Some(last)
                &&& out.reports[1].error == error
                &&& out.effects.len() == n + 2
                &&& out.effects[n + 1] is Publish
                &&& announces_end(out.effects[n + 1]->Publish_0, s.id, last, error)
            }
            &&& !ends ==> {
                &&& t.stage == RunStage::Begin
                &&& t.step == s.step + 1
                &&& out.reports.len() == 1
                &&& out.effects.len() == n + 1
                &&& match o.sleep_seconds {
                    Some(k) if k > 0 && s.sleep_cap > 0 => out.action matches LoopActionView::Sleep {
                        seconds,
                    } && seconds <= k && seconds <= s.sleep_cap && (seconds == k || seconds
                        == s.sleep_cap),
                    _ => out.action is Begin,
                }
            }
        }),
{
    lemma_names();
    let (t, out) = after_step(s, effects, o, stop, elapsed_ms, now);
    let step = step_of(s, o, elapsed_ms, now);
    assert(step.tool_calls =~= names_of(s.all_calls));
    let e = crate::agent_runner::step_event(s.id, step);
    assert(announces_step(e, s, o));
    assert(effects.is_prefix_of(out.effects));
}

/// A failure ends the loop, and is reported and announced with its reason.
pub proof fn failure_ends_the_loop(
    s: LoopRunView,
    reason: Seq<char>,
    stop: bool,
    elapsed_ms: u64,
    now: u64,
)
    ensures
        ({
            let (t, out) = at_answer(s, LoopAnswerView::Failed(reason), stop, elapsed_ms, now);
            &&& same_loop(t, s)
            &&& t.stage == RunStage::Done
            &&& out.action is Finish
            &&& out.reports.len() == 2
            &&& out.reports[0].id == s.id
            &&& out.reports[0].status == Some(AgentLoopStatus::Failed)
            &&& out.reports[0].error == Some(reason)
            &&& out.effects.last() is Publish
            &&& announces_end(
                out.effects.last()->Publish_0,
                s.id,
                if stop {
                    AgentLoopStatus::Stopped
                } else {
                    AgentLoopStatus::Failed
                },
                Some(reason),
            )
        }),
        ({
            let out = at_answer(s, LoopAnswerView::Lost(reason), stop, elapsed_ms, now).1;
            out.action is Finish && (out.reports[0].error matches Some(e) && reason.is_suffix_of(e))
        }),
{
    lemma_names();
    assert(reason.is_suffix_of("agent loop LLM mailbox error: "@ + reason));
}

/// A loop goes on at the beginning of a step as long as steps are left, it is not told to stop and
/// it has not run too long; a paused one waits. One that has run too long has failed.
pub proof fn step_begins_in_bounds(s: LoopRunView, stop: bool, pause: bool, elapsed_secs: u64)
    ensures
        ({
            let (t, out) = at_begin(s, stop, pause, elapsed_secs);
            let late = s.max_duration_secs > 0 && elapsed_secs >= s.max_duration_secs;
            &&& out.action is Finish <==> s.step > s.max_steps || stop || late
            &&& out.action is Hold <==> s.step <= s.max_steps && !stop && !late && pause
            &&& out.action is Prepare <==> s.step <= s.max_steps && !stop && !late && !pause
            &&& s.step <= s.max_steps && !stop && late ==> {
                &&& out.reports.last().status == Some(AgentLoopStatus::Failed)
                &&& out.reports.last().error matches Some(e) && holds(
                    e,
                    decimal(s.max_duration_secs as nat),
                )
            }
            &&& s.step > s.max_steps && !stop ==> out.reports.last().status == Some(
                AgentLoopStatus::Completed,
            )
        }),
{
    let n = decimal(s.max_duration_secs as nat);
    lemma_holds("exceeded max duration "@, n, "s"@);
}

/// A loop is told of every tool that is neither internal nor forbidden, in order, and of no other.
pub proof fn allowed_tools_are_shown(defs: Seq<ToolDefView>, deny: Seq<Seq<char>>)
    ensures
        ({
            let shown = defs.filter(|d: ToolDefView| !d.internal && !deny.contains(d.name));
            &&& loop_tools(defs, deny).len() == shown.len()
            &&& forall|i: int|
                0 <= i < shown.len() ==> tells_of(#[trigger] loop_tools(defs, deny)[i], shown[i])
        }),
    decreases defs.len(),
{
    reveal(Seq::filter);
    if defs.len() > 0 {
        let rest = defs.drop_last();
        allowed_tools_are_shown(rest, deny);
        lemma_names();
        let f = |d: ToolDefView| !d.internal && !deny.contains(d.name);
        let shown = defs.filter(f);
        let tools = loop_tools(defs, deny);
        assert forall|i: int| 0 <= i < shown.len() implies tells_of(
            #[trigger] tools[i],
            shown[i],
        ) by {
            if f(defs.last()) && i == shown.len() - 1 {
                assert(tools[i] == crate::pipeline::tool_json(defs.last()));
            } else {
                assert(tools[i] == loop_tools(rest, deny)[i]);
                assert(shown[i] == rest.filter(f)[i]);
            }
        }
    }
}

/// Whether a loop that stands at a call, with the results before it, does the right thing next: it
/// runs the next tool of the answer that is not forbidden, each forbidden one before it being
/// refused in its place; or, behind the last one, asks the model with all calls and results.
pub open spec fn calls_on(
    s: LoopRunView,
    out: (LoopRunView, LoopOutView),
    at: int,
    results: Seq<Seq<char>>,
) -> bool {
    let calls = s.response.tool_calls;
    match out.1.action {
        LoopActionView::RunTool { name, arguments } => {
            let k = out.0.next_call as int;
            &&& at <= k < calls.len()
            &&& name == calls[k].name
            &&& arguments == calls[k].arguments
            &&& !s.deny.contains(name)
            &&& refuses(calls, s.deny, at, k, results, out.0.round_results)
            &&& out.0.all_calls == s.all_calls
            &&& out.0.all_results == s.all_results
        },
        LoopActionView::Ask { request, .. } => {
            &&& request.assistant_tool_calls == s.all_calls + calls
            &&& s.all_results.is_prefix_of(request.tool_results)
            &&& refuses(
                calls,
                s.deny,
                at,
                calls.len() as int,
                results,
                request.tool_results.skip(s.all_results.len() as int),
            )
            &&& request.tools == s.tools
            &&& request.peer_id == s.peer_id
            &&& request.message.len() == 0
            &&& request.skip_store
            &&& out.0.all_calls == request.assistant_tool_calls
            &&& out.0.all_results == request.tool_results
        },
        _ => false,
    }
}

/// Whether `after` has, behind `results`, one line for each call from place `at` up to `end`, all of
/// them forbidden, that names the tool.
pub open spec fn refuses(
    calls: Seq<ToolCallView>,
    deny: Seq<Seq<char>>,
    at: int,
    end: int,
    results: Seq<Seq<char>>,
    after: Seq<Seq<char>>,
) -> bool {
    &&& results.is_prefix_of(after)
    &&& after.len() == results.len() + (end - at)
    &&& forall|k: int| at <= k < end ==> deny.contains((#[trigger] calls[k]).name)
    &&& forall|k: int, j: int|
        #![trigger calls[k], after[j]]
        at <= k < end && j == results.len() + (k - at) ==> holds(after[j], calls[k].name)
}

proof fn lemma_calls_on(s: LoopRunView, effects: Seq<EffectView>)
    requires
        s.response.tool_calls.len() <= usize::MAX,
        s.next_call <= s.response.tool_calls.len(),
    ensures
        calls_on(s, at_calls(s, effects), s.next_call as int, s.round_results),
    decreases s.response.tool_calls.len() - s.next_call,
{
    let calls = s.response.tool_calls;
    let out = at_calls(s, effects);
    let at = s.next_call as int;
    if s.next_call >= calls.len() {
        let got = out.1.action->Ask_request.tool_results;
        assert(got.skip(s.all_results.len() as int) =~= s.round_results);
        assert(s.all_results.is_prefix_of(got));
    } else {
        let call = calls[at];
        if s.deny.contains(call.name) {
            let line = crate::agent_runner::denied_line(call.name);
            let t = LoopRunView {
                next_call: (s.next_call + 1) as usize,
                round_results: s.round_results.push(line),
                ..s
            };
            lemma_calls_on(t, effects);
            lemma_holds(
                "【"@,
                call.name,
                "】错误：该工具已被 Agent Loop 策略禁用（AGENT_LOOP_TOOL_DENY）"@,
            );
            assert("【"@ + call.name
                + "】错误：该工具已被 Agent Loop 策略禁用（AGENT_LOOP_TOOL_DENY）"@ =~= line);
            let after = match out.1.action {
                LoopActionView::Ask { request, .. } => request.tool_results.skip(
                    s.all_results.len() as int,
                ),
                _ => out.0.round_results,
            };
            let end = match out.1.action {
                LoopActionView::Ask { .. } => calls.len() as int,
                _ => out.0.next_call as int,
            };
            assert(at_calls(t, effects) == out);
            assert(refuses(calls, s.deny, at + 1, end, t.round_results, after));
            assert(after[s.round_results.len() as int] == line) by {
                assert(t.round_results[s.round_results.len() as int] == line);
            }
            assert(s.round_results.is_prefix_of(after)) by {
                assert(s.round_results.is_prefix_of(t.round_results));
                assert forall|i: int| 0 <= i < s.round_results.len() implies s.round_results[i]
                    == after[i] by {
                    assert(t.round_results[i] == s.round_results[i]);
                }
            }
            assert forall|k: int, j: int|
                #![trigger calls[k], after[j]]
                at <= k < end && j == s.round_results.len() + (k - at) implies holds(
                after[j],
                calls[k].name,
            ) by {
                if k > at {
                    assert(j == t.round_results.len() + (k - (at + 1)));
                }
            }
            assert(refuses(calls, s.deny, at, end, s.round_results, after));
        } else {
            assert(refuses(calls, s.deny, at, at, s.round_results, s.round_results));
        }
    }
}

/// The calls of an answer are made in their order, from the first on, but for those that are
/// forbidden.
pub proof fn loop_calls_in_order(
    s: LoopRunView,
    r: LlmResponseView,
    elapsed_ms: u64,
    now: u64,
)
    requires
        0 < r.tool_calls.len() <= usize::MAX,
        s.answered ==> s.round + 1 < s.max_tool_rounds,
        !s.answered ==> 0 < s.max_tool_rounds,
    ensures
        calls_on(
            LoopRunView { response: r, ..s },
            at_answer(s, LoopAnswerView::Response(r), false, elapsed_ms, now),
            0,
            Seq::empty(),
        ),
{
    let t = LoopRunView {
        response: r,
        answered: true,
        round: if s.answered {
            (s.round + 1) as usize
        } else {
            0
        },
        next_call: 0,
        round_results: Seq::empty(),
        ..s
    };
    lemma_calls_on(t, crate::pipeline::answer_records(r));
}

/// What a tool returns is handed on to the model under the tool's name, behind the results before
/// it, and is entered; then the calls go on.
pub proof fn loop_result_is_handed_on(s: LoopRunView, result: Option<ToolResultView>)
    requires
        s.response.tool_calls.len() <= usize::MAX,
        s.next_call < s.response.tool_calls.len(),
    ensures
        ({
            let name = s.response.tool_calls[s.next_call as int].name;
            let out = at_tool(s, result);
            let success = result matches Some(r) && r.success;
            &&& out.1.effects == seq![EffectView::RecordTool { tool_name: name, success }]
            &&& exists|line: Seq<char>|
                {
                    &&& #[trigger] holds(line, name)
                    &&& result matches Some(r) ==> reports(line, name, r)
                    &&& calls_on(s, out, s.next_call + 1, s.round_results.push(line))
                }
        }),
{
    let name = s.response.tool_calls[s.next_call as int].name;
    let r = match result {
        Some(r) => r,
        None => crate::pipeline::not_found(name),
    };
    let line = crate::pipeline::result_line(name, r);
    crate::laws::answers::lemma_reports(name, r);
    let t = LoopRunView {
        next_call: (s.next_call + 1) as usize,
        round_results: s.round_results.push(line),
        ..s
    };
    let effects = seq![EffectView::RecordTool { tool_name: name, success: r.success }];
    lemma_calls_on(t, effects);
    lemma_calls_keep(t, effects);
    assert(holds(line, name));
}

/// A step ends with what the model says where it calls no tool; with too many rounds, or told to
/// stop, it ends without what it asks for.
pub proof fn answer_ends_the_step(
    s: LoopRunView,
    r: LlmResponseView,
    stop: bool,
    elapsed_ms: u64,
    now: u64,
)
    requires
        r.tool_calls.len() == 0,
    ensures
        ({
            let (t, out) = at_answer(s, LoopAnswerView::Response(r), stop, elapsed_ms, now);
            let o = outcome_decided(r.content);
            &&& t.observations.len() == s.observations.len() + 1
            &&& t.observations.drop_last() == s.observations
            &&& holds_in_order(t.observations.last(), told_of_step(s, o))
            &&& records_step(out.reports[0], s, o, elapsed_ms, now)
            &&& out.effects[0] == EffectView::RecordUsage {
                model: r.model,
                prompt_tokens: r.prompt_tokens,
                completion_tokens: r.completion_tokens,
                prompt_cache_hit_tokens: r.prompt_cache_hit_tokens,
                prompt_cache_miss_tokens: r.prompt_cache_miss_tokens,
            }
        }),
{
    let t = LoopRunView {
        response: r,
        answered: true,
        round: if s.answered {
            (s.round + 1) as usize
        } else {
            0
        },
        ..s
    };
    let o = outcome_decided(r.content);
    let records = crate::pipeline::answer_records(r);
    step_is_remembered(t, records, o, stop, elapsed_ms, now);
    assert(told_of_step(t, o) == told_of_step(s, o));
    let step = step_of(t, o, elapsed_ms, now);
    assert(step.tool_calls =~= names_of(s.all_calls));
    assert(records[0] is RecordUsage);
}

/// What the model decides in JSON is taken as it is given: its word for the status, its message and
/// its reason, and how long to sleep. Where its answer is not such a decision, the whole answer is
/// the message and the loop goes on.
pub proof fn decision_is_taken(
    content: Seq<char>,
    v: Option<JsonView>,
    status: Seq<char>,
    message: Seq<char>,
    reason: Seq<char>,
    sleep: u64,
)
    requires
        v == crate::json_record::record_read(
            crate::agent_loop::unfenced(crate::text::trim(content)),
            crate::agent_loop::decision_names(),
        ),
        !crate::text::blank(message),
    ensures
        v == Some(
            JsonView::object().with("status"@, JsonView::Str(status)).with(
                "message"@,
                JsonView::Str(message),
            ).with("reason"@, JsonView::Str(reason)).with("sleep_seconds"@, JsonView::PosInt(sleep)),
        ) ==> outcome_decided(content) == (OutcomeView {
            status: crate::agent_loop::decided_status(status),
            message,
            reason: Some(reason),
            sleep_seconds: Some(sleep),
        }),
        v is None && !crate::text::blank(content) ==> outcome_decided(content) == (OutcomeView {
            status: AgentLoopStatus::Running,
            message: crate::text::trim(content),
            reason: None,
            sleep_seconds: None,
        }),
{
    lemma_names();
    crate::text::lemma_trim_blank(message);
    crate::text::lemma_trim_blank(content);
    crate::text::lemma_trim_idempotent(content);
    let o = JsonView::object().with("status"@, JsonView::Str(status)).with(
        "message"@,
        JsonView::Str(message),
    ).with("reason"@, JsonView::Str(reason)).with("sleep_seconds"@, JsonView::PosInt(sleep));
    if v == Some(o) {
        let entries = o->Obj_0;
        assert(entries[0].0 == "status"@);
        assert(entries[1].0 == "message"@);
        assert(entries[2].0 == "reason"@);
        assert(entries[3].0 == "sleep_seconds"@);
        assert(crate::agent_loop::decision_of(o) is Some);
    }
}

/// Whether a loop waits for what its step asks for.
pub open spec fn loop_waits_for(out: (LoopRunView, LoopOutView)) -> bool {
    match out.1.action {
        LoopActionView::Begin => out.0.stage == RunStage::Begin,
        LoopActionView::Sleep { seconds } => out.0.stage == RunStage::Begin && seconds > 0,
        LoopActionView::Hold => out.0.stage == RunStage::Held,
        LoopActionView::Prepare => out.0.stage == RunStage::Preparing,
        LoopActionView::Ask { .. } => out.0.stage == RunStage::Asking,
        LoopActionView::RunTool { .. } => out.0.stage == RunStage::Tool,
        LoopActionView::Finish => out.0.stage == RunStage::Done,
    }
}

/// Whether two states are of the same loop: its name, goal, peer and limits.
pub open spec fn same_limits(t: LoopRunView, s: LoopRunView) -> bool {
    &&& t.id == s.id
    &&& t.goal == s.goal
    &&& t.peer_id == s.peer_id
    &&& t.max_steps == s.max_steps
    &&& t.max_tool_rounds == s.max_tool_rounds
    &&& t.max_duration_secs == s.max_duration_secs
    &&& t.sleep_cap == s.sleep_cap
}

/// Going through the calls keeps the loop and the step.
proof fn lemma_calls_keep_the_loop(s: LoopRunView, effects: Seq<EffectView>)
    ensures
        loop_waits_for(at_calls(s, effects)),
        same_loop(s, at_calls(s, effects).0),
        at_calls(s, effects).0.step == s.step,
        at_calls(s, effects).0.stage != RunStage::Begin,
        at_calls(s, effects).0.answered == s.answered,
        at_calls(s, effects).0.round == s.round,
        at_calls(s, effects).0.response == s.response,
        at_calls(s, effects).0.deny == s.deny,
    decreases s.response.tool_calls.len() - s.next_call,
{
    if s.next_call < s.response.tool_calls.len() {
        let call = s.response.tool_calls[s.next_call as int];
        if s.deny.contains(call.name) && s.next_call < usize::MAX {
            lemma_calls_keep_the_loop(
                LoopRunView {
                    next_call: (s.next_call + 1) as usize,
                    round_results: s.round_results.push(denied_line(call.name)),
                    ..s
                },
                effects,
            );
        }
    }
}

/// Every step of a loop waits for what it asks for; its name, goal, peer and limits stay. A loop
/// moves on to the next step only when this one is over.
pub proof fn loop_waits_for_what_it_asks(
    s: LoopRunView,
    stop: bool,
    pause: bool,
    elapsed: u64,
    now: u64,
    contexts: Seq<Seq<char>>,
    defs: Seq<ToolDefView>,
    deny: Seq<Seq<char>>,
    a: LoopAnswerView,
    result: Option<ToolResultView>,
)
    requires
        s.step < usize::MAX,
    ensures
        ({
            let out = at_begin(s, stop, pause, elapsed);
            loop_waits_for(out) && same_loop(s, out.0) && out.0.step == s.step
        }),
        ({
            let out = at_hold(s, stop, pause);
            loop_waits_for(out) && same_loop(s, out.0) && out.0.step == s.step
        }),
        ({
            let out = at_prepared(s, contexts, defs, deny);
            &&& loop_waits_for(out) && same_loop(s, out.0) && out.0.step == s.step
            &&& out.0.observations == s.observations
            &&& out.0.deny == deny
            &&& !out.0.answered
            &&& out.0.round == 0
            &&& out.0.all_calls.len() == 0
            &&& out.0.all_results.len() == 0
        }),
        ({
            let out = at_answer(s, a, stop, elapsed, now);
            &&& loop_waits_for(out)
            &&& same_limits(s, out.0)
            &&& if out.0.stage == RunStage::Begin {
                out.0.step == s.step + 1
            } else {
                out.0.step == s.step
            }
        }),
        ({
            let out = at_tool(s, result);
            loop_waits_for(out) && same_loop(s, out.0) && out.0.step == s.step
        }),
{
    if let LoopAnswerView::Response(r) = a {
        let t = LoopRunView {
            response: r,
            answered: true,
            round: if s.answered {
                (s.round + 1) as usize
            } else {
                0
            },
            ..s
        };
        let u = LoopRunView { next_call: 0, round_results: Seq::empty(), ..t };
        lemma_calls_keep_the_loop(u, answer_records(r));
    }
    let name = s.response.tool_calls[s.next_call as int].name;
    let r = match result {
        Some(r) => r,
        None => not_found(name),
    };
    lemma_calls_keep_the_loop(
        LoopRunView {
            next_call: (s.next_call + 1) as usize,
            round_results: s.round_results.push(result_line(name, r)),
            ..s
        },
        seq![EffectView::RecordTool { tool_name: name, success: r.success }],
    );
}

/// A step that still asks for tools when its rounds are used up fails, and the loop ends with a
/// reason; one that is told to stop runs no tool and is reported as stopped.
pub proof fn step_ends_without_more_tools(
    s: LoopRunView,
    r: LlmResponseView,
    stop: bool,
    elapsed: u64,
    now: u64,
)
    requires
        r.tool_calls.len() > 0,
        s.round < usize::MAX,
    ensures
        ({
            let out = at_answer(s, LoopAnswerView::Response(r), stop, elapsed, now).1;
            let used_up = s.max_tool_rounds <= if s.answered {
                s.round + 1
            } else {
                0
            };
            &&& used_up || stop ==> !(out.action is RunTool) && !(out.action is Ask)
            &&& used_up ==> {
                &&& out.action is Finish
                &&& out.reports[0].step matches Some(step) && step.status
                    == AgentLoopStatus::Failed && step.step == s.step
                &&& out.reports.last().status == Some(
                    if stop {
                        AgentLoopStatus::Stopped
                    } else {
                        AgentLoopStatus::Failed
                    },
                )
                &&& out.reports.last().error is Some
            }
            &&& stop && !used_up ==> {
                &&& out.reports[0].step matches Some(step) && step.status
                    == AgentLoopStatus::Stopped && step.step == s.step
                &&& out.action is Begin
            }
        }),
{
}

/// Every answer that asks for tools is kept, and counts as a round behind the first of its step.
pub proof fn loop_rounds_are_counted(s: LoopRunView, r: LlmResponseView, elapsed: u64, now: u64)
    requires
        r.tool_calls.len() > 0,
        s.round < usize::MAX,
    ensures
        ({
            let t = at_answer(s, LoopAnswerView::Response(r), false, elapsed, now).0;
            &&& t.answered
            &&& t.response == r
            &&& t.deny == s.deny
            &&& t.round == if s.answered {
                s.round + 1
            } else {
                0
            }
        }),
{
    let t = LoopRunView {
        response: r,
        answered: true,
        round: if s.answered {
            (s.round + 1) as usize
        } else {
            0
        },
        next_call: 0,
        round_results: Seq::empty(),
        ..s
    };
    lemma_calls_keep_the_loop(t, answer_records(r));
}

} // verus!
