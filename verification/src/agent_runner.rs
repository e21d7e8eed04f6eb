//! The runner of an agent loop: one step after another until the goal is reached, the model asks
//! for the user, something fails, or the loop is told to stop.
//!
//! A [`LoopRun`] is a state machine. Each method takes what came back from outside and returns a
//! [`LoopOut`]: reports to the table, effects to perform at once, and what to wait for next.

use crate::agent_loop::{
    build_loop_prompt, decided_status, decision, format_observation, is_tool_denied, loop_prompt,
    loop_duration_exceeded, loop_status_str, observation, parse_loop_decision,
    status_from_decision, status_name, AgentLoopSnapshot, AgentLoopStatus, AgentLoopStep,
    LoopStepView, SnapshotView,
};
use crate::chat::{
    clone_json, clone_strings, ChatRequest, ChatRequestView, LlmResponse, LlmResponseView,
};
use crate::effect::{add_effect, effect_views, Effect, EffectView};
use crate::event::{Event, EventView};
use crate::json::{json_views, Json, JsonView};
use crate::loop_table::{AgentLoopProgress, ProgressView};
use crate::numbers::{decimal, push_decimal};
use crate::pipeline::{answer_records, line_of, no_response, not_found, result_line, text_json, tool_json};
use crate::text::{is_blank, trim, views};
use crate::tool::{
    call_views, clone_calls, def_views, opt_text, ToolCall, ToolCallView, ToolDef, ToolDefView,
    ToolResult, ToolResultView,
};
use vstd::prelude::*;

verus! {

broadcast use vstd::string::group_string_axioms;

/// How far a step has come.
#[derive(Debug, Clone, Copy, PartialEq, Eq, Structural)]
pub enum RunStage {
    /// A step is to begin.
    Begin,
    /// The loop is paused.
    Held,
    /// Waits for contexts and tools.
    Preparing,
    /// Waits for the model.
    Asking,
    /// Waits for a tool.
    Tool,
    /// The loop has ended.
    Done,
}

/// A loop at work.
pub struct LoopRun {
    id: String,
    goal: String,
    peer_id: String,
    max_steps: usize,
    max_tool_rounds: usize,
    max_duration_secs: u64,
    sleep_cap: u64,
    stage: RunStage,
    step: usize,
    observations: Vec<String>,
    tools: Vec<Json>,
    deny: Vec<String>,
    response: LlmResponse,
    answered: bool,
    round: usize,
    next_call: usize,
    round_results: Vec<String>,
    all_calls: Vec<ToolCall>,
    all_results: Vec<String>,
}

/// The model of a [`LoopRun`].
pub ghost struct LoopRunView {
    pub id: Seq<char>,
    pub goal: Seq<char>,
    pub peer_id: Seq<char>,
    pub max_steps: usize,
    pub max_tool_rounds: usize,
    pub max_duration_secs: u64,
    pub sleep_cap: u64,
    pub stage: RunStage,
    /// The number of the step, from 1.
    pub step: usize,
    /// What the steps before have come to.
    pub observations: Seq<Seq<char>>,
    pub tools: Seq<JsonView>,
    /// The tools that may not be called.
    pub deny: Seq<Seq<char>>,
    /// The latest answer of this step.
    pub response: LlmResponseView,
    /// Whether the model has answered in this step.
    pub answered: bool,
    /// How many rounds of tool calls of this step are complete.
    pub round: usize,
    /// Which call of the latest answer is being made.
    pub next_call: usize,
    pub round_results: Seq<Seq<char>>,
    pub all_calls: Seq<ToolCallView>,
    pub all_results: Seq<Seq<char>>,
}

impl View for LoopRun {
    type V = LoopRunView;

    closed spec fn view(&self) -> LoopRunView {
        LoopRunView {
            id: self.id@,
            goal: self.goal@,
            peer_id: self.peer_id@,
            max_steps: self.max_steps,
            max_tool_rounds: self.max_tool_rounds,
            max_duration_secs: self.max_duration_secs,
            sleep_cap: self.sleep_cap,
            stage: self.stage,
            step: self.step,
            observations: views(self.observations@),
            tools: json_views(self.tools@),
            deny: views(self.deny@),
            response: self.response@,
            answered: self.answered,
            round: self.round,
            next_call: self.next_call,
            round_results: views(self.round_results@),
            all_calls: call_views(self.all_calls@),
            all_results: views(self.all_results@),
        }
    }
}

/// What holds of a loop at work at all times: a step in progress is one of those allowed, a tool
/// that is waited for is one the latest answer asks for, no more rounds are complete than are
/// allowed, and each call that is complete has one result.
pub open spec fn run_sound(s: LoopRunView) -> bool {
    &&& s.max_steps < usize::MAX
    &&& 1 <= s.step <= s.max_steps + 1
    &&& s.round <= s.max_tool_rounds
    &&& s.all_results.len() == s.all_calls.len()
    &&& (s.stage == RunStage::Held || s.stage == RunStage::Preparing || s.stage == RunStage::Asking
        || s.stage == RunStage::Tool) ==> s.step <= s.max_steps
    &&& s.stage == RunStage::Tool ==> {
        &&& s.answered
        &&& s.next_call < s.response.tool_calls.len()
        &&& s.round_results.len() == s.next_call
        &&& s.round < s.max_tool_rounds
    }
    &&& (s.stage == RunStage::Asking && s.answered) ==> s.round < s.max_tool_rounds
    &&& !s.answered ==> s.round == 0
}

/// What a loop waits for next.
#[derive(Debug, PartialEq)]
pub enum LoopAction {
    /// The beginning of a step.
    Begin,
    /// The beginning of a step, after some seconds.
    Sleep { seconds: u64 },
    /// A short while, and a look at what the loop is asked.
    Hold,
    /// The plugins' contexts and the tool definitions.
    Prepare,
    /// The model's answer.
    Ask { request: ChatRequest, max_retries: u32 },
    /// The result of a tool.
    RunTool { name: String, arguments: Json },
    /// Nothing: the loop has ended.
    Finish,
}

/// The model of a [`LoopAction`].
pub ghost enum LoopActionView {
    Begin,
    Sleep { seconds: u64 },
    Hold,
    Prepare,
    Ask { request: ChatRequestView, max_retries: u32 },
    RunTool { name: Seq<char>, arguments: JsonView },
    Finish,
}

impl View for LoopAction {
    type V = LoopActionView;

    open spec fn view(&self) -> LoopActionView {
        match self {
            LoopAction::Begin => LoopActionView::Begin,
            LoopAction::Sleep { seconds } => LoopActionView::Sleep { seconds: *seconds },
            LoopAction::Hold => LoopActionView::Hold,
            LoopAction::Prepare => LoopActionView::Prepare,
            LoopAction::Ask { request, max_retries } => LoopActionView::Ask {
                request: request@,
                max_retries: *max_retries,
            },
            LoopAction::RunTool { name, arguments } => LoopActionView::RunTool {
                name: name@,
                arguments: arguments@,
            },
            LoopAction::Finish => LoopActionView::Finish,
        }
    }
}

/// What comes of one event: reports to the table, effects, and what to wait for.
#[derive(Debug, PartialEq)]
pub struct LoopOut {
    pub reports: Vec<AgentLoopProgress>,
    pub effects: Vec<Effect>,
    pub action: LoopAction,
}

/// The model of a [`LoopOut`].
pub ghost struct LoopOutView {
    pub reports: Seq<ProgressView>,
    pub effects: Seq<EffectView>,
    pub action: LoopActionView,
}

/// The models of a list of reports.
pub open spec fn report_views(v: Seq<AgentLoopProgress>) -> Seq<ProgressView> {
    v.map_values(|p: AgentLoopProgress| p@)
}

impl View for LoopOut {
    type V = LoopOutView;

    open spec fn view(&self) -> LoopOutView {
        LoopOutView {
            reports: report_views(self.reports@),
            effects: effect_views(self.effects@),
            action: self.action@,
        }
    }
}

/// A loop that has just been started.
pub open spec fn run_started(
    snap: SnapshotView,
    max_duration_secs: u64,
    sleep_cap: u64,
) -> LoopRunView {
    LoopRunView {
        id: snap.id,
        goal: snap.goal,
        peer_id: snap.peer_id,
        max_steps: snap.max_steps,
        max_tool_rounds: snap.max_tool_rounds,
        max_duration_secs,
        sleep_cap,
        stage: RunStage::Begin,
        step: 1,
        observations: Seq::empty(),
        tools: Seq::empty(),
        deny: Seq::empty(),
        response: no_response(),
        answered: false,
        round: 0,
        next_call: 0,
        round_results: Seq::empty(),
        all_calls: Seq::empty(),
        all_results: Seq::empty(),
    }
}

/// The event that tells that a loop has ended.
pub open spec fn done_event(
    id: Seq<char>,
    status: AgentLoopStatus,
    error: Option<Seq<char>>,
) -> EventView {
    EventView::fresh(
        "agent.loop.done"@,
        JsonView::object().with("id"@, JsonView::Str(id)).with(
            "status"@,
            JsonView::Str(status_name(status)),
        ).with("error"@, text_json(error)),
        "agent-loop"@,
    )
}

/// The end of a loop: it is reported and announced. One that was told to stop has been stopped.
pub open spec fn run_finish(
    s: LoopRunView,
    reports: Seq<ProgressView>,
    effects: Seq<EffectView>,
    status: AgentLoopStatus,
    error: Option<Seq<char>>,
    stop: bool,
) -> (LoopRunView, LoopOutView) {
    let last = if stop {
        AgentLoopStatus::Stopped
    } else {
        status
    };
    (
        LoopRunView { stage: RunStage::Done, ..s },
        LoopOutView {
            reports: reports.push(
                ProgressView { id: s.id, step: None, status: Some(last), error },
            ),
            effects: effects.push(EffectView::Publish(done_event(s.id, last, error))),
            action: LoopActionView::Finish,
        },
    )
}

/// An outcome without reports and effects.
pub open spec fn quiet(action: LoopActionView) -> LoopOutView {
    LoopOutView { reports: Seq::empty(), effects: Seq::empty(), action }
}

/// What is said of a loop that has run too long.
pub open spec fn too_long(max_duration_secs: u64) -> Seq<char> {
    "exceeded max duration "@ + decimal(max_duration_secs as nat) + "s"@
}

/// At the beginning of a step: the end where no steps are left, the loop is told to stop or has run
/// too long; else the step, or a wait where the loop is paused.
pub open spec fn at_begin(s: LoopRunView, stop: bool, pause: bool, elapsed_secs: u64) -> (
    LoopRunView,
    LoopOutView,
) {
    if s.step > s.max_steps {
        run_finish(s, Seq::empty(), Seq::empty(), AgentLoopStatus::Completed, None, stop)
    } else if stop {
        run_finish(s, Seq::empty(), Seq::empty(), AgentLoopStatus::Stopped, None, stop)
    } else if s.max_duration_secs > 0 && elapsed_secs >= s.max_duration_secs {
        run_finish(
            s,
            Seq::empty(),
            Seq::empty(),
            AgentLoopStatus::Failed,
            Some(too_long(s.max_duration_secs)),
            stop,
        )
    } else {
        at_hold(s, stop, pause)
    }
}

/// While the loop is paused: the end where it is told to stop, the step where it is told to go on,
/// else another wait.
pub open spec fn at_hold(s: LoopRunView, stop: bool, pause: bool) -> (LoopRunView, LoopOutView) {
    if stop {
        run_finish(s, Seq::empty(), Seq::empty(), AgentLoopStatus::Stopped, None, stop)
    } else if pause {
        (LoopRunView { stage: RunStage::Held, ..s }, quiet(LoopActionView::Hold))
    } else {
        (LoopRunView { stage: RunStage::Preparing, ..s }, quiet(LoopActionView::Prepare))
    }
}

/// The tools that a loop is told of: those that are neither internal nor forbidden, in order.
pub open spec fn loop_tools(defs: Seq<ToolDefView>, deny: Seq<Seq<char>>) -> Seq<JsonView>
    decreases defs.len(),
{
    if defs.len() == 0 {
        Seq::empty()
    } else if defs.last().internal || deny.contains(defs.last().name) {
        loop_tools(defs.drop_last(), deny)
    } else {
        loop_tools(defs.drop_last(), deny).push(tool_json(defs.last()))
    }
}

/// The id of the request of a step.
pub open spec fn step_request_id(s: LoopRunView) -> Seq<char> {
    "agent-loop-"@ + s.id + "-s"@ + decimal(s.step as nat)
}

/// A request of a loop.
pub open spec fn loop_request(
    s: LoopRunView,
    message: Seq<char>,
    contexts: Seq<Seq<char>>,
    request_id: Seq<char>,
) -> ChatRequestView {
    ChatRequestView {
        message,
        peer_id: s.peer_id,
        tools: s.tools,
        skip_store: true,
        contexts,
        jailbreak_index: None,
        image_base64: None,
        video_base64: None,
        video_mime: None,
        file_base64: None,
        file_name: None,
        stream: false,
        request_id,
        source: "agent-loop"@,
        user_name: "agent-loop"@,
        max_tokens: None,
        original_user_msg: None,
        assistant_tool_calls: s.all_calls,
        tool_results: s.all_results,
    }
}

/// After contexts and tools have been collected: the model is asked for the step.
pub open spec fn at_prepared(
    s: LoopRunView,
    contexts: Seq<Seq<char>>,
    defs: Seq<ToolDefView>,
    deny: Seq<Seq<char>>,
) -> (LoopRunView, LoopOutView) {
    let t = LoopRunView {
        stage: RunStage::Asking,
        tools: loop_tools(defs, deny),
        deny,
        answered: false,
        round: 0,
        all_calls: Seq::empty(),
        all_results: Seq::empty(),
        ..s
    };
    (
        t,
        quiet(
            LoopActionView::Ask {
                request: loop_request(
                    t,
                    loop_prompt(s.goal, s.observations, s.step as nat, s.max_steps as nat),
                    contexts,
                    step_request_id(s),
                ),
                max_retries: 2,
            },
        ),
    )
}

/// Why the model did not answer a loop.
#[derive(Debug, PartialEq)]
pub enum LoopAskError {
    /// The model, or the way to it, failed.
    Llm(String),
    /// The one who asks it is gone.
    Mailbox(String),
}

/// The model of what came back from the model.
pub ghost enum LoopAnswerView {
    Response(LlmResponseView),
    Failed(Seq<char>),
    Lost(Seq<char>),
}

/// The model of an answer.
pub open spec fn loop_answer_view(a: Result<LlmResponse, LoopAskError>) -> LoopAnswerView {
    match a {
        Ok(r) => LoopAnswerView::Response(r@),
        Err(LoopAskError::Llm(e)) => LoopAnswerView::Failed(e@),
        Err(LoopAskError::Mailbox(e)) => LoopAnswerView::Lost(e@),
    }
}

/// What is recorded of a failure.
pub open spec fn loop_failure_records() -> Seq<EffectView> {
    seq![
        EffectView::RecordLatency { model: None, success: false },
        EffectView::RecordError { category: "agent_loop_llm"@ },
    ]
}

/// What a step has come to.
pub ghost struct OutcomeView {
    pub status: AgentLoopStatus,
    pub message: Seq<char>,
    pub reason: Option<Seq<char>>,
    pub sleep_seconds: Option<u64>,
}

/// The names of calls.
pub open spec fn call_names(calls: Seq<ToolCallView>) -> Seq<Seq<char>> {
    calls.map_values(|c: ToolCallView| c.name)
}

/// The step as it is kept.
pub open spec fn step_of(s: LoopRunView, o: OutcomeView, elapsed_ms: u64, now: u64) -> LoopStepView {
    LoopStepView {
        step: s.step,
        status: o.status,
        llm_message: o.message,
        reason: o.reason,
        tool_calls: call_names(s.all_calls),
        tool_results: s.all_results,
        elapsed_ms,
        created_at_ms: now,
    }
}

/// A list of texts as a JSON value.
pub open spec fn texts_json(texts: Seq<Seq<char>>) -> JsonView {
    JsonView::Arr(texts.map_values(|t: Seq<char>| JsonView::Str(t)))
}

/// The event that tells of a step.
pub open spec fn step_event(id: Seq<char>, step: LoopStepView) -> EventView {
    EventView::fresh(
        "agent.loop.step"@,
        JsonView::object().with("id"@, JsonView::Str(id)).with(
            "step"@,
            JsonView::PosInt(step.step as u64),
        ).with("status"@, JsonView::Str(status_name(step.status))).with(
            "message"@,
            JsonView::Str(step.llm_message),
        ).with("tool_calls"@, texts_json(step.tool_calls)),
        "agent-loop"@,
    )
}

/// After a step: it is reported, announced and remembered. The loop ends where the step says that
/// it is done, waits for the user or has failed; else the next step begins, after a sleep where the
/// step asks for one.
pub open spec fn after_step(
    s: LoopRunView,
    effects: Seq<EffectView>,
    o: OutcomeView,
    stop: bool,
    elapsed_ms: u64,
    now: u64,
) -> (LoopRunView, LoopOutView) {
    let step = step_of(s, o, elapsed_ms, now);
    let reports = seq![
        ProgressView {
            id: s.id,
            step: Some(step),
            status: Some(AgentLoopStatus::Running),
            error: None,
        },
    ];
    let told = effects.push(EffectView::Publish(step_event(s.id, step)));
    let t = LoopRunView { observations: s.observations.push(observation(step)), ..s };
    if o.status == AgentLoopStatus::Completed || o.status == AgentLoopStatus::WaitingForUser {
        run_finish(t, reports, told, o.status, None, stop)
    } else if o.status == AgentLoopStatus::Failed {
        run_finish(t, reports, told, o.status, o.reason, stop)
    } else {
        let pause = match o.sleep_seconds {
            Some(n) => if n < s.sleep_cap {
                n
            } else {
                s.sleep_cap
            },
            None => 0,
        };
        (
            LoopRunView { stage: RunStage::Begin, step: (s.step + 1) as usize, ..t },
            LoopOutView {
                reports,
                effects: told,
                action: if pause > 0 {
                    LoopActionView::Sleep { seconds: pause }
                } else {
                    LoopActionView::Begin
                },
            },
        )
    }
}

/// The outcome of a step that was told to stop.
pub open spec fn outcome_stopped() -> OutcomeView {
    OutcomeView {
        status: AgentLoopStatus::Stopped,
        message: "stopped"@,
        reason: None,
        sleep_seconds: None,
    }
}

/// The outcome of a step that has used up its rounds.
pub open spec fn outcome_exhausted() -> OutcomeView {
    OutcomeView {
        status: AgentLoopStatus::Failed,
        message: "工具调用轮次已达到上限，Agent Loop 已停止。"@,
        reason: Some("tool round budget exhausted"@),
        sleep_seconds: None,
    }
}

/// The outcome that an answer without calls decides.
pub open spec fn outcome_decided(content: Seq<char>) -> OutcomeView {
    let d = decision(content);
    OutcomeView {
        status: match d.status {
            Some(word) => decided_status(word),
            None => AgentLoopStatus::Running,
        },
        message: match d.message {
            Some(m) => if trim(m).len() > 0 {
                m
            } else {
                content
            },
            None => content,
        },
        reason: d.reason,
        sleep_seconds: d.sleep_seconds,
    }
}

/// The line that stands for the result of a forbidden tool.
pub open spec fn denied_line(name: Seq<char>) -> Seq<char> {
    "【"@ + name + "】错误：该工具已被 Agent Loop 策略禁用（AGENT_LOOP_TOOL_DENY）"@
}

/// From the call at hand on: forbidden tools are answered at once, the next other one is run; after
/// the last call the model gets all results.
pub open spec fn at_calls(s: LoopRunView, effects: Seq<EffectView>) -> (LoopRunView, LoopOutView)
    decreases s.response.tool_calls.len() - s.next_call,
{
    if s.next_call >= s.response.tool_calls.len() {
        let t = LoopRunView {
            stage: RunStage::Asking,
            all_calls: s.all_calls + s.response.tool_calls,
            all_results: s.all_results + s.round_results,
            ..s
        };
        (
            t,
            LoopOutView {
                reports: Seq::empty(),
                effects,
                action: LoopActionView::Ask {
                    request: loop_request(
                        t,
                        Seq::empty(),
                        Seq::empty(),
                        step_request_id(s) + "-t"@ + decimal((s.round + 1) as nat),
                    ),
                    max_retries: 2,
                },
            },
        )
    } else {
        let call = s.response.tool_calls[s.next_call as int];
        if s.deny.contains(call.name) && s.next_call < usize::MAX {
            at_calls(
                LoopRunView {
                    next_call: (s.next_call + 1) as usize,
                    round_results: s.round_results.push(denied_line(call.name)),
                    ..s
                },
                effects,
            )
        } else {
            (
                LoopRunView { stage: RunStage::Tool, ..s },
                LoopOutView {
                    reports: Seq::empty(),
                    effects,
                    action: LoopActionView::RunTool {
                        name: call.name,
                        arguments: call.arguments,
                    },
                },
            )
        }
    }
}

/// After the model has answered, or failed to.
pub open spec fn at_answer(
    s: LoopRunView,
    a: LoopAnswerView,
    stop: bool,
    elapsed_ms: u64,
    now: u64,
) -> (LoopRunView, LoopOutView) {
    match a {
        LoopAnswerView::Response(r) => {
            let t = LoopRunView {
                response: r,
                answered: true,
                round: if s.answered {
                    (s.round + 1) as usize
                } else {
                    0
                },
                ..s
            };
            let records = answer_records(r);
            if r.tool_calls.len() == 0 {
                after_step(t, records, outcome_decided(r.content), stop, elapsed_ms, now)
            } else if t.round >= t.max_tool_rounds {
                after_step(t, records, outcome_exhausted(), stop, elapsed_ms, now)
            } else if stop {
                after_step(t, records, outcome_stopped(), stop, elapsed_ms, now)
            } else {
                at_calls(LoopRunView { next_call: 0, round_results: Seq::empty(), ..t }, records)
            }
        },
        LoopAnswerView::Failed(e) => step_failed(s, loop_failure_records(), e, stop),
        LoopAnswerView::Lost(e) => step_failed(
            s,
            Seq::empty(),
            "agent loop LLM mailbox error: "@ + e,
            stop,
        ),
    }
}

/// After a step that failed: the failure is reported and the loop ends.
pub open spec fn step_failed(
    s: LoopRunView,
    effects: Seq<EffectView>,
    e: Seq<char>,
    stop: bool,
) -> (LoopRunView, LoopOutView) {
    run_finish(
        s,
        seq![
            ProgressView {
                id: s.id,
                step: None,
                status: Some(AgentLoopStatus::Failed),
                error: Some(e),
            },
        ],
        effects,
        AgentLoopStatus::Failed,
        Some(e),
        stop,
    )
}

/// After a tool has answered (none where it is not registered).
pub open spec fn at_tool(s: LoopRunView, result: Option<ToolResultView>) -> (
    LoopRunView,
    LoopOutView,
) {
    let name = s.response.tool_calls[s.next_call as int].name;
    let r = match result {
        Some(r) => r,
        None => not_found(name),
    };
    at_calls(
        LoopRunView {
            next_call: (s.next_call + 1) as usize,
            round_results: s.round_results.push(result_line(name, r)),
            ..s
        },
        seq![EffectView::RecordTool { tool_name: name, success: r.success }],
    )
}

/// The tools that a loop is told of.
pub fn collect_tool_defs(defs: &Vec<ToolDef>, deny: &Vec<String>) -> (r: Vec<Json>)
    ensures
        json_views(r@) == loop_tools(def_views(defs@), views(deny@)),
{
    let ghost all = def_views(defs@);
    let mut out: Vec<Json> = Vec::new();
    let mut i: usize = 0;
    assert(all.take(0) =~= Seq::empty());
    assert(json_views(out@) =~= Seq::empty());
    while i < defs.len()
        invariant
            i <= defs@.len(),
            all == def_views(defs@),
            json_views(out@) == loop_tools(all.take(i as int), views(deny@)),
        decreases defs@.len() - i,
    {
        let d = &defs[i];
        proof {
            let t = all.take(i + 1);
            assert(t.drop_last() =~= all.take(i as int));
            assert(t.last() == d@);
        }
        if !d.internal && !is_tool_denied(d.name.as_str(), deny.as_slice()) {
            let ghost before = out@;
            let tool = crate::pipeline::tool_value(d);
            out.push(tool);
            assert(json_views(out@) =~= json_views(before).push(tool@));
        }
        i = i + 1;
    }
    assert(all.take(all.len() as int) =~= all);
    out
}

/// The names of calls.
pub fn tool_call_names(calls: &Vec<ToolCall>) -> (r: Vec<String>)
    ensures
        views(r@) == call_names(call_views(calls@)),
{
    let mut out: Vec<String> = Vec::new();
    let mut i: usize = 0;
    while i < calls.len()
        invariant
            i <= calls@.len(),
            out@.len() == i,
            forall|k: int| 0 <= k < i ==> (#[trigger] out@[k])@ == calls@[k].name@,
        decreases calls@.len() - i,
    {
        out.push(calls[i].name.clone());
        i = i + 1;
    }
    assert(views(out@) =~= call_names(call_views(calls@)));
    out
}

/// A list of texts as a JSON value.
pub fn json_of_texts(texts: &Vec<String>) -> (r: Json)
    ensures
        r@ == texts_json(views(texts@)),
{
    let mut out: Vec<Json> = Vec::new();
    let mut i: usize = 0;
    while i < texts.len()
        invariant
            i <= texts@.len(),
            out@.len() == i,
            forall|k: int| 0 <= k < i ==> (#[trigger] out@[k])@ == JsonView::Str(texts@[k]@),
        decreases texts@.len() - i,
    {
        out.push(Json::str(texts[i].as_str()));
        i = i + 1;
    }
    assert(json_views(out@) =~= views(texts@).map_values(|t: Seq<char>| JsonView::Str(t)));
    Json::array(out)
}

fn add_report(reports: &mut Vec<AgentLoopProgress>, p: AgentLoopProgress)
    ensures
        report_views(final(reports)@) == report_views(old(reports)@).push(p@),
{
    let ghost before = reports@;
    reports.push(p);
    assert(report_views(before.push(p)) =~= report_views(before).push(p@));
}

fn no_reports() -> (r: Vec<AgentLoopProgress>)
    ensures
        report_views(r@) == Seq::<ProgressView>::empty(),
{
    let r: Vec<AgentLoopProgress> = Vec::new();
    assert(report_views(r@) =~= Seq::empty());
    r
}

fn no_effects() -> (r: Vec<Effect>)
    ensures
        effect_views(r@) == Seq::<EffectView>::empty(),
{
    let r: Vec<Effect> = Vec::new();
    assert(effect_views(r@) =~= Seq::empty());
    r
}

fn out_quiet(action: LoopAction) -> (r: LoopOut)
    ensures
        r@ == quiet(action@),
{
    LoopOut { reports: no_reports(), effects: no_effects(), action }
}

/// What a step has come to.
struct StepOutcome {
    status: AgentLoopStatus,
    message: String,
    reason: Option<String>,
    sleep_seconds: Option<u64>,
}

impl StepOutcome {
    spec fn model(&self) -> OutcomeView {
        OutcomeView {
            status: self.status,
            message: self.message@,
            reason: opt_text(self.reason),
            sleep_seconds: self.sleep_seconds,
        }
    }
}

impl LoopRun {
    /// A loop that has just been started.
    pub fn new(snap: &AgentLoopSnapshot, max_duration_secs: u64, sleep_cap: u64) -> (r: Self)
        requires
            snap@.max_steps < usize::MAX,
        ensures
            r@ == run_started(snap@, max_duration_secs, sleep_cap),
            run_sound(r@),
    {
        let r = LoopRun {
            id: snap.id.clone(),
            goal: snap.goal.clone(),
            peer_id: snap.peer_id.clone(),
            max_steps: snap.max_steps,
            max_tool_rounds: snap.max_tool_rounds,
            max_duration_secs,
            sleep_cap,
            stage: RunStage::Begin,
            step: 1,
            observations: Vec::new(),
            tools: Vec::new(),
            deny: Vec::new(),
            response: LlmResponse {
                content: String::new(),
                model: String::new(),
                prompt_tokens: 0,
                completion_tokens: 0,
                prompt_cache_hit_tokens: 0,
                prompt_cache_miss_tokens: 0,
                tool_calls: Vec::new(),
            },
            answered: false,
            round: 0,
            next_call: 0,
            round_results: Vec::new(),
            all_calls: Vec::new(),
            all_results: Vec::new(),
        };
        proof {
            assert(views(r.observations@) =~= Seq::empty());
            assert(json_views(r.tools@) =~= Seq::empty());
            assert(views(r.deny@) =~= Seq::empty());
            assert(call_views(r.response.tool_calls@) =~= Seq::empty());
            assert(views(r.round_results@) =~= Seq::empty());
            assert(call_views(r.all_calls@) =~= Seq::empty());
            assert(views(r.all_results@) =~= Seq::empty());
        }
        r
    }

    /// How far the step has come.
    pub fn stage(&self) -> (r: RunStage)
        ensures
            r == self@.stage,
    {
        self.stage
    }

    fn finish(
        &mut self,
        reports: Vec<AgentLoopProgress>,
        effects: Vec<Effect>,
        status: AgentLoopStatus,
        error: Option<String>,
        stop: bool,
    ) -> (r: LoopOut)
        ensures
            (final(self)@, r@) == run_finish(
                old(self)@,
                report_views(reports@),
                effect_views(effects@),
                status,
                opt_text(error),
                stop,
            ),
    {
        let last = if stop {
            AgentLoopStatus::Stopped
        } else {
            status
        };
        self.stage = RunStage::Done;
        let mut reports = reports;
        let mut effects = effects;
        let told = match &error {
            Some(e) => Json::str(e.as_str()),
            None => Json::Null,
        };
        let data = Json::object().with("id", Json::str(self.id.as_str())).with(
            "status",
            Json::str(loop_status_str(&last)),
        ).with("error", told);
        add_report(
            &mut reports,
            AgentLoopProgress { id: self.id.clone(), step: None, status: Some(last), error },
        );
        add_effect(&mut effects, Effect::Publish(Event::new("agent.loop.done", data, "agent-loop")));
        LoopOut { reports, effects, action: LoopAction::Finish }
    }

    /// Begins a step. `elapsed_secs` is how long the loop has run.
    pub fn on_begin(&mut self, stop: bool, pause: bool, elapsed_secs: u64) -> (r: LoopOut)
        requires
            run_sound(old(self)@),
            old(self)@.stage == RunStage::Begin,
        ensures
            (final(self)@, r@) == at_begin(old(self)@, stop, pause, elapsed_secs),
            run_sound(final(self)@),
    {
        if self.step > self.max_steps {
            return self.finish(no_reports(), no_effects(), AgentLoopStatus::Completed, None, stop);
        }
        if stop {
            return self.finish(no_reports(), no_effects(), AgentLoopStatus::Stopped, None, stop);
        }
        if loop_duration_exceeded(elapsed_secs, self.max_duration_secs) {
            let mut e = "exceeded max duration ".to_owned();
            push_decimal(&mut e, self.max_duration_secs);
            e.append("s");
            return self.finish(
                no_reports(),
                no_effects(),
                AgentLoopStatus::Failed,
                Some(e),
                stop,
            );
        }
        self.hold(stop, pause)
    }

    fn hold(&mut self, stop: bool, pause: bool) -> (r: LoopOut)
        requires
            run_sound(old(self)@),
            old(self)@.step <= old(self)@.max_steps,
        ensures
            (final(self)@, r@) == at_hold(old(self)@, stop, pause),
            run_sound(final(self)@),
    {
        if stop {
            self.finish(no_reports(), no_effects(), AgentLoopStatus::Stopped, None, stop)
        } else if pause {
            self.stage = RunStage::Held;
            out_quiet(LoopAction::Hold)
        } else {
            self.stage = RunStage::Preparing;
            out_quiet(LoopAction::Prepare)
        }
    }

    /// Looks again at what a paused loop is asked.
    pub fn on_hold(&mut self, stop: bool, pause: bool) -> (r: LoopOut)
        requires
            run_sound(old(self)@),
            old(self)@.stage == RunStage::Held,
        ensures
            (final(self)@, r@) == at_hold(old(self)@, stop, pause),
            run_sound(final(self)@),
    {
        self.hold(stop, pause)
    }

    fn request_id(&self) -> (r: String)
        ensures
            r@ == step_request_id(self@),
    {
        let mut out = "agent-loop-".to_owned();
        out.append(self.id.as_str());
        out.append("-s");
        push_decimal(&mut out, self.step as u64);
        out
    }

    fn request(&self, message: String, contexts: Vec<String>, request_id: String) -> (r:
        ChatRequest)
        ensures
            r@ == loop_request(self@, message@, views(contexts@), request_id@),
    {
        ChatRequest {
            message,
            peer_id: self.peer_id.clone(),
            tools: clone_json(&self.tools),
            skip_store: true,
            contexts,
            jailbreak_index: None,
            image_base64: None,
            video_base64: None,
            video_mime: None,
            file_base64: None,
            file_name: None,
            stream: false,
            request_id,
            source: "agent-loop".to_owned(),
            user_name: "agent-loop".to_owned(),
            max_tokens: None,
            original_user_msg: None,
            assistant_tool_calls: clone_calls(&self.all_calls),
            tool_results: clone_strings(&self.all_results),
        }
    }

    /// Takes the plugins' contexts, the tool definitions and the names of the forbidden tools.
    pub fn on_prepared(&mut self, contexts: Vec<String>, defs: &Vec<ToolDef>, deny: Vec<String>) -> (r:
        LoopOut)
        requires
            run_sound(old(self)@),
            old(self)@.stage == RunStage::Preparing,
        ensures
            (final(self)@, r@) == at_prepared(
                old(self)@,
                views(contexts@),
                def_views(defs@),
                views(deny@),
            ),
            run_sound(final(self)@),
    {
        self.stage = RunStage::Asking;
        self.tools = collect_tool_defs(defs, &deny);
        self.deny = deny;
        self.answered = false;
        self.round = 0;
        self.all_calls = Vec::new();
        self.all_results = Vec::new();
        proof {
            assert(call_views(self.all_calls@) =~= Seq::empty());
            assert(views(self.all_results@) =~= Seq::empty());
        }
        let prompt = build_loop_prompt(
            self.goal.as_str(),
            &self.observations,
            self.step,
            self.max_steps,
        );
        let request_id = self.request_id();
        let request = self.request(prompt, contexts, request_id);
        out_quiet(LoopAction::Ask { request, max_retries: 2 })
    }

    fn end_step(
        &mut self,
        effects: Vec<Effect>,
        o: StepOutcome,
        stop: bool,
        elapsed_ms: u64,
        now: u64,
    ) -> (r: LoopOut)
        requires
            run_sound(LoopRunView { stage: RunStage::Begin, ..old(self)@ }),
            old(self)@.step <= old(self)@.max_steps,
        ensures
            (final(self)@, r@) == after_step(
                old(self)@,
                effect_views(effects@),
                o.model(),
                stop,
                elapsed_ms,
                now,
            ),
            run_sound(final(self)@),
    {
        let ghost s = self@;
        let step = AgentLoopStep {
            step: self.step,
            status: o.status,
            llm_message: o.message,
            reason: crate::chat::clone_opt(&o.reason),
            tool_calls: tool_call_names(&self.all_calls),
            tool_results: clone_strings(&self.all_results),
            elapsed_ms,
            created_at_ms: now,
        };
        assert(step@ == step_of(s, o.model(), elapsed_ms, now));
        let line = format_observation(&step);
        let ghost seen = self.observations@;
        self.observations.push(line);
        assert(views(seen.push(line)) =~= views(seen).push(line@));
        let number: usize = step.step;
        let data = Json::object().with("id", Json::str(self.id.as_str())).with(
            "step",
            Json::PosInt(number as u64),
        ).with("status", Json::str(loop_status_str(&step.status))).with(
            "message",
            Json::str(step.llm_message.as_str()),
        ).with("tool_calls", json_of_texts(&step.tool_calls));
        let mut effects = effects;
        add_effect(&mut effects, Effect::Publish(Event::new("agent.loop.step", data, "agent-loop")));
        let mut reports = no_reports();
        let report = AgentLoopProgress {
            id: self.id.clone(),
            step: Some(step),
            status: Some(AgentLoopStatus::Running),
            error: None,
        };
        add_report(&mut reports, report);
        assert(report_views(reports@) =~= seq![report@]);
        match o.status {
            AgentLoopStatus::Completed => {
                return self.finish(reports, effects, AgentLoopStatus::Completed, None, stop);
            },
            AgentLoopStatus::WaitingForUser => {
                return self.finish(reports, effects, AgentLoopStatus::WaitingForUser, None, stop);
            },
            AgentLoopStatus::Failed => {
                return self.finish(reports, effects, AgentLoopStatus::Failed, o.reason, stop);
            },
            _ => {},
        }
        self.stage = RunStage::Begin;
        self.step = self.step + 1;
        let seconds: u64 = match o.sleep_seconds {
            Some(n) => {
                if n < self.sleep_cap {
                    n
                } else {
                    self.sleep_cap
                }
            },
            None => 0,
        };
        let action = if seconds > 0 {
            LoopAction::Sleep { seconds }
        } else {
            LoopAction::Begin
        };
        LoopOut { reports, effects, action }
    }

    fn fail_step(&mut self, effects: Vec<Effect>, e: String, stop: bool) -> (r: LoopOut)
        requires
            run_sound(old(self)@),
        ensures
            (final(self)@, r@) == step_failed(old(self)@, effect_views(effects@), e@, stop),
            run_sound(final(self)@),
    {
        let mut reports = no_reports();
        let report = AgentLoopProgress {
            id: self.id.clone(),
            step: None,
            status: Some(AgentLoopStatus::Failed),
            error: Some(e.clone()),
        };
        add_report(&mut reports, report);
        assert(report_views(reports@) =~= seq![report@]);
        self.finish(reports, effects, AgentLoopStatus::Failed, Some(e), stop)
    }

    fn run_calls(&mut self, effects: Vec<Effect>) -> (r: LoopOut)
        requires
            run_sound(LoopRunView { stage: RunStage::Begin, ..old(self)@ }),
            old(self)@.step <= old(self)@.max_steps,
            old(self)@.answered,
            old(self)@.round < old(self)@.max_tool_rounds,
            old(self)@.next_call <= old(self)@.response.tool_calls.len(),
            old(self)@.round_results.len() == old(self)@.next_call,
        ensures
            (final(self)@, r@) == at_calls(old(self)@, effect_views(effects@)),
            run_sound(final(self)@),
    {
        let ghost start = self@;
        let ghost e = effect_views(effects@);
        while self.next_call < self.response.tool_calls.len() && is_tool_denied(
            self.response.tool_calls[self.next_call].name.as_str(),
            self.deny.as_slice(),
        )
            invariant
                at_calls(self@, e) == at_calls(start, e),
                run_sound(LoopRunView { stage: RunStage::Begin, ..self@ }),
                self@.step <= self@.max_steps,
                self@.answered,
                self@.round < self@.max_tool_rounds,
                self@.next_call <= self@.response.tool_calls.len(),
                self@.round_results.len() == self@.next_call,
            decreases self.response.tool_calls@.len() - self.next_call,
        {
            let ghost s = self@;
            let mut line = "【".to_owned();
            line.append(self.response.tool_calls[self.next_call].name.as_str());
            line.append("】错误：该工具已被 Agent Loop 策略禁用（AGENT_LOOP_TOOL_DENY）");
            let ghost before = self.round_results@;
            self.round_results.push(line);
            assert(views(before.push(line)) =~= views(before).push(line@));
            self.next_call = self.next_call + 1;
        }
        if self.next_call < self.response.tool_calls.len() {
            self.stage = RunStage::Tool;
            let action = LoopAction::RunTool {
                name: self.response.tool_calls[self.next_call].name.clone(),
                arguments: self.response.tool_calls[self.next_call].arguments.clone(),
            };
            return LoopOut { reports: no_reports(), effects, action };
        }
        self.stage = RunStage::Asking;
        let mut calls = clone_calls(&self.response.tool_calls);
        let ghost new_calls = calls@;
        let ghost old_calls = self.all_calls@;
        self.all_calls.append(&mut calls);
        assert(call_views(old_calls + new_calls) =~= call_views(old_calls) + call_views(new_calls));
        let mut results = clone_strings(&self.round_results);
        let ghost new_results = results@;
        let ghost old_results = self.all_results@;
        self.all_results.append(&mut results);
        assert(views(old_results + new_results) =~= views(old_results) + views(new_results));
        let mut request_id = self.request_id();
        request_id.append("-t");
        push_decimal(&mut request_id, self.round as u64 + 1);
        let contexts: Vec<String> = Vec::new();
        assert(views(contexts@) =~= Seq::empty());
        let request = self.request(String::new(), contexts, request_id);
        LoopOut {
            reports: no_reports(),
            effects,
            action: LoopAction::Ask { request, max_retries: 2 },
        }
    }

    /// Takes the model's answer, or the reason why there is none. `elapsed_ms` is how long the step
    /// has taken, `now` the time.
    pub fn on_answer(
        &mut self,
        answer: Result<LlmResponse, LoopAskError>,
        stop: bool,
        elapsed_ms: u64,
        now: u64,
    ) -> (r: LoopOut)
        requires
            run_sound(old(self)@),
            old(self)@.stage == RunStage::Asking,
        ensures
            (final(self)@, r@) == at_answer(
                old(self)@,
                loop_answer_view(answer),
                stop,
                elapsed_ms,
                now,
            ),
            run_sound(final(self)@),
    {
        let mut effects = no_effects();
        match answer {
            Ok(response) => {
                add_effect(
                    &mut effects,
                    Effect::RecordUsage {
                        model: response.model.clone(),
                        prompt_tokens: response.prompt_tokens,
                        completion_tokens: response.completion_tokens,
                        prompt_cache_hit_tokens: response.prompt_cache_hit_tokens,
                        prompt_cache_miss_tokens: response.prompt_cache_miss_tokens,
                    },
                );
                add_effect(
                    &mut effects,
                    Effect::RecordLatency { model: Some(response.model.clone()), success: true },
                );
                assert(effect_views(effects@) =~= answer_records(response@));
                if self.answered {
                    self.round = self.round + 1;
                } else {
                    self.round = 0;
                }
                self.answered = true;
                self.response = response;
                if self.response.tool_calls.len() == 0 {
                    let d = parse_loop_decision(self.response.content.as_str());
                    let status = match &d.status {
                        Some(word) => status_from_decision(word.as_str()),
                        None => AgentLoopStatus::Running,
                    };
                    let message = match d.message {
                        Some(m) => {
                            if !is_blank(m.as_str()) {
                                m
                            } else {
                                self.response.content.clone()
                            }
                        },
                        None => self.response.content.clone(),
                    };
                    let o = StepOutcome {
                        status,
                        message,
                        reason: d.reason,
                        sleep_seconds: d.sleep_seconds,
                    };
                    assert(o.model() == outcome_decided(self@.response.content));
                    return self.end_step(effects, o, stop, elapsed_ms, now);
                }
                if self.round >= self.max_tool_rounds {
                    let o = StepOutcome {
                        status: AgentLoopStatus::Failed,
                        message: "工具调用轮次已达到上限，Agent Loop 已停止。".to_owned(),
                        reason: Some("tool round budget exhausted".to_owned()),
                        sleep_seconds: None,
                    };
                    return self.end_step(effects, o, stop, elapsed_ms, now);
                }
                if stop {
                    let o = StepOutcome {
                        status: AgentLoopStatus::Stopped,
                        message: "stopped".to_owned(),
                        reason: None,
                        sleep_seconds: None,
                    };
                    return self.end_step(effects, o, stop, elapsed_ms, now);
                }
                self.next_call = 0;
                self.round_results = Vec::new();
                assert(views(self.round_results@) =~= Seq::empty());
                self.run_calls(effects)
            },
            Err(LoopAskError::Llm(e)) => {
                add_effect(&mut effects, Effect::RecordLatency { model: None, success: false });
                add_effect(
                    &mut effects,
                    Effect::RecordError { category: "agent_loop_llm".to_owned() },
                );
                assert(effect_views(effects@) =~= loop_failure_records());
                self.fail_step(effects, e, stop)
            },
            Err(LoopAskError::Mailbox(e)) => {
                let mut text = "agent loop LLM mailbox error: ".to_owned();
                text.append(e.as_str());
                self.fail_step(effects, text, stop)
            },
        }
    }

    /// Takes the result of the tool that was called, none where no tool has the name.
    pub fn on_tool_result(&mut self, result: Option<ToolResult>) -> (r: LoopOut)
        requires
            run_sound(old(self)@),
            old(self)@.stage == RunStage::Tool,
        ensures
            (final(self)@, r@) == at_tool(
                old(self)@,
                match result {
                    Some(t) => Some(t@),
                    None => None,
                },
            ),
            run_sound(final(self)@),
    {
        let name = self.response.tool_calls[self.next_call].name.clone();
        let result = match result {
            Some(t) => t,
            None => crate::pipeline::missing_tool(name.as_str()),
        };
        let mut effects = no_effects();
        let record = Effect::RecordTool { tool_name: name.clone(), success: result.success };
        add_effect(&mut effects, record);
        assert(effect_views(effects@) =~= seq![record@]);
        let line = line_of(name.as_str(), &result);
        let ghost before = self.round_results@;
        self.round_results.push(line);
        assert(views(before.push(line)) =~= views(before).push(line@));
        assert(self.next_call < self.response.tool_calls.len());
        self.next_call = self.next_call + 1;
        self.run_calls(effects)
    }
}

/// The end of a loop is announced once, with the status that is reported, and after it nothing is
/// waited for.
pub proof fn end_is_announced(
    s: LoopRunView,
    reports: Seq<ProgressView>,
    effects: Seq<EffectView>,
    status: AgentLoopStatus,
    error: Option<Seq<char>>,
    stop: bool,
)
    ensures
        ({
            let (t, out) = run_finish(s, reports, effects, status, error, stop);
            let last = if stop {
                AgentLoopStatus::Stopped
            } else {
                status
            };
            &&& t.stage == RunStage::Done
            &&& out.action is Finish
            &&& out.reports.last().status == Some(last)
            &&& out.effects.last() == EffectView::Publish(done_event(s.id, last, error))
        }),
{
}

/// A loop that is told to stop ends at the next beginning of a step, and as one that was stopped.
pub proof fn stop_ends_the_loop(s: LoopRunView, pause: bool, elapsed_secs: u64)
    ensures
        at_begin(s, true, pause, elapsed_secs).1.action is Finish,
        at_begin(s, true, pause, elapsed_secs).1.reports.last().status == Some(
            AgentLoopStatus::Stopped,
        ),
        at_hold(s, true, pause).1.action is Finish,
        at_hold(s, true, pause).1.reports.last().status == Some(AgentLoopStatus::Stopped),
{
}

/// A paused loop does nothing until it is told to go on or to stop.
pub proof fn paused_loop_waits(s: LoopRunView)
    ensures
        at_hold(s, false, true).1 == quiet(LoopActionView::Hold),
        at_hold(s, false, true).0 == (LoopRunView { stage: RunStage::Held, ..s }),
{
}

/// A loop takes no more steps than it is allowed: each step that does not end it counts, and with
/// none left it ends as complete, or as stopped where it was told to stop.
pub proof fn steps_are_bounded(
    s: LoopRunView,
    effects: Seq<EffectView>,
    o: OutcomeView,
    stop: bool,
    elapsed_ms: u64,
    now: u64,
    pause: bool,
    elapsed_secs: u64,
)
    requires
        run_sound(s),
        s.step <= s.max_steps,
    ensures
        ({
            let t = after_step(s, effects, o, stop, elapsed_ms, now).0;
            t.stage == RunStage::Done || (t.stage == RunStage::Begin && t.step == s.step + 1)
        }),
        ({
            let t = LoopRunView { step: (s.max_steps + 1) as usize, ..s };
            at_begin(t, stop, pause, elapsed_secs).1.action is Finish
                && at_begin(t, stop, pause, elapsed_secs).1.reports.last().status == Some(
                if stop {
                    AgentLoopStatus::Stopped
                } else {
                    AgentLoopStatus::Completed
                },
            )
        }),
{
}

/// A forbidden tool is never run.
pub proof fn forbidden_tools_are_not_run(s: LoopRunView, effects: Seq<EffectView>)
    requires
        s.response.tool_calls.len() <= usize::MAX,
    ensures
        at_calls(s, effects).1.action matches LoopActionView::RunTool { name, .. }
            ==> !s.deny.contains(name),
    decreases s.response.tool_calls.len() - s.next_call,
{
    if s.next_call < s.response.tool_calls.len() {
        let call = s.response.tool_calls[s.next_call as int];
        if s.deny.contains(call.name) {
            forbidden_tools_are_not_run(
                LoopRunView {
                    next_call: (s.next_call + 1) as usize,
                    round_results: s.round_results.push(denied_line(call.name)),
                    ..s
                },
                effects,
            );
        }
    }
}

/// Every tool that a loop is told of is registered, not internal and not forbidden.
pub proof fn forbidden_tools_are_not_shown(defs: Seq<ToolDefView>, deny: Seq<Seq<char>>, i: int)
    requires
        0 <= i < loop_tools(defs, deny).len(),
    ensures
        exists|k: int|
            0 <= k < defs.len() && loop_tools(defs, deny)[i] == tool_json(#[trigger] defs[k])
                && !defs[k].internal && !deny.contains(defs[k].name),
    decreases defs.len(),
{
    if defs.len() > 0 {
        let rest = defs.drop_last();
        if i < loop_tools(rest, deny).len() {
            forbidden_tools_are_not_shown(rest, deny, i);
            let k = choose|k: int|
                0 <= k < rest.len() && loop_tools(rest, deny)[i] == tool_json(#[trigger] rest[k])
                    && !rest[k].internal && !deny.contains(rest[k].name);
            assert(defs[k] == rest[k]);
        } else {
            assert(loop_tools(defs, deny)[i] == tool_json(defs[defs.len() - 1]));
        }
    }
}

/// The model gets one result for every call: whenever a loop asks it again, whether after an answer
/// or after a tool, as many results are handed over as there are calls.
pub proof fn one_result_per_call(
    s: LoopRunView,
    a: LoopAnswerView,
    result: Option<ToolResultView>,
    stop: bool,
    elapsed_ms: u64,
    now: u64,
)
    requires
        run_sound(s),
        s.response.tool_calls.len() <= usize::MAX,
        a matches LoopAnswerView::Response(r) ==> r.tool_calls.len() <= usize::MAX,
    ensures
        s.stage == RunStage::Asking ==> (at_answer(
            s,
            a,
            stop,
            elapsed_ms,
            now,
        ).1.action matches LoopActionView::Ask { request, .. }
            ==> request.assistant_tool_calls.len() == request.tool_results.len()),
        s.stage == RunStage::Tool ==> (at_tool(
            s,
            result,
        ).1.action matches LoopActionView::Ask { request, .. }
            ==> request.assistant_tool_calls.len() == request.tool_results.len()),
{
    if s.stage == RunStage::Asking {
        match a {
            LoopAnswerView::Response(r) => {
                let t = LoopRunView {
                    response: r,
                    answered: true,
                    round: if s.answered {
                        (s.round + 1) as usize
                    } else {
                        0
                    },
                    next_call: 0,
                    round_results: Seq::empty(),
                    ..s
                };
                lemma_calls_and_results(t, answer_records(r));
            },
            _ => {},
        }
    }
    if s.stage == RunStage::Tool {
        let name = s.response.tool_calls[s.next_call as int].name;
        let r = match result {
            Some(r) => r,
            None => not_found(name),
        };
        lemma_calls_and_results(
            LoopRunView {
                next_call: (s.next_call + 1) as usize,
                round_results: s.round_results.push(result_line(name, r)),
                ..s
            },
            seq![EffectView::RecordTool { tool_name: name, success: r.success }],
        );
    }
}

proof fn lemma_calls_and_results(s: LoopRunView, effects: Seq<EffectView>)
    requires
        s.response.tool_calls.len() <= usize::MAX,
        s.next_call <= s.response.tool_calls.len(),
        s.round_results.len() == s.next_call,
        s.all_calls.len() == s.all_results.len(),
    ensures
        at_calls(s, effects).1.action matches LoopActionView::Ask { request, .. }
            ==> request.assistant_tool_calls.len() == request.tool_results.len(),
    decreases s.response.tool_calls.len() - s.next_call,
{
    if s.next_call < s.response.tool_calls.len() {
        let call = s.response.tool_calls[s.next_call as int];
        if s.deny.contains(call.name) {
            lemma_calls_and_results(
                LoopRunView {
                    next_call: (s.next_call + 1) as usize,
                    round_results: s.round_results.push(denied_line(call.name)),
                    ..s
                },
                effects,
            );
        }
    }
}

} // verus!
