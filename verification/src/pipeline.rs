//! The way of one message through the agent: admission, the model's answer, rounds of tool calls,
//! and what is stored and sent at the end.
//!
//! An [`Exchange`] is a state machine. Each method takes what came back from outside and returns a
//! [`Step`]: effects to perform at once and what to wait for next. Every transition is given by a
//! spec function over [`ExchangeView`].

use crate::chat::{
    clone_json, clone_opt, clone_strings, ChatRequest, ChatRequestView, LlmResponse,
    LlmResponseView,
};
use crate::effect::{add_effect, effect_views, Effect, EffectView, Next, NextView, Step, StepView};
use crate::event::{str_or, text_or, Event, EventView};
use crate::ids::{is_random_id, random_id};
use crate::json::{
    is_flat, json_read, json_views, json_written, same_members, Json, JsonView,
};
use crate::numbers::{decimal, opt_str, push_decimal, setting, setting_usize};
use crate::peer::{chat_id_from_peer_id, chat_id_of_peer};
use crate::text::{same, starts_with, trim, trimmed, views};
use crate::tool::{
    call_views, clone_calls, def_views, opt_text, ToolCall, ToolCallView, ToolDef, ToolDefView,
    ToolResult, ToolResultView,
};
use crate::usage::{BudgetCheck, BudgetCheckView};
use vstd::prelude::*;

verus! {

broadcast use vstd::string::group_string_axioms;

/// A message to be answered.
#[derive(Debug, PartialEq)]
pub struct MessageJob {
    pub text: String,
    pub source: String,
    pub peer_id: String,
    pub user_name: String,
    pub image_base64: Option<String>,
    pub video_base64: Option<String>,
    pub video_mime: Option<String>,
    pub file_base64: Option<String>,
    pub file_name: Option<String>,
    /// What is stored as the user's message; the empty text keeps the message out of the history.
    pub original_user_msg: Option<String>,
    /// Whether the model may call tools.
    pub allow_tools: bool,
    /// Whether the answer is stored here and not where the model is asked.
    pub defer_store: bool,
    /// The answer that means that nothing is to be said.
    pub drop_reply_marker: Option<String>,
}

/// The model of a [`MessageJob`].
pub ghost struct MessageJobView {
    pub text: Seq<char>,
    pub source: Seq<char>,
    pub peer_id: Seq<char>,
    pub user_name: Seq<char>,
    pub image_base64: Option<Seq<char>>,
    pub video_base64: Option<Seq<char>>,
    pub video_mime: Option<Seq<char>>,
    pub file_base64: Option<Seq<char>>,
    pub file_name: Option<Seq<char>>,
    pub original_user_msg: Option<Seq<char>>,
    pub allow_tools: bool,
    pub defer_store: bool,
    pub drop_reply_marker: Option<Seq<char>>,
}

impl View for MessageJob {
    type V = MessageJobView;

    open spec fn view(&self) -> MessageJobView {
        MessageJobView {
            text: self.text@,
            source: self.source@,
            peer_id: self.peer_id@,
            user_name: self.user_name@,
            image_base64: opt_text(self.image_base64),
            video_base64: opt_text(self.video_base64),
            video_mime: opt_text(self.video_mime),
            file_base64: opt_text(self.file_base64),
            file_name: opt_text(self.file_name),
            original_user_msg: opt_text(self.original_user_msg),
            allow_tools: self.allow_tools,
            defer_store: self.defer_store,
            drop_reply_marker: opt_text(self.drop_reply_marker),
        }
    }
}

/// How far a message has come.
#[derive(Debug, Clone, Copy, PartialEq, Eq, Structural)]
pub enum Stage {
    /// Waits for the rate limiter.
    Admission,
    /// Waits for the budget check.
    Budget,
    /// Waits for contexts and tools.
    Preparation,
    /// Waits for the model.
    Answer,
    /// Waits for a tool.
    Tool,
    /// Waits for the description of a picture.
    Description,
    /// Is done.
    Done,
}

/// One message on its way.
pub struct Exchange {
    job: MessageJob,
    max_tool_rounds: usize,
    stage: Stage,
    request_id: String,
    contexts: Vec<String>,
    tools: Vec<Json>,
    response: LlmResponse,
    asked: bool,
    round: usize,
    next_call: usize,
    round_results: Vec<String>,
    all_calls: Vec<ToolCall>,
    all_results: Vec<String>,
    sent_via_im: bool,
}

/// The model of an [`Exchange`].
pub ghost struct ExchangeView {
    pub job: MessageJobView,
    pub max_tool_rounds: usize,
    pub stage: Stage,
    /// The id of the request, and of the follow-up requests before their number.
    pub request_id: Seq<char>,
    pub contexts: Seq<Seq<char>>,
    pub tools: Seq<JsonView>,
    /// The latest answer.
    pub response: LlmResponseView,
    /// Whether the model has answered before.
    pub asked: bool,
    /// How many rounds of tool calls are complete.
    pub round: usize,
    /// Which call of the latest answer is being made.
    pub next_call: usize,
    /// The results of this round so far.
    pub round_results: Seq<Seq<char>>,
    /// The calls and results of the complete rounds.
    pub all_calls: Seq<ToolCallView>,
    pub all_results: Seq<Seq<char>>,
    /// Whether a tool has sent the user a message.
    pub sent_via_im: bool,
}

impl View for Exchange {
    type V = ExchangeView;

    closed spec fn view(&self) -> ExchangeView {
        ExchangeView {
            job: self.job@,
            max_tool_rounds: self.max_tool_rounds,
            stage: self.stage,
            request_id: self.request_id@,
            contexts: views(self.contexts@),
            tools: json_views(self.tools@),
            response: self.response@,
            asked: self.asked,
            round: self.round,
            next_call: self.next_call,
            round_results: views(self.round_results@),
            all_calls: call_views(self.all_calls@),
            all_results: views(self.all_results@),
            sent_via_im: self.sent_via_im,
        }
    }
}

/// The answer before there is one.
pub open spec fn no_response() -> LlmResponseView {
    LlmResponseView {
        content: Seq::empty(),
        model: Seq::empty(),
        prompt_tokens: 0,
        completion_tokens: 0,
        prompt_cache_hit_tokens: 0,
        prompt_cache_miss_tokens: 0,
        tool_calls: Seq::empty(),
    }
}

/// A message that has just come in.
pub open spec fn incoming(job: MessageJobView, max_tool_rounds: usize) -> ExchangeView {
    ExchangeView {
        job,
        max_tool_rounds,
        stage: Stage::Admission,
        request_id: Seq::empty(),
        contexts: Seq::empty(),
        tools: Seq::empty(),
        response: no_response(),
        asked: false,
        round: 0,
        next_call: 0,
        round_results: Seq::empty(),
        all_calls: Seq::empty(),
        all_results: Seq::empty(),
        sent_via_im: false,
    }
}

/// What holds of an exchange at all times: where a tool is waited for, the call is one of the
/// latest answer's and there are rounds left; no more rounds are complete than are allowed; each
/// call that is complete has one result, in the order of the calls.
pub open spec fn sound(s: ExchangeView) -> bool {
    &&& s.round <= s.max_tool_rounds
    &&& s.all_results.len() == s.all_calls.len()
    &&& s.stage == Stage::Tool ==> s.round_results.len() == s.next_call
    &&& s.stage == Stage::Description ==> s.round_results.len() == s.next_call + 1
    &&& (s.stage == Stage::Tool || s.stage == Stage::Description) ==> {
        &&& s.asked
        &&& s.next_call < s.response.tool_calls.len()
        &&& s.round < s.max_tool_rounds
    }
    &&& (s.stage == Stage::Admission || s.stage == Stage::Budget || s.stage
        == Stage::Preparation) ==> !s.asked
    &&& (s.stage == Stage::Answer && s.asked) ==> s.round < s.max_tool_rounds
    &&& !s.asked ==> s.round == 0
}

/// A text as a JSON value, null where there is none.
pub open spec fn text_json(o: Option<Seq<char>>) -> JsonView {
    match o {
        Some(s) => JsonView::Str(s),
        None => JsonView::Null,
    }
}

/// The event that sends a text to a peer.
pub open spec fn reply_event(text: Seq<char>, source: Seq<char>, peer_id: Seq<char>) -> EventView {
    EventView::fresh(
        "route.message"@,
        JsonView::object().with("text"@, JsonView::Str(text)).with(
            "source"@,
            JsonView::Str(source),
        ).with("peer_id"@, JsonView::Str(peer_id)).with(
            "chat_id"@,
            text_json(chat_id_of_peer(peer_id, source)),
        ),
        "pipeline"@,
    )
}

/// The event that tells plugins of an answer that has been sent already.
pub open spec fn silent_event(text: Seq<char>, source: Seq<char>, peer_id: Seq<char>) -> EventView {
    EventView::fresh(
        "assistant.message"@,
        JsonView::object().with("text"@, JsonView::Str(text)).with(
            "source"@,
            JsonView::Str(source),
        ).with("peer_id"@, JsonView::Str(peer_id)).with(
            "chat_id"@,
            text_json(chat_id_of_peer(peer_id, source)),
        ).with("silent"@, JsonView::Bool(true)),
        "pipeline"@,
    )
}

/// The effect of sending a text to the peer of the message.
pub open spec fn reply_effect(s: ExchangeView, text: Seq<char>) -> EffectView {
    EffectView::Publish(reply_event(text, s.job.source, s.job.peer_id))
}

/// The end of an exchange.
pub open spec fn finish(s: ExchangeView, effects: Seq<EffectView>) -> (ExchangeView, StepView) {
    (
        ExchangeView { stage: Stage::Done, ..s },
        StepView { effects, next: NextView::Finish },
    )
}

/// The end of an exchange whose request has been registered: it can no longer be cancelled.
pub open spec fn conclude(s: ExchangeView, effects: Seq<EffectView>) -> (ExchangeView, StepView) {
    finish(s, effects.push(EffectView::Deregister { request_id: s.request_id }))
}

/// What the user is told who sends too often.
pub open spec fn too_often() -> Seq<char> {
    "⏳ 请求过于频繁，请稍后再试。"@
}

/// After the rate limiter has answered.
pub open spec fn after_rate_limit(s: ExchangeView, allowed: bool) -> (ExchangeView, StepView) {
    if allowed {
        (
            ExchangeView { stage: Stage::Budget, ..s },
            StepView { effects: Seq::empty(), next: NextView::CheckBudget },
        )
    } else {
        finish(s, seq![reply_effect(s, too_often())])
    }
}

/// What the user is told when the budget is used up.
pub open spec fn budget_text(check: BudgetCheckView) -> Seq<char> {
    let period = match check.period {
        Some(p) => p,
        None => "?"@,
    };
    "🪙 Token 额度（"@ + period + "）已用尽（"@ + decimal(check.used as nat) + "/"@ + decimal(
        check.limit as nat,
    ) + "），请稍后再试。"@
}

/// Whether the budget stops a request (it does not where the check could not be made).
pub open spec fn budget_stops(check: Option<BudgetCheckView>) -> bool {
    check matches Some(c) && !c.allowed
}

/// After the budget has been checked: a request that it does not stop gets its id, and is registered
/// under it so that it can be cancelled.
pub open spec fn after_budget(
    s: ExchangeView,
    check: Option<BudgetCheckView>,
    request_id: Seq<char>,
) -> (ExchangeView, StepView) {
    if budget_stops(check) {
        finish(s, seq![reply_effect(s, budget_text(check->0))])
    } else {
        (
            ExchangeView { stage: Stage::Preparation, request_id, ..s },
            StepView {
                effects: seq![EffectView::Register { request_id }],
                next: NextView::Prepare,
            },
        )
    }
}

/// A tool as the model is told of it.
pub open spec fn tool_json(d: ToolDefView) -> JsonView {
    JsonView::object().with("type"@, JsonView::Str("function"@)).with(
        "function"@,
        JsonView::object().with("name"@, JsonView::Str(d.name)).with(
            "description"@,
            JsonView::Str(d.description),
        ).with("parameters"@, d.parameters),
    )
}

/// The tools that the model is told of: those that are not internal, in order.
pub open spec fn visible_tools(defs: Seq<ToolDefView>) -> Seq<JsonView>
    decreases defs.len(),
{
    if defs.len() == 0 {
        Seq::empty()
    } else if defs.last().internal {
        visible_tools(defs.drop_last())
    } else {
        visible_tools(defs.drop_last()).push(tool_json(defs.last()))
    }
}

/// The first request.
pub open spec fn first_request(s: ExchangeView) -> ChatRequestView {
    ChatRequestView {
        message: s.job.text,
        peer_id: s.job.peer_id,
        tools: s.tools,
        skip_store: s.job.defer_store,
        contexts: s.contexts,
        jailbreak_index: None,
        image_base64: s.job.image_base64,
        video_base64: s.job.video_base64,
        video_mime: s.job.video_mime,
        file_base64: s.job.file_base64,
        file_name: s.job.file_name,
        stream: true,
        request_id: s.request_id,
        source: s.job.source,
        user_name: s.job.user_name,
        max_tokens: None,
        original_user_msg: s.job.original_user_msg,
        assistant_tool_calls: Seq::empty(),
        tool_results: Seq::empty(),
    }
}

/// The request that hands the model all results so far.
pub open spec fn follow_up_request(s: ExchangeView) -> ChatRequestView {
    ChatRequestView {
        message: Seq::empty(),
        peer_id: s.job.peer_id,
        tools: s.tools,
        skip_store: true,
        contexts: s.contexts,
        jailbreak_index: None,
        image_base64: None,
        video_base64: None,
        video_mime: None,
        file_base64: None,
        file_name: None,
        stream: true,
        request_id: s.request_id + "-t"@ + decimal((s.round + 1) as nat),
        source: s.job.source,
        user_name: s.job.user_name,
        max_tokens: None,
        original_user_msg: None,
        assistant_tool_calls: s.all_calls,
        tool_results: s.all_results,
    }
}

/// After contexts and tools have been collected.
pub open spec fn after_preparation(
    s: ExchangeView,
    contexts: Seq<Seq<char>>,
    defs: Seq<ToolDefView>,
) -> (ExchangeView, StepView) {
    let t = ExchangeView {
        stage: Stage::Answer,
        contexts,
        tools: if s.job.allow_tools {
            visible_tools(defs)
        } else {
            Seq::empty()
        },
        ..s
    };
    (
        t,
        StepView {
            effects: Seq::empty(),
            next: NextView::Ask { request: first_request(t), max_retries: 3 },
        },
    )
}

/// Why the model did not answer.
#[derive(Debug, PartialEq)]
pub enum AskError {
    /// The model, or the way to it, failed.
    Llm(String),
    /// The one who asks it is gone.
    Mailbox,
}

/// The model of what came back from the model.
pub ghost enum AnswerView {
    Response(LlmResponseView),
    Failed(Seq<char>),
    Lost,
}

/// The model of the answer of a budget check.
pub open spec fn check_view(check: Option<BudgetCheck>) -> Option<BudgetCheckView> {
    match check {
        Some(c) => Some(c@),
        None => None,
    }
}

/// The model of an answer.
pub open spec fn answer_view(a: Result<LlmResponse, AskError>) -> AnswerView {
    match a {
        Ok(r) => AnswerView::Response(r@),
        Err(AskError::Llm(e)) => AnswerView::Failed(e@),
        Err(AskError::Mailbox) => AnswerView::Lost,
    }
}

/// What is recorded of an answer.
pub open spec fn answer_records(r: LlmResponseView) -> Seq<EffectView> {
    seq![
        EffectView::RecordUsage {
            model: r.model,
            prompt_tokens: r.prompt_tokens,
            completion_tokens: r.completion_tokens,
            prompt_cache_hit_tokens: r.prompt_cache_hit_tokens,
            prompt_cache_miss_tokens: r.prompt_cache_miss_tokens,
        },
        EffectView::RecordLatency { model: Some(r.model), success: true },
    ]
}

/// What is recorded of a failure.
pub open spec fn failure_records() -> Seq<EffectView> {
    seq![
        EffectView::RecordLatency { model: None, success: false },
        EffectView::RecordError { category: "llm_api"@ },
    ]
}

/// What the user is told of a failure.
pub open spec fn failure_text(e: Seq<char>) -> Seq<char> {
    "抱歉，出错了："@ + e
}

/// A call as it is stored.
pub open spec fn stored_call(c: ToolCallView) -> JsonView {
    JsonView::object().with("id"@, JsonView::Str(c.id)).with(
        "type"@,
        JsonView::Str("function"@),
    ).with(
        "function"@,
        JsonView::object().with("name"@, JsonView::Str(c.name)).with(
            "arguments"@,
            JsonView::Str(json_written(c.arguments)),
        ),
    )
}

/// The effect of storing a message for a peer.
pub open spec fn store_effect(peer_id: Seq<char>, message: JsonView) -> EffectView {
    EffectView::Store { peer_id, message_json: json_written(message) }
}

/// The assistant message that asks for calls.
pub open spec fn calls_message(calls: Seq<ToolCallView>) -> JsonView {
    JsonView::object().with("role"@, JsonView::Str("assistant"@)).with(
        "content"@,
        JsonView::Null,
    ).with("tool_calls"@, JsonView::Arr(calls.map_values(|c: ToolCallView| stored_call(c))))
}

/// The message with the result of a call.
pub open spec fn result_message(call: ToolCallView, result: Seq<char>) -> JsonView {
    JsonView::object().with("role"@, JsonView::Str("tool"@)).with(
        "tool_call_id"@,
        JsonView::Str(call.id),
    ).with("content"@, JsonView::Str(result))
}

/// The message with the final answer.
pub open spec fn final_message(content: Seq<char>) -> JsonView {
    JsonView::object().with("role"@, JsonView::Str("assistant"@)).with(
        "content"@,
        if content.len() == 0 {
            JsonView::Null
        } else {
            JsonView::Str(content)
        },
    )
}

/// The result at place `i`, empty where there is none.
pub open spec fn result_at(results: Seq<Seq<char>>, i: int) -> Seq<char> {
    if 0 <= i < results.len() {
        results[i]
    } else {
        Seq::empty()
    }
}

/// What is stored of rounds of tool calls: the message that asks for them, one message for each
/// result, and the final answer.
pub open spec fn chain_effects(s: ExchangeView) -> Seq<EffectView> {
    seq![store_effect(s.job.peer_id, calls_message(s.all_calls))] + Seq::new(
        s.all_calls.len(),
        |i: int|
            store_effect(
                s.job.peer_id,
                result_message(s.all_calls[i], result_at(s.all_results, i)),
            ),
    ) + seq![store_effect(s.job.peer_id, final_message(s.response.content))]
}

/// Whether the final answer is the one that means that nothing is to be said.
pub open spec fn dropped(s: ExchangeView) -> bool {
    s.job.drop_reply_marker matches Some(m) && trim(s.response.content) == m
}

/// Whether the final answer says something.
pub open spec fn says_something(s: ExchangeView) -> bool {
    trim(s.response.content).len() > 0
}

/// What is stored at the end.
pub open spec fn final_store(s: ExchangeView) -> Seq<EffectView> {
    if s.round > 0 {
        chain_effects(s)
    } else if s.job.defer_store && says_something(s) && !dropped(s) {
        seq![
            store_effect(
                s.job.peer_id,
                JsonView::object().with("role"@, JsonView::Str("assistant"@)).with(
                    "content"@,
                    JsonView::Str(s.response.content),
                ),
            ),
        ]
    } else {
        Seq::empty()
    }
}

/// What is published at the end: the answer, or the word that it has been sent already.
pub open spec fn final_publish(s: ExchangeView) -> Seq<EffectView> {
    if dropped(s) {
        Seq::empty()
    } else if s.sent_via_im {
        seq![
            EffectView::Publish(
                silent_event(s.response.content, s.job.source, s.job.peer_id),
            ),
        ]
    } else if says_something(s) {
        seq![reply_effect(s, s.response.content)]
    } else {
        Seq::empty()
    }
}

/// With an answer at hand: the end, where it asks for no tools or no rounds are left; else the
/// first tool it asks for.
pub open spec fn with_answer(s: ExchangeView, records: Seq<EffectView>) -> (
    ExchangeView,
    StepView,
) {
    if s.response.tool_calls.len() == 0 || s.round >= s.max_tool_rounds {
        conclude(s, records + final_store(s) + final_publish(s))
    } else {
        (
            ExchangeView { stage: Stage::Tool, next_call: 0, round_results: Seq::empty(), ..s },
            StepView {
                effects: records,
                next: NextView::RunTool {
                    name: s.response.tool_calls[0].name,
                    arguments: s.response.tool_calls[0].arguments,
                },
            },
        )
    }
}

/// After the model has answered, or failed to.
pub open spec fn after_answer(s: ExchangeView, a: AnswerView) -> (ExchangeView, StepView) {
    match a {
        AnswerView::Response(r) => with_answer(
            ExchangeView {
                response: r,
                asked: true,
                round: if s.asked {
                    (s.round + 1) as usize
                } else {
                    0
                },
                ..s
            },
            answer_records(r),
        ),
        AnswerView::Failed(e) => if s.asked {
            conclude(s, failure_records())
        } else {
            conclude(s, failure_records().push(reply_effect(s, failure_text(e))))
        },
        AnswerView::Lost => conclude(s, Seq::empty()),
    }
}

/// Whether a tool with this name sends the user a message itself.
pub open spec fn sends_message(name: Seq<char>) -> bool {
    "tg_send_"@.is_prefix_of(name) || name == "feishu_send_message"@ || name
        == "wechat_send_message"@
}

/// What stands for the result of a tool that is not registered.
pub open spec fn not_found(name: Seq<char>) -> ToolResultView {
    ToolResultView::err("tool '"@ + name + "' not found"@)
}

/// The line that the model gets of a result.
pub open spec fn result_line(name: Seq<char>, r: ToolResultView) -> Seq<char> {
    if r.success {
        "【"@ + name + "】\n"@ + r.content
    } else {
        "【"@ + name + "】错误："@ + match r.error {
            Some(e) => e,
            None => "unknown"@,
        }
    }
}

/// The arguments for describing a picture that a tool has made, where it has made one.
pub open spec fn description_args(name: Seq<char>, r: ToolResultView) -> Option<JsonView> {
    if r.success && name == "generate_image"@ {
        match r.metadata {
            Some(m) => match m.str_at("image_base64"@) {
                Some(b64) => if b64.len() > 0 {
                    Some(
                        JsonView::object().with("image_base64"@, JsonView::Str(b64)).with(
                            "mime_type"@,
                            JsonView::Str(str_or(m, "mime_type"@, "image/png"@)),
                        ),
                    )
                } else {
                    None
                },
                None => None,
            },
            None => None,
        }
    } else {
        None
    }
}

/// After a call is complete: the next one or, after the last, the model with all results.
pub open spec fn after_call(s: ExchangeView, effects: Seq<EffectView>) -> (ExchangeView, StepView) {
    if s.next_call + 1 < s.response.tool_calls.len() {
        let k = s.next_call + 1;
        (
            ExchangeView { stage: Stage::Tool, next_call: k as usize, ..s },
            StepView {
                effects,
                next: NextView::RunTool {
                    name: s.response.tool_calls[k].name,
                    arguments: s.response.tool_calls[k].arguments,
                },
            },
        )
    } else {
        let t = ExchangeView {
            stage: Stage::Answer,
            all_calls: s.all_calls + s.response.tool_calls,
            all_results: s.all_results + s.round_results,
            ..s
        };
        (
            t,
            StepView {
                effects,
                next: NextView::Ask { request: follow_up_request(t), max_retries: 2 },
            },
        )
    }
}

/// After a tool has answered (none where it is not registered).
pub open spec fn after_tool(s: ExchangeView, result: Option<ToolResultView>) -> (
    ExchangeView,
    StepView,
) {
    let name = s.response.tool_calls[s.next_call as int].name;
    let r = match result {
        Some(r) => r,
        None => not_found(name),
    };
    let effects = seq![EffectView::RecordTool { tool_name: name, success: r.success }];
    let t = ExchangeView {
        round_results: s.round_results.push(result_line(name, r)),
        sent_via_im: s.sent_via_im || (r.success && sends_message(name)),
        ..s
    };
    match description_args(name, r) {
        Some(arguments) => (
            ExchangeView { stage: Stage::Description, ..t },
            StepView { effects, next: NextView::DescribeImage { arguments } },
        ),
        None => after_call(t, effects),
    }
}

/// The result of a call with what is seen in the picture that it has made.
pub open spec fn described(result: Seq<char>, content: Seq<char>) -> Seq<char> {
    result + "\n【自动图片理解】\n"@ + content
}

/// After a picture has been described (none where no tool describes pictures).
pub open spec fn after_description(s: ExchangeView, result: Option<ToolResultView>) -> (
    ExchangeView,
    StepView,
) {
    match result {
        Some(r) if r.success => after_call(
            ExchangeView {
                round_results: s.round_results.drop_last().push(
                    described(s.round_results.last(), r.content),
                ),
                ..s
            },
            Seq::empty(),
        ),
        _ => after_call(s, Seq::empty()),
    }
}

/// Whether the request of an exchange has been registered and is not over.
pub open spec fn registered(s: ExchangeView) -> bool {
    s.stage == Stage::Preparation || s.stage == Stage::Answer || s.stage == Stage::Tool || s.stage
        == Stage::Description
}

/// After the request has been cancelled: nothing more is done, stored or said.
pub open spec fn after_cancel(s: ExchangeView) -> (ExchangeView, StepView) {
    conclude(s, Seq::empty())
}

/// A text as a JSON value, null where there is none.
fn opt_text_json(o: Option<String>) -> (r: Json)
    ensures
        r@ == text_json(opt_text(o)),
{
    match o {
        Some(s) => Json::Str(s),
        None => Json::Null,
    }
}

/// The event that sends a text to a peer.
pub fn emit_reply(text: &str, source: &str, peer_id: &str) -> (r: Event)
    ensures
        r@ == reply_event(text@, source@, peer_id@),
        r@.topic == "route.message"@,
        r@.data.str_at("text"@) == Some(text@),
        r@.data.str_at("source"@) == Some(source@),
        r@.data.str_at("peer_id"@) == Some(peer_id@),
{
    broadcast use crate::json::member_after_with;
    proof {
        crate::laws::parts::lemma_names();
    }
    let chat_id = opt_text_json(chat_id_from_peer_id(peer_id, source));
    let data = Json::object().with("text", Json::str(text)).with("source", Json::str(source)).with(
        "peer_id",
        Json::str(peer_id),
    ).with("chat_id", chat_id);
    Event::new("route.message", data, "pipeline")
}

/// The event that tells plugins of an answer that has been sent already.
pub fn silent_reply(text: &str, source: &str, peer_id: &str) -> (r: Event)
    ensures
        r@ == silent_event(text@, source@, peer_id@),
        r@.topic == "assistant.message"@,
        r@.data.at("silent"@) == JsonView::Bool(true),
        r@.data.str_at("text"@) == Some(text@),
        r@.data.str_at("source"@) == Some(source@),
        r@.data.str_at("peer_id"@) == Some(peer_id@),
{
    broadcast use crate::json::member_after_with;
    proof {
        crate::laws::parts::lemma_names();
    }
    let chat_id = opt_text_json(chat_id_from_peer_id(peer_id, source));
    let data = Json::object().with("text", Json::str(text)).with("source", Json::str(source)).with(
        "peer_id",
        Json::str(peer_id),
    ).with("chat_id", chat_id).with("silent", Json::Bool(true));
    Event::new("assistant.message", data, "pipeline")
}

/// A tool as the model is told of it.
pub fn tool_value(d: &ToolDef) -> (r: Json)
    ensures
        r@ == tool_json(d@),
{
    Json::object().with("type", Json::str("function")).with(
        "function",
        Json::object().with("name", Json::str(d.name.as_str())).with(
            "description",
            Json::str(d.description.as_str()),
        ).with("parameters", d.parameters.clone()),
    )
}

/// What stands for the result of a tool that is not registered.
pub fn missing_tool(name: &str) -> (r: ToolResult)
    ensures
        r@ == not_found(name@),
{
    let mut reason = "tool '".to_owned();
    reason.append(name);
    reason.append("' not found");
    ToolResult::err(reason.as_str())
}

/// The tools that the model is told of: those that are not internal.
pub fn llm_tools(defs: &Vec<ToolDef>) -> (r: Vec<Json>)
    ensures
        json_views(r@) == visible_tools(def_views(defs@)),
{
    let ghost all = def_views(defs@);
    let mut out: Vec<Json> = Vec::new();
    let mut i: usize = 0;
    assert(all.take(0) =~= Seq::empty());
    assert(json_views(out@) =~= Seq::empty());
    while i < defs.len()
        invariant
            i <= defs@.len(),
            all == def_views(defs@),
            json_views(out@) == visible_tools(all.take(i as int)),
        decreases defs@.len() - i,
    {
        let d = &defs[i];
        proof {
            let t = all.take(i + 1);
            assert(t.drop_last() =~= all.take(i as int));
            assert(t.last() == d@);
        }
        if !d.internal {
            let ghost before = out@;
            let tool = tool_value(d);
            out.push(tool);
            assert(json_views(out@) =~= json_views(before).push(tool@));
        }
        i = i + 1;
    }
    assert(all.take(all.len() as int) =~= all);
    out
}

/// The assistant message that asks for calls. Arguments that are a flat object read back with the
/// members that they have.
pub fn calls_json(calls: &Vec<ToolCall>) -> (r: Json)
    ensures
        r@ == calls_message(call_views(calls@)),
        forall|i: int|
            0 <= i < calls@.len() && is_flat((#[trigger] calls@[i])@.arguments) ==> reads_back(
                calls@[i]@.arguments,
            ),
{
    Json::object().with("role", Json::str("assistant")).with("content", Json::Null).with(
        "tool_calls",
        Json::array(stored_calls(calls)),
    )
}

/// The message with the result of the call at place `i`.
pub fn result_json(calls: &Vec<ToolCall>, results: &Vec<String>, i: usize) -> (r: Json)
    requires
        i < calls@.len(),
    ensures
        r@ == result_message(calls@[i as int]@, result_at(views(results@), i as int)),
{
    let result = if i < results.len() {
        results[i].clone()
    } else {
        String::new()
    };
    Json::object().with("role", Json::str("tool")).with(
        "tool_call_id",
        Json::str(calls[i].id.as_str()),
    ).with("content", Json::Str(result))
}

/// Whether the text of a value reads as a value with the same members.
pub open spec fn reads_back(v: JsonView) -> bool {
    json_read(json_written(v)) matches Some(w) && same_members(w, v)
}

fn stored_calls(calls: &Vec<ToolCall>) -> (r: Vec<Json>)
    ensures
        json_views(r@) == call_views(calls@).map_values(|c: ToolCallView| stored_call(c)),
        forall|i: int|
            0 <= i < calls@.len() && is_flat((#[trigger] calls@[i])@.arguments) ==> reads_back(
                calls@[i]@.arguments,
            ),
{
    let mut out: Vec<Json> = Vec::new();
    let mut i: usize = 0;
    while i < calls.len()
        invariant
            i <= calls@.len(),
            out@.len() == i,
            forall|k: int| 0 <= k < i ==> (#[trigger] out@[k])@ == stored_call(calls@[k]@),
            forall|k: int|
                0 <= k < i && is_flat((#[trigger] calls@[k])@.arguments) ==> reads_back(
                    calls@[k]@.arguments,
                ),
        decreases calls@.len() - i,
    {
        let c = &calls[i];
        let text = c.arguments.text();
        let item = Json::object().with("id", Json::str(c.id.as_str())).with(
            "type",
            Json::str("function"),
        ).with(
            "function",
            Json::object().with("name", Json::str(c.name.as_str())).with(
                "arguments",
                Json::Str(text),
            ),
        );
        out.push(item);
        i = i + 1;
    }
    assert(json_views(out@) =~= call_views(calls@).map_values(|c: ToolCallView| stored_call(c)));
    out
}

fn store(peer_id: &String, message: &Json) -> (r: Effect)
    ensures
        r@ == store_effect(peer_id@, message@),
{
    Effect::Store { peer_id: peer_id.clone(), message_json: message.text() }
}

/// Tells whether a tool with this name sends the user a message itself.
pub fn sends_via_im(name: &str) -> (r: bool)
    ensures
        r == sends_message(name@),
{
    starts_with(name, "tg_send_") || same(name, "feishu_send_message") || same(
        name,
        "wechat_send_message",
    )
}

/// The line that the model gets of a result.
pub fn line_of(name: &str, result: &ToolResult) -> (r: String)
    ensures
        r@ == result_line(name@, result@),
{
    let mut out = "【".to_owned();
    out.append(name);
    if result.success {
        out.append("】\n");
        out.append(result.content.as_str());
    } else {
        out.append("】错误：");
        match &result.error {
            Some(e) => out.append(e.as_str()),
            None => out.append("unknown"),
        }
    }
    out
}

/// The arguments for describing a picture that a tool has made, where it has made one.
pub fn describe_args(name: &str, result: &ToolResult) -> (r: Option<Json>)
    ensures
        match r {
            Some(j) => description_args(name@, result@) == Some(j@),
            None => description_args(name@, result@) is None,
        },
{
    if !result.success || !same(name, "generate_image") {
        return None;
    }
    match &result.metadata {
        Some(m) => match m.str_at("image_base64") {
            Some(b64) => {
                if b64.is_empty() {
                    None
                } else {
                    let mime = text_or(m, "mime_type", "image/png");
                    Some(
                        Json::object().with("image_base64", Json::str(b64)).with(
                            "mime_type",
                            Json::Str(mime),
                        ),
                    )
                }
            },
            None => None,
        },
        None => None,
    }
}

/// How many rounds of tool calls are allowed: 20 where nothing else is configured.
pub fn max_tool_rounds(value: Option<&str>) -> (r: usize)
    ensures
        r == setting(opt_str(value), usize::MAX as nat, 20),
{
    setting_usize(value, 20)
}

impl Exchange {
    /// A message that has just come in; it waits for the rate limiter.
    pub fn new(job: MessageJob, max_tool_rounds: usize) -> (r: Self)
        ensures
            r@ == incoming(job@, max_tool_rounds),
            sound(r@),
    {
        let r = Exchange {
            job,
            max_tool_rounds,
            stage: Stage::Admission,
            request_id: String::new(),
            contexts: Vec::new(),
            tools: Vec::new(),
            response: LlmResponse {
                content: String::new(),
                model: String::new(),
                prompt_tokens: 0,
                completion_tokens: 0,
                prompt_cache_hit_tokens: 0,
                prompt_cache_miss_tokens: 0,
                tool_calls: Vec::new(),
            },
            asked: false,
            round: 0,
            next_call: 0,
            round_results: Vec::new(),
            all_calls: Vec::new(),
            all_results: Vec::new(),
            sent_via_im: false,
        };
        proof {
            assert(views(r.contexts@) =~= Seq::empty());
            assert(json_views(r.tools@) =~= Seq::empty());
            assert(call_views(r.response.tool_calls@) =~= Seq::empty());
            assert(views(r.round_results@) =~= Seq::empty());
            assert(call_views(r.all_calls@) =~= Seq::empty());
            assert(views(r.all_results@) =~= Seq::empty());
        }
        r
    }

    /// How far the message has come.
    pub fn stage(&self) -> (r: Stage)
        ensures
            r == self@.stage,
    {
        self.stage
    }

    fn reply(&self, text: &str) -> (r: Effect)
        ensures
            r@ == reply_effect(self@, text@),
    {
        Effect::Publish(emit_reply(text, self.job.source.as_str(), self.job.peer_id.as_str()))
    }

    fn finish_with(&mut self, effects: Vec<Effect>) -> (r: Step)
        ensures
            (final(self)@, r@) == finish(old(self)@, effect_views(effects@)),
    {
        self.stage = Stage::Done;
        Step { effects, next: Next::Finish }
    }

    fn conclude_with(&mut self, effects: Vec<Effect>) -> (r: Step)
        ensures
            (final(self)@, r@) == conclude(old(self)@, effect_views(effects@)),
    {
        let mut effects = effects;
        add_effect(&mut effects, Effect::Deregister { request_id: self.request_id.clone() });
        self.finish_with(effects)
    }

    /// Takes the rate limiter's answer.
    pub fn on_rate_limit(&mut self, allowed: bool) -> (r: Step)
        requires
            sound(old(self)@),
            old(self)@.stage == Stage::Admission,
        ensures
            (final(self)@, r@) == after_rate_limit(old(self)@, allowed),
            sound(final(self)@),
    {
        let mut effects: Vec<Effect> = Vec::new();
        assert(effect_views(effects@) =~= Seq::empty());
        if allowed {
            self.stage = Stage::Budget;
            Step { effects, next: Next::CheckBudget }
        } else {
            let e = self.reply("⏳ 请求过于频繁，请稍后再试。");
            add_effect(&mut effects, e);
            assert(effect_views(effects@) =~= seq![e@]);
            self.finish_with(effects)
        }
    }

    /// Takes the answer of the budget check, none where it could not be made, and gives the request
    /// an id where it goes on.
    pub fn on_budget(&mut self, check: Option<BudgetCheck>) -> (r: Step)
        requires
            sound(old(self)@),
            old(self)@.stage == Stage::Budget,
        ensures
            exists|request_id: Seq<char>|
                is_random_id(request_id) && (final(self)@, r@) == #[trigger] after_budget(
                    old(self)@,
                    check_view(check),
                    request_id,
                ),
            !budget_stops(check_view(check)) ==> is_random_id(final(self)@.request_id),
            sound(final(self)@),
    {
        let request_id = random_id();
        let ghost id = request_id@;
        let ghost before = self@;
        let r = self.budget_with(check, request_id);
        assert((self@, r@) == after_budget(before, check_view(check), id));
        r
    }

    /// Takes the answer of the budget check, none where it could not be made, and the id that the
    /// request has where it goes on.
    pub fn budget_with(&mut self, check: Option<BudgetCheck>, request_id: String) -> (r: Step)
        requires
            sound(old(self)@),
            old(self)@.stage == Stage::Budget,
        ensures
            (final(self)@, r@) == after_budget(old(self)@, check_view(check), request_id@),
            sound(final(self)@),
    {
        let mut effects: Vec<Effect> = Vec::new();
        assert(effect_views(effects@) =~= Seq::empty());
        match check {
            Some(c) => {
                if !c.allowed {
                    let mut text = "🪙 Token 额度（".to_owned();
                    match &c.period {
                        Some(p) => text.append(p.as_str()),
                        None => text.append("?"),
                    }
                    text.append("）已用尽（");
                    push_decimal(&mut text, c.used);
                    text.append("/");
                    push_decimal(&mut text, c.limit);
                    text.append("），请稍后再试。");
                    let e = self.reply(text.as_str());
                    add_effect(&mut effects, e);
                    assert(effect_views(effects@) =~= seq![e@]);
                    return self.finish_with(effects);
                }
            },
            None => {},
        }
        let e = Effect::Register { request_id: request_id.clone() };
        add_effect(&mut effects, e);
        assert(effect_views(effects@) =~= seq![e@]);
        self.request_id = request_id;
        self.stage = Stage::Preparation;
        Step { effects, next: Next::Prepare }
    }

    /// Takes the plugins' contexts and the tool definitions.
    pub fn on_prepared(&mut self, contexts: Vec<String>, defs: &Vec<ToolDef>) -> (r: Step)
        requires
            sound(old(self)@),
            old(self)@.stage == Stage::Preparation,
        ensures
            (final(self)@, r@) == after_preparation(
                old(self)@,
                views(contexts@),
                def_views(defs@),
            ),
            sound(final(self)@),
    {
        self.stage = Stage::Answer;
        self.contexts = contexts;
        self.tools = if self.job.allow_tools {
            llm_tools(defs)
        } else {
            Vec::new()
        };
        let request = ChatRequest {
            message: self.job.text.clone(),
            peer_id: self.job.peer_id.clone(),
            tools: clone_json(&self.tools),
            skip_store: self.job.defer_store,
            contexts: clone_strings(&self.contexts),
            jailbreak_index: None,
            image_base64: clone_opt(&self.job.image_base64),
            video_base64: clone_opt(&self.job.video_base64),
            video_mime: clone_opt(&self.job.video_mime),
            file_base64: clone_opt(&self.job.file_base64),
            file_name: clone_opt(&self.job.file_name),
            stream: true,
            request_id: self.request_id.clone(),
            source: self.job.source.clone(),
            user_name: self.job.user_name.clone(),
            max_tokens: None,
            original_user_msg: clone_opt(&self.job.original_user_msg),
            assistant_tool_calls: Vec::new(),
            tool_results: Vec::new(),
        };
        let effects: Vec<Effect> = Vec::new();
        proof {
            assert(effect_views(effects@) =~= Seq::empty());
            assert(call_views(request.assistant_tool_calls@) =~= Seq::empty());
            assert(views(request.tool_results@) =~= Seq::empty());
            if !self.job.allow_tools {
                assert(json_views(self.tools@) =~= Seq::empty());
            }
        }
        Step { effects, next: Next::Ask { request, max_retries: 3 } }
    }

    fn push_chain(&self, effects: &mut Vec<Effect>)
        ensures
            effect_views(final(effects)@) == effect_views(old(effects)@) + chain_effects(self@),
    {
        let ghost start = effect_views(effects@);
        let ghost s = self@;
        let peer_id = &self.job.peer_id;
        let calls = calls_json(&self.all_calls);
        add_effect(effects, store(peer_id, &calls));
        let ghost head = seq![store_effect(s.job.peer_id, calls_message(s.all_calls))];
        let ghost body = Seq::new(
            s.all_calls.len(),
            |i: int|
                store_effect(
                    s.job.peer_id,
                    result_message(s.all_calls[i], result_at(s.all_results, i)),
                ),
        );
        let mut i: usize = 0;
        assert(effect_views(effects@) =~= start + head + body.take(0));
        while i < self.all_calls.len()
            invariant
                i <= self.all_calls@.len(),
                s == self@,
                peer_id == &self.job.peer_id,
                body == Seq::new(
                    s.all_calls.len(),
                    |i: int|
                        store_effect(
                            s.job.peer_id,
                            result_message(s.all_calls[i], result_at(s.all_results, i)),
                        ),
                ),
                effect_views(effects@) == start + head + body.take(i as int),
            decreases self.all_calls@.len() - i,
        {
            let message = result_json(&self.all_calls, &self.all_results, i);
            let e = store(peer_id, &message);
            add_effect(effects, e);
            assert(body[i as int] == e@);
            assert((start + head + body.take(i as int)).push(e@) =~= start + head + body.take(
                i + 1,
            ));
            i = i + 1;
        }
        assert(body.take(body.len() as int) =~= body);
        let content = if self.response.content.as_str().is_empty() {
            Json::Null
        } else {
            Json::str(self.response.content.as_str())
        };
        let last = Json::object().with("role", Json::str("assistant")).with("content", content);
        let e = store(peer_id, &last);
        add_effect(effects, e);
        assert((start + head + body).push(e@) =~= start + (head + body + seq![e@]));
    }

    fn final_effects(&self, effects: &mut Vec<Effect>)
        ensures
            effect_views(final(effects)@) == effect_views(old(effects)@) + final_store(self@)
                + final_publish(self@),
    {
        let ghost s = self@;
        let ghost start = effect_views(effects@);
        let text = trimmed(self.response.content.as_str());
        let blank = text.as_str().is_empty();
        let drop_reply = match &self.job.drop_reply_marker {
            Some(m) => same(text.as_str(), m.as_str()),
            None => false,
        };
        if self.round > 0 {
            self.push_chain(effects);
        } else if self.job.defer_store && !blank && !drop_reply {
            let message = Json::object().with("role", Json::str("assistant")).with(
                "content",
                Json::str(self.response.content.as_str()),
            );
            let e = store(&self.job.peer_id, &message);
            add_effect(effects, e);
            assert(start.push(e@) =~= start + seq![e@]);
        } else {
            assert(start =~= start + Seq::empty());
        }
        let ghost stored = start + final_store(s);
        assert(effect_views(effects@) == stored);
        if !drop_reply {
            if self.sent_via_im {
                let e = Effect::Publish(
                    silent_reply(
                        self.response.content.as_str(),
                        self.job.source.as_str(),
                        self.job.peer_id.as_str(),
                    ),
                );
                add_effect(effects, e);
                assert(stored.push(e@) =~= stored + seq![e@]);
            } else if !blank {
                let e = self.reply(self.response.content.as_str());
                add_effect(effects, e);
                assert(stored.push(e@) =~= stored + seq![e@]);
            } else {
                assert(stored =~= stored + Seq::empty());
            }
        } else {
            assert(stored =~= stored + Seq::empty());
        }
    }

    fn run_tool(&self, k: usize) -> (r: Next)
        requires
            k < self@.response.tool_calls.len(),
        ensures
            r@ == (NextView::RunTool {
                name: self@.response.tool_calls[k as int].name,
                arguments: self@.response.tool_calls[k as int].arguments,
            }),
    {
        Next::RunTool {
            name: self.response.tool_calls[k].name.clone(),
            arguments: self.response.tool_calls[k].arguments.clone(),
        }
    }

    /// Takes the model's answer, or the reason why there is none.
    pub fn on_answer(&mut self, answer: Result<LlmResponse, AskError>) -> (r: Step)
        requires
            sound(old(self)@),
            old(self)@.stage == Stage::Answer,
        ensures
            (final(self)@, r@) == after_answer(old(self)@, answer_view(answer)),
            sound(final(self)@),
    {
        let mut effects: Vec<Effect> = Vec::new();
        assert(effect_views(effects@) =~= Seq::empty());
        match answer {
            Ok(response) => {
                let usage = Effect::RecordUsage {
                    model: response.model.clone(),
                    prompt_tokens: response.prompt_tokens,
                    completion_tokens: response.completion_tokens,
                    prompt_cache_hit_tokens: response.prompt_cache_hit_tokens,
                    prompt_cache_miss_tokens: response.prompt_cache_miss_tokens,
                };
                let latency = Effect::RecordLatency {
                    model: Some(response.model.clone()),
                    success: true,
                };
                add_effect(&mut effects, usage);
                add_effect(&mut effects, latency);
                assert(effect_views(effects@) =~= answer_records(response@));
                if self.asked {
                    self.round = self.round + 1;
                } else {
                    self.round = 0;
                }
                self.asked = true;
                self.response = response;
                if self.response.tool_calls.len() == 0 || self.round >= self.max_tool_rounds {
                    self.final_effects(&mut effects);
                    self.conclude_with(effects)
                } else {
                    self.stage = Stage::Tool;
                    self.next_call = 0;
                    self.round_results = Vec::new();
                    assert(views(self.round_results@) =~= Seq::empty());
                    let next = self.run_tool(0);
                    Step { effects, next }
                }
            },
            Err(AskError::Llm(e)) => {
                add_effect(&mut effects, Effect::RecordLatency { model: None, success: false });
                add_effect(&mut effects, Effect::RecordError { category: "llm_api".to_owned() });
                assert(effect_views(effects@) =~= failure_records());
                if !self.asked {
                    let mut text = "抱歉，出错了：".to_owned();
                    text.append(e.as_str());
                    let reply = self.reply(text.as_str());
                    add_effect(&mut effects, reply);
                }
                self.conclude_with(effects)
            },
            Err(AskError::Mailbox) => self.conclude_with(effects),
        }
    }

    fn call_done(&mut self, effects: Vec<Effect>) -> (r: Step)
        requires
            old(self)@.asked,
            old(self)@.round < old(self)@.max_tool_rounds,
            old(self)@.next_call < old(self)@.response.tool_calls.len(),
            old(self)@.round_results.len() == old(self)@.next_call + 1,
            old(self)@.all_results.len() == old(self)@.all_calls.len(),
        ensures
            (final(self)@, r@) == after_call(old(self)@, effect_views(effects@)),
            sound(final(self)@),
    {
        let ghost s = self@;
        if self.next_call < self.response.tool_calls.len() - 1 {
            self.stage = Stage::Tool;
            self.next_call = self.next_call + 1;
            let next = self.run_tool(self.next_call);
            return Step { effects, next };
        }
        self.stage = Stage::Answer;
        let mut calls = clone_calls(&self.response.tool_calls);
        let ghost new_calls = calls@;
        let ghost old_calls = self.all_calls@;
        self.all_calls.append(&mut calls);
        assert(call_views(old_calls + new_calls) =~= call_views(old_calls) + call_views(new_calls));
        let mut results = clone_strings(&self.round_results);
        let ghost new_results = results@;
        let ghost old_results = self.all_results@;
        self.all_results.append(&mut results);
        assert(views(old_results + new_results) =~= views(old_results) + views(new_results));
        let mut request_id = self.request_id.clone();
        request_id.append("-t");
        push_decimal(&mut request_id, self.round as u64 + 1);
        let request = ChatRequest {
            message: String::new(),
            peer_id: self.job.peer_id.clone(),
            tools: clone_json(&self.tools),
            skip_store: true,
            contexts: clone_strings(&self.contexts),
            jailbreak_index: None,
            image_base64: None,
            video_base64: None,
            video_mime: None,
            file_base64: None,
            file_name: None,
            stream: true,
            request_id,
            source: self.job.source.clone(),
            user_name: self.job.user_name.clone(),
            max_tokens: None,
            original_user_msg: None,
            assistant_tool_calls: clone_calls(&self.all_calls),
            tool_results: clone_strings(&self.all_results),
        };
        Step { effects, next: Next::Ask { request, max_retries: 2 } }
    }

    /// Takes the result of the tool that was called, none where no tool has the name.
    pub fn on_tool_result(&mut self, result: Option<ToolResult>) -> (r: Step)
        requires
            sound(old(self)@),
            old(self)@.stage == Stage::Tool,
        ensures
            (final(self)@, r@) == after_tool(
                old(self)@,
                match result {
                    Some(t) => Some(t@),
                    None => None,
                },
            ),
            sound(final(self)@),
    {
        let ghost s = self@;
        let name = self.response.tool_calls[self.next_call].name.clone();
        let result = match result {
            Some(t) => t,
            None => missing_tool(name.as_str()),
        };
        let mut effects: Vec<Effect> = Vec::new();
        let record = Effect::RecordTool { tool_name: name.clone(), success: result.success };
        add_effect(&mut effects, record);
        assert(effect_views(effects@) =~= seq![record@]);
        let line = line_of(name.as_str(), &result);
        let ghost before = self.round_results@;
        self.round_results.push(line);
        assert(views(before.push(line)) =~= views(before).push(line@));
        if result.success && sends_via_im(name.as_str()) {
            self.sent_via_im = true;
        }
        match describe_args(name.as_str(), &result) {
            Some(arguments) => {
                self.stage = Stage::Description;
                Step { effects, next: Next::DescribeImage { arguments } }
            },
            None => self.call_done(effects),
        }
    }

    /// Takes the description of a picture, none where no tool describes pictures.
    pub fn on_description(&mut self, result: Option<ToolResult>) -> (r: Step)
        requires
            sound(old(self)@),
            old(self)@.stage == Stage::Description,
        ensures
            (final(self)@, r@) == after_description(
                old(self)@,
                match result {
                    Some(t) => Some(t@),
                    None => None,
                },
            ),
            sound(final(self)@),
    {
        match result {
            Some(t) => {
                if t.success {
                    let ghost before = self.round_results@;
                    let last: usize = self.round_results.len() - 1;
                    let mut line = self.round_results[last].clone();
                    line.append("\n【自动图片理解】\n");
                    line.append(t.content.as_str());
                    self.round_results.set(last, line);
                    assert(views(self.round_results@) =~= views(before).drop_last().push(line@));
                }
            },
            None => {},
        }
        let effects: Vec<Effect> = Vec::new();
        assert(effect_views(effects@) =~= Seq::empty());
        self.call_done(effects)
    }

    /// Ends the exchange, whose request has been cancelled.
    pub fn on_cancelled(&mut self) -> (r: Step)
        requires
            sound(old(self)@),
            registered(old(self)@),
        ensures
            (final(self)@, r@) == after_cancel(old(self)@),
            sound(final(self)@),
    {
        let effects: Vec<Effect> = Vec::new();
        assert(effect_views(effects@) =~= Seq::empty());
        self.conclude_with(effects)
    }
}

/// A message that the rate limiter or the budget stops never reaches the model: the user is told
/// why and the exchange ends.
pub proof fn stopped_message_is_not_asked(
    s: ExchangeView,
    check: BudgetCheckView,
    request_id: Seq<char>,
)
    requires
        !check.allowed,
    ensures
        after_rate_limit(s, false).1 == (StepView {
            effects: seq![reply_effect(s, too_often())],
            next: NextView::Finish,
        }),
        after_rate_limit(s, false).0.stage == Stage::Done,
        after_budget(s, Some(check), request_id).1 == (StepView {
            effects: seq![reply_effect(s, budget_text(check))],
            next: NextView::Finish,
        }),
        after_budget(s, Some(check), request_id).0.stage == Stage::Done,
{
}

/// Whether an effect registers a request or ends its registration.
pub open spec fn is_registration(e: EffectView) -> bool {
    e is Register || e is Deregister
}

/// Whether none of the effects registers a request or ends its registration.
pub open spec fn no_registration(effects: Seq<EffectView>) -> bool {
    forall|i: int| 0 <= i < effects.len() ==> !is_registration(#[trigger] effects[i])
}

/// Whether a step keeps to the registration of a request: at the end of the exchange the last thing
/// done is to end it, and it is not touched before.
pub open spec fn keeps_registration(s: ExchangeView, out: (ExchangeView, StepView)) -> bool {
    &&& out.0.request_id == s.request_id
    &&& registered(out.0) <==> out.1.next !is Finish
    &&& if out.1.next is Finish {
        &&& out.1.effects.len() > 0
        &&& out.1.effects.last() == EffectView::Deregister { request_id: s.request_id }
        &&& no_registration(out.1.effects.drop_last())
    } else {
        no_registration(out.1.effects)
    }
}

proof fn lemma_concluded(s: ExchangeView, effects: Seq<EffectView>)
    requires
        no_registration(effects),
    ensures
        keeps_registration(s, conclude(s, effects)),
{
    let all = conclude(s, effects).1.effects;
    assert(all.drop_last() =~= effects);
}

/// A request is registered once, after the rate limiter and the budget have let it through and
/// before anything else is done for it, and from then on whatever comes in, its registration ends
/// with the exchange and not before.
pub proof fn registered_until_the_end(
    s: ExchangeView,
    allowed: bool,
    check: Option<BudgetCheckView>,
    request_id: Seq<char>,
    contexts: Seq<Seq<char>>,
    defs: Seq<ToolDefView>,
    a: AnswerView,
    result: Option<ToolResultView>,
)
    requires
        sound(s),
    ensures
        no_registration(after_rate_limit(s, allowed).1.effects),
        budget_stops(check) ==> no_registration(after_budget(s, check, request_id).1.effects),
        !budget_stops(check) ==> {
            let (t, step) = after_budget(s, check, request_id);
            &&& registered(t)
            &&& t.request_id == request_id
            &&& step.effects == seq![EffectView::Register { request_id }]
        },
        s.stage == Stage::Preparation ==> keeps_registration(
            s,
            after_preparation(s, contexts, defs),
        ),
        s.stage == Stage::Answer ==> keeps_registration(s, after_answer(s, a)),
        s.stage == Stage::Tool ==> keeps_registration(s, after_tool(s, result)),
        s.stage == Stage::Description ==> keeps_registration(s, after_description(s, result)),
        registered(s) ==> keeps_registration(s, after_cancel(s)),
{
    lemma_concluded(s, Seq::empty());
    lemma_concluded(s, failure_records());
    if let AnswerView::Failed(e) = a {
        lemma_concluded(s, failure_records().push(reply_effect(s, failure_text(e))));
    }
    if let AnswerView::Response(r) = a {
        let t = ExchangeView {
            response: r,
            asked: true,
            round: if s.asked {
                (s.round + 1) as usize
            } else {
                0
            },
            ..s
        };
        assert(no_registration(final_store(t))) by {
            at_most_one_event_at_the_end(t);
        }
        assert(no_registration(final_publish(t))) by {
            at_most_one_event_at_the_end(t);
        }
        assert(no_registration(answer_records(r)));
        lemma_concluded(t, answer_records(r) + final_store(t) + final_publish(t));
    }
}

/// The model is asked again only while rounds are left, and each answer to such a request uses up
/// one round; so it answers at most once more than there are rounds.
pub proof fn rounds_are_bounded(s: ExchangeView, result: Option<ToolResultView>, a: AnswerView)
    requires
        sound(s),
        s.asked,
    ensures
        s.stage == Stage::Tool && after_tool(s, result).1.next is Ask ==> s.round
            < s.max_tool_rounds && after_tool(s, result).0.round == s.round,
        s.stage == Stage::Description && after_description(s, result).1.next is Ask ==> s.round
            < s.max_tool_rounds && after_description(s, result).0.round == s.round,
        s.stage == Stage::Answer && a is Response ==> after_answer(s, a).0.round == s.round + 1
            <= s.max_tool_rounds,
{
}

/// Every follow-up request hands the model the calls and results of all rounds so far, in order.
pub proof fn results_accumulate(s: ExchangeView, result: Option<ToolResultView>)
    requires
        sound(s),
        s.stage == Stage::Tool,
    ensures
        after_tool(s, result).1.next matches NextView::Ask { request, .. } ==> {
            &&& request.assistant_tool_calls == s.all_calls + s.response.tool_calls
            &&& s.all_results.is_prefix_of(request.tool_results)
            &&& (s.all_results + s.round_results).is_prefix_of(request.tool_results)
        },
{
    if let NextView::Ask { request, .. } = after_tool(s, result).1.next {
        let line = request.tool_results.last();
        assert(request.tool_results =~= s.all_results + s.round_results.push(line));
    }
}

/// Every follow-up request has one result for each call.
pub proof fn one_result_for_each_call(s: ExchangeView, result: Option<ToolResultView>)
    requires
        sound(s),
    ensures
        s.stage == Stage::Tool ==> (after_tool(s, result).1.next matches NextView::Ask {
            request,
            ..
        } ==> request.tool_results.len() == request.assistant_tool_calls.len()),
        s.stage == Stage::Description ==> (after_description(
            s,
            result,
        ).1.next matches NextView::Ask { request, .. } ==> request.tool_results.len()
            == request.assistant_tool_calls.len()),
{
}

/// At the end at most one event is published, and nothing is published before what is stored.
pub proof fn at_most_one_event_at_the_end(s: ExchangeView)
    ensures
        final_publish(s).len() <= 1,
        forall|i: int|
            0 <= i < final_publish(s).len() ==> (#[trigger] final_publish(s)[i]) is Publish,
        forall|i: int| 0 <= i < final_store(s).len() ==> (#[trigger] final_store(s)[i]) is Store,
{
}

/// Where a tool has sent the user a message, the answer is not sent again.
pub proof fn no_second_reply(s: ExchangeView)
    requires
        s.sent_via_im,
    ensures
        forall|i: int|
            0 <= i < final_publish(s).len() ==> (#[trigger] final_publish(
                s,
            )[i])->Publish_0.topic != "route.message"@,
{
    reveal_strlit("route.message");
    reveal_strlit("assistant.message");
    assert("route.message"@.len() != "assistant.message"@.len());
}

/// The answer that means that nothing is to be said is neither sent nor, without tool calls,
/// stored.
pub proof fn dropped_answer_leaves_no_trace(s: ExchangeView)
    requires
        dropped(s),
    ensures
        final_publish(s).len() == 0,
        s.round == 0 ==> final_store(s).len() == 0,
{
}

/// Rounds of tool calls are stored whole: the calls, one result for each of them, the final
/// answer.
pub proof fn stored_chain_is_whole(s: ExchangeView, i: int)
    requires
        s.round > 0,
    ensures
        final_store(s).len() == s.all_calls.len() + 2,
        final_store(s)[0] == store_effect(s.job.peer_id, calls_message(s.all_calls)),
        0 <= i < s.all_calls.len() ==> final_store(s)[i + 1] == store_effect(
            s.job.peer_id,
            result_message(s.all_calls[i], result_at(s.all_results, i)),
        ),
        final_store(s).last() == store_effect(s.job.peer_id, final_message(s.response.content)),
{
}

} // verus!
