//! The small host: what a user's message leads to, one step after the other.

use crate::core_llm::{answer_view, LlmResponse, LlmResponseView};
use crate::event::{str_or, text_or, AgentEvent, EventSource, EventType};
use crate::json::{json_views, Json, JsonView};
use crate::numbers::{opt_str, setting, setting_u16};
use crate::server::{HttpAnswer, HttpAnswerView};
use crate::text::{blank, is_blank, views};
use crate::tool::{
    call_views, callable, opt_text, ToolCall, ToolCallView, ToolExecutor, ToolRegistry, ToolResult,
};
use std::sync::Arc;
use vstd::prelude::*;

verus! {

broadcast use vstd::string::group_string_axioms;

/// What the model is asked.
#[derive(Debug, PartialEq)]
pub struct ChatRequest {
    pub chat_id: i64,
    pub message: String,
    pub json_mode: bool,
    pub tools: Vec<Json>,
    /// Whether the turn stays out of the history.
    pub skip_store: bool,
    /// The passive contexts of the plugins.
    pub contexts: Vec<String>,
}

/// The model of a [`ChatRequest`].
pub ghost struct ChatRequestView {
    pub chat_id: i64,
    pub message: Seq<char>,
    pub json_mode: bool,
    pub tools: Seq<JsonView>,
    pub skip_store: bool,
    pub contexts: Seq<Seq<char>>,
}

impl View for ChatRequest {
    type V = ChatRequestView;

    open spec fn view(&self) -> ChatRequestView {
        ChatRequestView {
            chat_id: self.chat_id,
            message: self.message@,
            json_mode: self.json_mode,
            tools: json_views(self.tools@),
            skip_store: self.skip_store,
            contexts: views(self.contexts@),
        }
    }
}

/// What a user's message says.
#[derive(Debug, PartialEq)]
pub struct UserMessage {
    pub text: String,
    pub chat_id: Option<i64>,
    pub user_name: String,
    pub source: String,
}

/// Reads what a user's message says.
pub fn read_user_message(data: &Json) -> (r: UserMessage)
    ensures
        r.text@ == str_or(data@, "text"@, ""@),
        r.chat_id == data@.at("chat_id"@).as_i64(),
        r.user_name@ == str_or(data@, "user_name"@, "unknown"@),
        r.source@ == str_or(data@, "source"@, ""@),
{
    let chat_id = match data.get("chat_id") {
        Some(v) => v.as_i64(),
        None => None,
    };
    UserMessage {
        text: text_or(data, "text", ""),
        chat_id,
        user_name: text_or(data, "user_name", "unknown"),
        source: text_or(data, "source", ""),
    }
}

/// The chat of a message: nought where it names none.
pub open spec fn chat_of(chat_id: Option<i64>) -> i64 {
    match chat_id {
        Some(c) => c,
        None => 0,
    }
}

/// A chat as a value.
pub open spec fn chat_value(chat_id: Option<i64>) -> JsonView {
    match chat_id {
        Some(c) => JsonView::integer(c as int),
        None => JsonView::Null,
    }
}

/// What a reply carries.
pub open spec fn reply_data(chat_id: Option<i64>, text: Seq<char>, source: Seq<char>) -> JsonView {
    JsonView::object().with("chat_id"@, chat_value(chat_id)).with("text"@, JsonView::Str(text)).with(
        "source"@,
        JsonView::Str(source),
    )
}

/// Whether an event is a reply with the text.
pub open spec fn is_reply(
    e: AgentEvent,
    chat_id: Option<i64>,
    text: Seq<char>,
    source: Seq<char>,
) -> bool {
    &&& e.event_type == EventType::AssistantMessage
    &&& e.source == EventSource::System
    &&& e.data@ == reply_data(chat_id, text, source)
}

/// A reply with the text.
pub fn reply(chat_id: Option<i64>, text: &str, source: &str) -> (r: AgentEvent)
    ensures
        is_reply(r, chat_id, text@, source@),
{
    let chat = match chat_id {
        Some(c) => Json::integer(c),
        None => Json::Null,
    };
    AgentEvent::new(
        EventType::AssistantMessage,
        EventSource::System,
        Json::object().with("chat_id", chat).with("text", Json::str(text)).with(
            "source",
            Json::str(source),
        ),
    )
}

/// The reply of a host without a model: what the user said.
pub fn echo(message: &UserMessage) -> (r: AgentEvent)
    ensures
        is_reply(r, message.chat_id, "你说: "@ + message.text@, message.source@),
{
    let mut text = "你说: ".to_owned();
    text.append(message.text.as_str());
    reply(message.chat_id, text.as_str(), message.source.as_str())
}

/// An event of the system that carries a message.
pub fn notice(event_type: EventType, message: &str) -> (r: AgentEvent)
    ensures
        r.event_type == event_type,
        r.source == EventSource::System,
        r.data@ == JsonView::object().with("message"@, JsonView::Str(message@)),
{
    AgentEvent::new(
        event_type,
        EventSource::System,
        Json::object().with("message", Json::str(message)),
    )
}

/// The arguments of a call, with the chat where they name none.
pub open spec fn with_chat(args: JsonView, chat_id: i64) -> JsonView {
    args.with_default("chat_id"@, JsonView::integer(chat_id as int))
}

/// The calls of tools that the model may call, with the chat in their arguments.
pub open spec fn runnable(calls: Seq<ToolCallView>, names: Set<Seq<char>>, chat_id: i64) -> Seq<
    ToolCallView,
>
    decreases calls.len(),
{
    if calls.len() == 0 {
        Seq::empty()
    } else {
        let before = runnable(calls.drop_last(), names, chat_id);
        let c = calls.last();
        if names.contains(c.name) {
            before.push(ToolCallView { arguments: with_chat(c.arguments, chat_id), ..c })
        } else {
            before
        }
    }
}

/// The calls of tools that the model may call, with the chat in their arguments.
pub fn runnable_calls(calls: &Vec<ToolCall>, registry: &ToolRegistry, chat_id: i64) -> (r: Vec<
    ToolCall,
>)
    ensures
        call_views(r@) == runnable(call_views(calls@), callable(registry@), chat_id),
{
    let ghost all = call_views(calls@);
    let mut out: Vec<ToolCall> = Vec::new();
    let mut i: usize = 0;
    assert(all.take(0) =~= Seq::empty());
    assert(call_views(out@) =~= Seq::empty());
    while i < calls.len()
        invariant
            i <= calls@.len(),
            all == call_views(calls@),
            call_views(out@) == runnable(all.take(i as int), callable(registry@), chat_id),
        decreases calls@.len() - i,
    {
        let ghost before = out@;
        assert(all.take(i + 1).drop_last() =~= all.take(i as int));
        let known = registry.get_callable(calls[i].name.as_str()).is_some();
        if known {
            let c = ToolCall {
                id: calls[i].id.clone(),
                name: calls[i].name.clone(),
                arguments: calls[i].arguments.clone().with_default(
                    "chat_id",
                    Json::integer(chat_id),
                ),
            };
            out.push(c);
            assert(call_views(before.push(c)) =~= call_views(before).push(c@));
        }
        i = i + 1;
    }
    assert(all.take(all.len() as int) =~= all);
    out
}

/// A message on its way: the model is asked, and where its answer came out of a cache and is blank,
/// it is asked once more.
pub struct Conversation {
    text: String,
    chat_id: i64,
    source: String,
}

/// The model of a [`Conversation`].
pub ghost struct ConversationView {
    pub text: Seq<char>,
    pub chat_id: i64,
    pub source: Seq<char>,
}

impl View for Conversation {
    type V = ConversationView;

    closed spec fn view(&self) -> ConversationView {
        ConversationView { text: self.text@, chat_id: self.chat_id, source: self.source@ }
    }
}

/// What to do after the model was asked.
pub enum ConversationStep {
    /// Publish the reply.
    Reply(AgentEvent),
    /// Run the calls; the tools answer the user.
    Run(Vec<ToolCall>),
    /// Ask once more.
    Again(ChatRequest),
    /// Nothing.
    Done,
}

/// How asking the model ended.
pub enum Asked {
    /// With an answer.
    Answered(LlmResponse),
    /// The model refused for the reason.
    Refused(String),
    /// It was not reached.
    Unreached,
}

/// The request that asks once more: without tools or contexts, and out of the history.
pub open spec fn again(c: ConversationView) -> ChatRequestView {
    ChatRequestView {
        chat_id: c.chat_id,
        message: c.text,
        json_mode: false,
        tools: Seq::empty(),
        skip_store: true,
        contexts: Seq::empty(),
    }
}

/// Whether `step` is what follows when the model was asked.
pub open spec fn follows(
    c: ConversationView,
    asked: Asked,
    names: Set<Seq<char>>,
    step: ConversationStep,
) -> bool {
    match asked {
        Asked::Unreached => step is Done,
        Asked::Refused(e) => step matches ConversationStep::Reply(r) && is_reply(
            r,
            Some(c.chat_id),
            "抱歉，出错了: "@ + e@,
            c.source,
        ),
        Asked::Answered(a) => if a@.tool_calls.len() > 0 {
            step matches ConversationStep::Run(calls) && call_views(calls@) == runnable(
                a@.tool_calls,
                names,
                c.chat_id,
            )
        } else if !blank(a@.content) {
            step matches ConversationStep::Reply(r) && is_reply(
                r,
                Some(c.chat_id),
                a@.content,
                c.source,
            )
        } else if a@.cache_hit_tokens > 0 {
            step matches ConversationStep::Again(q) && q@ == again(c)
        } else {
            step is Done
        },
    }
}

/// Whether `step` is what follows when the model was asked once more.
pub open spec fn follows_again(c: ConversationView, asked: Asked, step: ConversationStep) -> bool {
    match asked {
        Asked::Answered(a) => if blank(a@.content) {
            step is Done
        } else {
            step matches ConversationStep::Reply(r) && is_reply(
                r,
                Some(c.chat_id),
                a@.content,
                c.source,
            )
        },
        _ => step is Done,
    }
}

impl Conversation {
    /// Begins with a message: what the model is asked first.
    pub fn begin(message: &UserMessage, tools: Vec<Json>, contexts: Vec<String>) -> (r: (
        Conversation,
        ChatRequest,
    ))
        ensures
            r.0@ == (ConversationView {
                text: message.text@,
                chat_id: chat_of(message.chat_id),
                source: message.source@,
            }),
            r.1@ == (ChatRequestView {
                chat_id: chat_of(message.chat_id),
                message: message.text@,
                json_mode: false,
                tools: json_views(tools@),
                skip_store: false,
                contexts: views(contexts@),
            }),
    {
        let chat_id: i64 = match message.chat_id {
            Some(c) => c,
            None => 0,
        };
        let c = Conversation {
            text: message.text.clone(),
            chat_id,
            source: message.source.clone(),
        };
        let q = ChatRequest {
            chat_id,
            message: message.text.clone(),
            json_mode: false,
            tools,
            skip_store: false,
            contexts,
        };
        (c, q)
    }

    fn say(&self, text: &str) -> (r: ConversationStep)
        ensures
            r matches ConversationStep::Reply(e) && is_reply(
                e,
                Some(self@.chat_id),
                text@,
                self@.source,
            ),
    {
        ConversationStep::Reply(reply(Some(self.chat_id), text, self.source.as_str()))
    }

    /// Takes the answer to the first question.
    pub fn on_answer(&self, asked: &Asked, registry: &ToolRegistry) -> (r: ConversationStep)
        ensures
            follows(self@, *asked, callable(registry@), r),
    {
        match asked {
            Asked::Unreached => ConversationStep::Done,
            Asked::Refused(e) => {
                let mut text = "抱歉，出错了: ".to_owned();
                text.append(e.as_str());
                self.say(text.as_str())
            },
            Asked::Answered(a) => {
                if a.tool_calls.len() > 0 {
                    return ConversationStep::Run(
                        runnable_calls(&a.tool_calls, registry, self.chat_id),
                    );
                }
                if !is_blank(a.content.as_str()) {
                    return self.say(a.content.as_str());
                }
                if a.cache_hit_tokens > 0 {
                    let q = ChatRequest {
                        chat_id: self.chat_id,
                        message: self.text.clone(),
                        json_mode: false,
                        tools: Vec::new(),
                        skip_store: true,
                        contexts: Vec::new(),
                    };
                    assert(q@.tools =~= Seq::empty());
                    assert(q@.contexts =~= Seq::empty());
                    return ConversationStep::Again(q);
                }
                ConversationStep::Done
            },
        }
    }

    /// Takes the answer to the second question.
    pub fn on_second_answer(&self, asked: &Asked) -> (r: ConversationStep)
        ensures
            follows_again(self@, *asked, r),
    {
        match asked {
            Asked::Answered(a) => {
                if is_blank(a.content.as_str()) {
                    ConversationStep::Done
                } else {
                    self.say(a.content.as_str())
                }
            },
            _ => ConversationStep::Done,
        }
    }
}

/// What a tool gave back, as the model is told of it; `result` is none where no tool has the name.
pub open spec fn told_result(name: Seq<char>, result: Option<ToolResult>) -> Seq<char> {
    match result {
        Some(r) => if r.success {
            r.content@
        } else {
            "错误: "@ + match opt_text(r.error) {
                Some(e) => e,
                None => "未知错误"@,
            }
        },
        None => "工具 '"@ + name + "' 未找到"@,
    }
}

/// What a tool gave back, as the model is told of it.
pub fn tell_result(name: &str, result: &Option<ToolResult>) -> (r: String)
    ensures
        r@ == told_result(name@, *result),
{
    match result {
        Some(t) => {
            if t.success {
                return t.content.clone();
            }
            let mut out = "错误: ".to_owned();
            match &t.error {
                Some(e) => out.append(e.as_str()),
                None => out.append("未知错误"),
            }
            out
        },
        None => {
            let mut out = "工具 '".to_owned();
            out.append(name);
            out.append("' 未找到");
            out
        },
    }
}

/// The lines on the results of calls, each with the id of its call.
pub open spec fn result_lines(results: Seq<(Seq<char>, Seq<char>)>) -> Seq<char>
    decreases results.len(),
{
    if results.len() == 0 {
        Seq::empty()
    } else {
        result_lines(results.drop_last()) + "["@ + results.last().0 + "] "@ + results.last().1
            + "\n"@
    }
}

/// The models of a list of ids and results.
pub open spec fn pair_views(results: Seq<(String, String)>) -> Seq<(Seq<char>, Seq<char>)> {
    results.map_values(|p: (String, String)| (p.0@, p.1@))
}

/// The calls with what the model is told of their results: for each call, in order, its id and the
/// result in the same place.
pub open spec fn told_pairs(calls: Seq<ToolCallView>, results: Seq<Option<ToolResult>>) -> Seq<
    (Seq<char>, Seq<char>),
> {
    Seq::new(calls.len(), |i: int| (calls[i].id, told_result(calls[i].name, results[i])))
}

/// What the model is asked once its calls have been run.
pub open spec fn followup_text(text: Seq<char>, results: Seq<(Seq<char>, Seq<char>)>) -> Seq<
    char,
> {
    "用户原始消息: "@ + text + "\n\n"@ + ("工具执行结果：\n"@ + result_lines(results))
}

/// What the model is asked once its calls have been run: the message and the results, without
/// tools, so that it calls no more.
pub fn followup_request(chat_id: Option<i64>, text: &str, results: &Vec<(String, String)>) -> (r:
    ChatRequest)
    ensures
        r@.chat_id == chat_of(chat_id),
        r@.message == followup_text(text@, pair_views(results@)),
        !r@.json_mode,
        r@.tools.len() == 0,
        !r@.skip_store,
        r@.contexts.len() == 0,
{
    let mut lines = "工具执行结果：\n".to_owned();
    let ghost lead = lines@;
    let ghost all = pair_views(results@);
    let mut i: usize = 0;
    assert(all.take(0) =~= Seq::empty());
    assert(lines@ =~= lead + result_lines(all.take(0)));
    while i < results.len()
        invariant
            i <= results@.len(),
            all == pair_views(results@),
            lines@ == lead + result_lines(all.take(i as int)),
        decreases results@.len() - i,
    {
        let ghost before = lines@;
        lines.append("[");
        lines.append(results[i].0.as_str());
        lines.append("] ");
        lines.append(results[i].1.as_str());
        lines.append("\n");
        proof {
            let t = all.take(i + 1);
            assert(t.drop_last() =~= all.take(i as int));
            assert(lines@ =~= lead + result_lines(t));
        }
        i = i + 1;
    }
    assert(all.take(all.len() as int) =~= all);
    let mut message = "用户原始消息: ".to_owned();
    message.append(text);
    message.append("\n\n");
    message.append(lines.as_str());
    let chat: i64 = match chat_id {
        Some(c) => c,
        None => 0,
    };
    ChatRequest {
        chat_id: chat,
        message,
        json_mode: false,
        tools: Vec::new(),
        skip_store: false,
        contexts: Vec::new(),
    }
}

/// What the model is asked once every one of its calls has been run: each call is told by its id with
/// its own result, none where no tool has its name, in the order of the calls.
pub fn followup_to_calls(
    chat_id: Option<i64>,
    text: &str,
    calls: &Vec<ToolCall>,
    results: &Vec<Option<ToolResult>>,
) -> (r: ChatRequest)
    requires
        results@.len() == calls@.len(),
    ensures
        r@.chat_id == chat_of(chat_id),
        r@.message == followup_text(text@, told_pairs(call_views(calls@), results@)),
        told_pairs(call_views(calls@), results@).len() == calls@.len(),
        !r@.json_mode,
        r@.tools.len() == 0,
        !r@.skip_store,
        r@.contexts.len() == 0,
{
    let mut pairs: Vec<(String, String)> = Vec::new();
    let mut i: usize = 0;
    while i < calls.len()
        invariant
            i <= calls@.len(),
            results@.len() == calls@.len(),
            pairs@.len() == i,
            forall|k: int|
                0 <= k < i ==> (#[trigger] pairs@[k]).0@ == calls@[k].id@ && pairs@[k].1@
                    == told_result(calls@[k].name@, results@[k]),
        decreases calls@.len() - i,
    {
        let told = tell_result(calls[i].name.as_str(), &results[i]);
        pairs.push((calls[i].id.clone(), told));
        i = i + 1;
    }
    assert(pair_views(pairs@) =~= told_pairs(call_views(calls@), results@));
    followup_request(chat_id, text, &pairs)
}

/// Whether `results` may come of running the calls: one for each call, in order, from the tool with
/// its name where the model may call one.
pub open spec fn may_come_of(
    calls: Seq<ToolCallView>,
    registry: Map<Seq<char>, Arc<dyn ToolExecutor>>,
    results: Seq<Option<ToolResult>>,
) -> bool {
    &&& results.len() == calls.len()
    &&& forall|i: int|
        #![trigger results[i]]
        0 <= i < calls.len() ==> {
            &&& results[i] is Some == callable(registry).contains(calls[i].name)
            &&& results[i] matches Some(r) ==> registry[calls[i].name].may_answer(
                calls[i].arguments,
                r@,
            )
        }
}

/// Runs the calls one after the other.
pub fn run_calls(calls: &Vec<ToolCall>, registry: &ToolRegistry) -> (r: Vec<Option<ToolResult>>)
    ensures
        may_come_of(call_views(calls@), registry@, r@),
{
    let ghost all = call_views(calls@);
    let mut out: Vec<Option<ToolResult>> = Vec::new();
    let mut i: usize = 0;
    while i < calls.len()
        invariant
            i <= calls@.len(),
            all == call_views(calls@),
            may_come_of(all.take(i as int), registry@, out@),
        decreases calls@.len() - i,
    {
        let result = match registry.get_callable(calls[i].name.as_str()) {
            Some(tool) => Some(tool.execute(&calls[i].arguments)),
            None => None,
        };
        let ghost before = out@;
        out.push(result);
        proof {
            let t = all.take(i + 1);
            assert(t[i as int] == calls@[i as int]@);
            assert forall|k: int|
                #![trigger out@[k]]
                0 <= k < t.len() implies ({
                &&& out@[k] is Some == callable(registry@).contains(t[k].name)
                &&& out@[k] matches Some(r) ==> registry@[t[k].name].may_answer(t[k].arguments, r@)
            }) by {
                if k < i {
                    assert(out@[k] == before[k]);
                    assert(t[k] == all.take(i as int)[k]);
                }
            }
        }
        i = i + 1;
    }
    assert(all.take(all.len() as int) =~= all);
    out
}

/// Runs every call of an answer, and gives what the model is asked then.
pub fn followup_after_calls(
    chat_id: Option<i64>,
    text: &str,
    calls: &Vec<ToolCall>,
    registry: &ToolRegistry,
) -> (r: ChatRequest)
    ensures
        r@.chat_id == chat_of(chat_id),
        exists|results: Seq<Option<ToolResult>>| #[trigger]
            may_come_of(call_views(calls@), registry@, results) && r@.message == followup_text(
                text@,
                told_pairs(call_views(calls@), results),
            ),
        !r@.json_mode,
        r@.tools.len() == 0,
        !r@.skip_store,
        r@.contexts.len() == 0,
{
    let results = run_calls(calls, registry);
    followup_to_calls(chat_id, text, calls, &results)
}

/// A call as a value.
pub open spec fn call_value(c: ToolCallView) -> JsonView {
    JsonView::object().with("id"@, JsonView::Str(c.id)).with("name"@, JsonView::Str(c.name)).with(
        "arguments"@,
        c.arguments,
    )
}

/// What a question from the web is answered.
pub open spec fn chat_answer(result: Result<LlmResponseView, Seq<char>>) -> HttpAnswerView {
    match result {
        Ok(a) => HttpAnswerView {
            status: 200,
            body: JsonView::object().with("content"@, JsonView::Str(a.content)).with(
                "tool_calls"@,
                JsonView::Arr(a.tool_calls.map_values(|c: ToolCallView| call_value(c))),
            ).with("cache_hit_tokens"@, JsonView::PosInt(a.cache_hit_tokens)),
        },
        Err(e) => HttpAnswerView::error(500, e),
    }
}

/// What a question from the web is answered.
pub fn answer_chat(result: &Result<LlmResponse, String>) -> (r: HttpAnswer)
    ensures
        r@ == chat_answer(answer_view(*result)),
{
    match result {
        Ok(a) => {
            let mut calls: Vec<Json> = Vec::new();
            let mut i: usize = 0;
            while i < a.tool_calls.len()
                invariant
                    i <= a.tool_calls@.len(),
                    calls@.len() == i,
                    forall|k: int|
                        0 <= k < i ==> (#[trigger] calls@[k])@ == call_value(a.tool_calls@[k]@),
                decreases a.tool_calls@.len() - i,
            {
                let c = Json::object().with("id", Json::str(a.tool_calls[i].id.as_str())).with(
                    "name",
                    Json::str(a.tool_calls[i].name.as_str()),
                ).with("arguments", a.tool_calls[i].arguments.clone());
                calls.push(c);
                i = i + 1;
            }
            assert(json_views(calls@) =~= call_views(a.tool_calls@).map_values(
                |c: ToolCallView| call_value(c),
            ));
            HttpAnswer {
                status: 200,
                body: Json::object().with("content", Json::str(a.content.as_str())).with(
                    "tool_calls",
                    Json::array(calls),
                ).with("cache_hit_tokens", Json::PosInt(a.cache_hit_tokens)),
            }
        },
        Err(e) => HttpAnswer::error(500, e.as_str()),
    }
}

/// The port that the small host listens on.
pub fn api_port(value: Option<&str>) -> (r: u16)
    ensures
        r == setting(opt_str(value), u16::MAX as nat, 3000),
{
    setting_u16(value, 3000)
}

/// A message leads to one reply at most, and to no second try after a second try.
pub proof fn one_reply_at_most(
    c: ConversationView,
    first: Asked,
    second: Asked,
    names: Set<Seq<char>>,
    step: ConversationStep,
    last: ConversationStep,
)
    requires
        follows(c, first, names, step),
        follows_again(c, second, last),
    ensures
        step is Again ==> last is Reply || last is Done,
        step is Again ==> (first matches Asked::Answered(a) && a@.cache_hit_tokens > 0 && blank(
            a@.content,
        ) && a@.tool_calls.len() == 0),
        !(last is Again) && !(last is Run),
{
}

/// No blank reply is published, unless the model refused.
pub proof fn replies_are_not_blank(
    c: ConversationView,
    asked: Asked,
    names: Set<Seq<char>>,
    step: ConversationStep,
)
    requires
        follows(c, asked, names, step),
        step is Reply,
    ensures
        asked is Refused || (asked matches Asked::Answered(a) && !blank(a@.content)),
{
}

proof fn lemma_runnable(calls: Seq<ToolCallView>, names: Set<Seq<char>>, chat_id: i64)
    ensures
        forall|i: int|
            0 <= i < runnable(calls, names, chat_id).len() ==> names.contains(
                (#[trigger] runnable(calls, names, chat_id)[i]).name,
            ),
    decreases calls.len(),
{
    if calls.len() > 0 {
        lemma_runnable(calls.drop_last(), names, chat_id);
        let before = runnable(calls.drop_last(), names, chat_id);
        let now = runnable(calls, names, chat_id);
        assert forall|i: int| 0 <= i < now.len() implies names.contains(
            (#[trigger] now[i]).name,
        ) by {
            if i < before.len() {
                assert(now[i] == before[i]);
            }
        }
    }
}

/// No call of a tool that is internal or not there is run.
pub proof fn internal_tools_are_not_run(
    calls: Seq<ToolCallView>,
    registry: Map<Seq<char>, Arc<dyn ToolExecutor>>,
    chat_id: i64,
    i: int,
)
    requires
        0 <= i < runnable(calls, callable(registry), chat_id).len(),
    ensures
        ({
            let name = runnable(calls, callable(registry), chat_id)[i].name;
            registry.dom().contains(name) && !registry[name].definition().internal
        }),
{
    lemma_runnable(calls, callable(registry), chat_id);
    let name = runnable(calls, callable(registry), chat_id)[i].name;
    assert(callable(registry).contains(name));
}

/// A call names the chat that it belongs to, unless it names one itself.
pub proof fn calls_name_their_chat(args: Seq<(Seq<char>, JsonView)>, chat_id: i64)
    ensures
        ({
            let object = JsonView::Obj(args);
            let value = with_chat(object, chat_id).get("chat_id"@);
            if object.get("chat_id"@) is Some {
                value == object.get("chat_id"@)
            } else {
                value == Some(JsonView::integer(chat_id as int))
            }
        }),
{
    let object = JsonView::Obj(args);
    if object.get("chat_id"@) is None {
        crate::json::get_after_with(
            object,
            "chat_id"@,
            JsonView::integer(chat_id as int),
            "chat_id"@,
        );
    }
}

} // verus!
