//! Asking the model: the messages it is sent, where they are sent, the second try when it cannot
//! deal with a picture or a film, and what is stored of the exchange.
//!
//! A [`ChatRun`] is one request on its way. [`ChatRun::start`] gives the first call;
//! [`ChatRun::on_result`] takes each result and gives the next call or the end.

use crate::chat::{
    clone_json, ChatMessage, ChatMessageView, ChatRequest, ChatRequestView, LlmResponse,
    LlmResponseView, message_views,
};
use crate::effect::{add_effect, effect_views, Effect, EffectView};
use crate::event::{Event, EventView};
use crate::chat_store::{last_n, message_parts_given, record_views, Record, RecordView};
use crate::json::{
    get_after_with, is_flat, json_read, json_views, json_written, Json, JsonView,
};
use crate::llm_config::{LlmConfig, LlmConfigView};
use crate::llm_reply::{falls_back, result_view, should_fallback_to_tools};
use crate::llm_text::{build_tool_hint, tool_hint};
use crate::numbers::{opt_str, setting, setting_usize};
use crate::pipeline::{
    calls_json, calls_message, result_at, result_json, result_message, store_effect,
};
use crate::text::{
    is_blank, same, starts_with, trim, trim_end_char, views, without_trailing,
};
use crate::tool::{call_views, ToolCall, ToolCallView};
use vstd::prelude::*;

verus! {

broadcast use vstd::string::group_string_axioms;

/// `rand`'s `gen_range` over `0..n` on the thread's generator. Which number comes is left to
/// chance; it is less than `n`. The call panics on an empty range.
#[verifier::external_body]
fn random_below(n: usize) -> (r: usize)
    requires
        n > 0,
    ensures
        r < n,
{
    rand::Rng::gen_range(&mut rand::thread_rng(), 0..n)
}

/// A message with a role and a text.
pub open spec fn plain_message(role: Seq<char>, content: Seq<char>) -> JsonView {
    JsonView::object().with("role"@, JsonView::Str(role)).with("content"@, JsonView::Str(content))
}

/// A message with a role and a text.
pub fn plain_json(role: &str, content: &str) -> (r: Json)
    ensures
        r@ == plain_message(role@, content@),
{
    Json::object().with("role", Json::str(role)).with("content", Json::str(content))
}

/// The text that a message with a role and a text is stored as. It is found under that role and that
/// text when it is read back.
pub fn plain_text(role: &str, content: &str) -> (r: String)
    ensures
        r@ == json_written(plain_message(role@, content@)),
        message_parts_given(r@, json_read(r@)) == (role@, content@),
{
    let m = plain_json(role, content);
    proof {
        reveal_strlit("role");
        reveal_strlit("content");
        assert("role"@.len() == 4 && "content"@.len() == 7);
        let first = JsonView::object().with("role"@, JsonView::Str(role@));
        assert(first.get("content"@) is None) by {
            get_after_with(JsonView::object(), "role"@, JsonView::Str(role@), "content"@);
        }
        get_after_with(JsonView::object(), "role"@, JsonView::Str(role@), "role"@);
        get_after_with(first, "content"@, JsonView::Str(content@), "role"@);
        assert(is_flat(m@));
        assert(m@.get("role"@) == Some(JsonView::Str(role@)));
        assert(m@.get("content"@) == Some(JsonView::Str(content@)));
    }
    let text = m.text();
    proof {
        let back = json_read(text@)->0;
        assert(back.get("role"@) == m@.get("role"@));
        assert(back.get("content"@) == m@.get("content"@));
    }
    text
}

/// The stored message of a record, where it can be read.
pub open spec fn record_json(r: RecordView) -> Option<JsonView> {
    match r.message_json {
        Some(t) => json_read(t),
        None => None,
    }
}

/// Whether a record is the result of a tool call.
pub open spec fn is_tool_result(r: RecordView) -> bool {
    r.role == "tool"@ || (record_json(r) matches Some(v) && v.str_at("role"@) == Some("tool"@))
}

/// Whether a record asks for tool calls.
pub open spec fn asks_for_calls(r: RecordView) -> bool {
    record_json(r) matches Some(v) && v.get("tool_calls"@) is Some
}

/// Whether one of the records that are sent asks for tool calls.
pub open spec fn calls_seen(records: Seq<RecordView>) -> bool
    decreases records.len(),
{
    if records.len() == 0 {
        false
    } else {
        let before = calls_seen(records.drop_last());
        if is_tool_result(records.last()) && !before {
            false
        } else {
            before || asks_for_calls(records.last())
        }
    }
}

/// The message that a record is sent as.
pub open spec fn record_message(r: RecordView) -> JsonView {
    match record_json(r) {
        Some(v) => v,
        None => plain_message(r.role, r.content),
    }
}

/// The messages that the records are sent as, in order, without the results whose calls are not
/// among them.
pub open spec fn history_messages(records: Seq<RecordView>) -> Seq<JsonView>
    decreases records.len(),
{
    if records.len() == 0 {
        Seq::empty()
    } else {
        let before = history_messages(records.drop_last());
        if is_tool_result(records.last()) && !calls_seen(records.drop_last()) {
            before
        } else {
            before.push(record_message(records.last()))
        }
    }
}

/// The part of the history that is told: two records for each of the last `turns` rounds.
pub open spec fn recent_turns(records: Seq<RecordView>, turns: nat) -> Seq<RecordView> {
    last_n(records, 2 * turns)
}

/// The contexts that are (or are not) memories, as messages, in order.
pub open spec fn context_messages(contexts: Seq<Seq<char>>, memories: bool) -> Seq<JsonView>
    decreases contexts.len(),
{
    if contexts.len() == 0 {
        Seq::empty()
    } else {
        let before = context_messages(contexts.drop_last(), memories);
        if "[记忆]"@.is_prefix_of(contexts.last()) == memories {
            before.push(plain_message("assistant"@, contexts.last()))
        } else {
            before
        }
    }
}

/// The messages that hand over tool calls and their results.
pub open spec fn call_messages(
    calls: Seq<ToolCallView>,
    results: Seq<Seq<char>>,
) -> Seq<JsonView> {
    if calls.len() == 0 {
        Seq::empty()
    } else {
        seq![calls_message(calls)] + Seq::new(
            calls.len(),
            |i: int| result_message(calls[i], result_at(results, i)),
        )
    }
}

/// What the user has said: with a picture, with a film, with a file, or the text alone.
pub open spec fn user_content(r: ChatRequestView) -> JsonView {
    let text_part = JsonView::object().with("type"@, JsonView::Str("text"@)).with(
        "text"@,
        JsonView::Str(r.message),
    );
    match (r.image_base64, r.video_base64, r.video_mime, r.file_base64, r.file_name) {
        (Some(image), _, _, _, _) => JsonView::Arr(
            seq![
                text_part,
                JsonView::object().with("type"@, JsonView::Str("image_url"@)).with(
                    "image_url"@,
                    JsonView::object().with(
                        "url"@,
                        JsonView::Str("data:image/jpeg;base64,"@ + image),
                    ),
                ),
            ],
        ),
        (None, Some(video), Some(mime), _, _) => JsonView::Arr(
            seq![
                JsonView::object().with("type"@, JsonView::Str("video_url"@)).with(
                    "video_url"@,
                    JsonView::object().with(
                        "url"@,
                        JsonView::Str("data:"@ + mime + ";base64,"@ + video),
                    ),
                ).with("fps"@, JsonView::PosInt(2)).with(
                    "media_resolution"@,
                    JsonView::Str("default"@),
                ),
                text_part,
            ],
        ),
        (None, _, _, Some(_), Some(name)) => JsonView::Str(
            if r.message.len() == 0 {
                "用户发送了一个文件："@ + name
            } else {
                r.message + "\n\n[用户发送了文件："@ + name + "]"@
            },
        ),
        _ => JsonView::Str(r.message),
    }
}

/// What the user has said, as a message, where there is something or no tool results are handed
/// over.
pub open spec fn user_messages(r: ChatRequestView) -> Seq<JsonView> {
    if r.message.len() > 0 || r.assistant_tool_calls.len() == 0 {
        seq![
            JsonView::object().with("role"@, JsonView::Str("user"@)).with(
                "content"@,
                user_content(r),
            ),
        ]
    } else {
        Seq::empty()
    }
}

/// All messages of a request: the instructions, the memories, the history, the other contexts, the
/// tool calls of this exchange, and what the user has said.
pub open spec fn all_messages(
    system: Seq<char>,
    r: ChatRequestView,
    records: Seq<RecordView>,
) -> Seq<JsonView> {
    seq![plain_message("system"@, system)] + context_messages(r.contexts, true)
        + history_messages(records) + context_messages(r.contexts, false) + call_messages(
        r.assistant_tool_calls,
        r.tool_results,
    ) + user_messages(r)
}

/// Whether an extra prompt is added of the program's own accord: to requests with a picture, a
/// film, a file or tools.
pub open spec fn wants_extra_prompt(r: ChatRequestView) -> bool {
    r.image_base64 is Some || r.video_base64 is Some || r.file_base64 is Some || r.tools.len() > 0
}

/// The extra prompt of a request: the one it names, else the one drawn by chance where one is
/// wanted.
pub open spec fn extra_prompt(
    prompts: Seq<Seq<char>>,
    r: ChatRequestView,
    drawn: nat,
) -> Option<Seq<char>> {
    let index = match r.jailbreak_index {
        Some(i) => Some(i as nat),
        None => if wants_extra_prompt(r) && prompts.len() > 0 {
            Some(drawn)
        } else {
            None
        },
    };
    match index {
        Some(i) => if i < prompts.len() {
            Some(prompts[i as int])
        } else {
            None
        },
        None => None,
    }
}

/// The instructions of a request: the prompt, the extra prompt, and the hint on its tools.
pub open spec fn system_content(c: LlmConfigView, r: ChatRequestView, drawn: nat) -> Seq<char> {
    let base = match extra_prompt(c.jailbreak_prompts, r, drawn) {
        Some(p) => c.system_prompt + "\n\n"@ + p,
        None => c.system_prompt,
    };
    if r.tools.len() > 0 {
        base + "\n\n"@ + tool_hint(r.tools)
    } else {
        base
    }
}

/// Where a request is sent.
pub ghost struct RouteView {
    pub model: Seq<char>,
    pub api_url: Seq<char>,
    pub api_key: Seq<char>,
}

/// The address that chats are sent to.
pub open spec fn chat_url(base_url: Seq<char>) -> Seq<char> {
    trim_end_char(base_url, '/') + "/chat/completions"@
}

/// Where text is sent.
pub open spec fn text_route(c: LlmConfigView) -> RouteView {
    RouteView { model: c.model, api_url: chat_url(c.base_url), api_key: c.api_key }
}

/// Where a request is sent: a film before a picture before text.
pub open spec fn route(c: LlmConfigView, r: ChatRequestView) -> RouteView {
    if r.video_base64 is Some {
        RouteView {
            model: c.video_model,
            api_url: chat_url(c.video_base_url),
            api_key: c.video_api_key,
        }
    } else if r.image_base64 is Some {
        RouteView {
            model: c.image_model,
            api_url: chat_url(c.image_base_url),
            api_key: c.image_api_key,
        }
    } else {
        text_route(c)
    }
}

/// How many tokens an answer may have.
pub open spec fn token_limit(c: LlmConfigView, r: ChatRequestView) -> u32 {
    match r.max_tokens {
        Some(n) => n,
        None => c.max_tokens,
    }
}

/// The body of a call.
pub open spec fn call_body(
    model: Seq<char>,
    messages: Seq<JsonView>,
    temperature: JsonView,
    max_tokens: u32,
    tools: Seq<JsonView>,
    thinking: bool,
) -> JsonView {
    let base = JsonView::object().with("model"@, JsonView::Str(model)).with(
        "messages"@,
        JsonView::Arr(messages),
    ).with("temperature"@, temperature).with("max_tokens"@, JsonView::PosInt(max_tokens as u64));
    let with_tools = if tools.len() > 0 {
        base.with("tools"@, JsonView::Arr(tools)).with("tool_choice"@, JsonView::Str("auto"@))
    } else {
        base
    };
    with_tools.with(
        "thinking"@,
        JsonView::object().with(
            "type"@,
            JsonView::Str(
                if thinking {
                    "enabled"@
                } else {
                    "disabled"@
                },
            ),
        ),
    )
}

/// A call of the model.
#[derive(Debug, PartialEq)]
pub struct LlmCall {
    pub api_url: String,
    pub api_key: String,
    pub body: Json,
    /// Whether the answer is to be streamed.
    pub stream: bool,
}

/// The model of an [`LlmCall`].
pub ghost struct LlmCallView {
    pub api_url: Seq<char>,
    pub api_key: Seq<char>,
    pub body: JsonView,
    pub stream: bool,
}

impl View for LlmCall {
    type V = LlmCallView;

    open spec fn view(&self) -> LlmCallView {
        LlmCallView {
            api_url: self.api_url@,
            api_key: self.api_key@,
            body: self.body@,
            stream: self.stream,
        }
    }
}

/// How often a request has been tried.
#[derive(Debug, Clone, Copy, PartialEq, Eq, Structural)]
pub enum Attempt {
    /// As it came.
    First,
    /// Again as text, with a word on the picture.
    WithoutImage,
    /// Again as text, with a word on the film.
    WithoutVideo,
    /// It is complete.
    Done,
}

/// One request on its way.
pub struct ChatRun {
    config: LlmConfig,
    request: ChatRequest,
    messages: Vec<Json>,
    attempt: Attempt,
}

/// The model of a [`ChatRun`].
pub ghost struct ChatRunView {
    pub config: LlmConfigView,
    pub request: ChatRequestView,
    /// What the model was sent at first.
    pub messages: Seq<JsonView>,
    pub attempt: Attempt,
}

impl View for ChatRun {
    type V = ChatRunView;

    closed spec fn view(&self) -> ChatRunView {
        ChatRunView {
            config: self.config@,
            request: self.request@,
            messages: json_views(self.messages@),
            attempt: self.attempt,
        }
    }
}

/// The body as it is sent: a streamed answer is asked for in it.
pub open spec fn sent_body(body: JsonView, stream: bool) -> JsonView {
    if stream {
        body.with("stream"@, JsonView::Bool(true))
    } else {
        body
    }
}

/// The call that sends `messages` by `route`.
pub open spec fn call_of(
    s: ChatRunView,
    to: RouteView,
    messages: Seq<JsonView>,
    temperature: JsonView,
) -> LlmCallView {
    LlmCallView {
        api_url: to.api_url,
        api_key: to.api_key,
        body: sent_body(
            call_body(
                to.model,
                messages,
                temperature,
                token_limit(s.config, s.request),
                s.request.tools,
                s.config.thinking,
            ),
            s.request.stream,
        ),
        stream: s.request.stream,
    }
}

/// What the model is told in place of a picture.
pub open spec fn image_hint(message: Seq<char>) -> Seq<char> {
    if message.len() == 0 {
        "用户发送了一张图片。你无法直接查看图片，请使用 image_understand 或 image_describe 工具来分析它（image_base64 参数可省略，工具会自动使用最近收到的图片）。"@
    } else {
        "用户消息："@ + message
            + "\n\n用户还发送了一张图片。请使用 image_understand 或 image_describe 工具来分析它（image_base64 参数可省略，工具会自动使用最近收到的图片）。"@
    }
}

/// What the model is told in place of a film.
pub open spec fn video_hint(message: Seq<char>) -> Seq<char> {
    if message.len() == 0 {
        "用户发送了一段视频。你无法直接查看视频，请使用 video_analyze 工具来分析它（参数可省略，工具会自动使用最近收到的视频）。"@
    } else {
        "用户消息："@ + message
            + "\n\n用户还发送了一段视频。请使用 video_analyze 工具来分析它（参数可省略，工具会自动使用最近收到的视频）。"@
    }
}

/// The messages with the content of the last one replaced.
pub open spec fn with_last_content(messages: Seq<JsonView>, text: Seq<char>) -> Seq<JsonView> {
    if messages.len() == 0 {
        messages
    } else {
        messages.update(
            messages.len() - 1,
            messages.last().set("content"@, JsonView::Str(text)),
        )
    }
}

/// What is stored of a request that was answered: the user's words and, where no tools were asked
/// for, the answer.
pub open spec fn stored(r: ChatRequestView, result: Result<LlmResponseView, Seq<char>>) -> Seq<
    EffectView,
> {
    match result {
        Ok(a) if !r.skip_store => {
            let user = match r.original_user_msg {
                Some(t) => t,
                None => r.message,
            };
            let first = if user.len() > 0 {
                seq![store_effect(r.peer_id, plain_message("user"@, user))]
            } else {
                Seq::empty()
            };
            let second = if a.tool_calls.len() == 0 && trim(a.content).len() > 0 {
                seq![store_effect(r.peer_id, plain_message("assistant"@, a.content))]
            } else {
                Seq::empty()
            };
            first + second
        },
        _ => Seq::empty(),
    }
}

/// What comes after a result.
pub ghost enum RunStepView {
    /// The model is called again.
    Call(LlmCallView),
    /// The result stands; the effects store it.
    Finish(Seq<EffectView>),
}

/// After a result: a second try as text where the model could not deal with the picture, or the
/// film; else the end.
pub open spec fn after_result(
    s: ChatRunView,
    result: Result<LlmResponseView, Seq<char>>,
    temperature: JsonView,
) -> (ChatRunView, RunStepView) {
    let failed = falls_back(result);
    if s.attempt == Attempt::First && s.request.image_base64 is Some && failed {
        (
            ChatRunView { attempt: Attempt::WithoutImage, ..s },
            RunStepView::Call(
                call_of(
                    s,
                    text_route(s.config),
                    with_last_content(s.messages, image_hint(s.request.message)),
                    temperature,
                ),
            ),
        )
    } else if (s.attempt == Attempt::First || s.attempt == Attempt::WithoutImage)
        && s.request.video_base64 is Some && s.request.video_mime is Some && failed {
        (
            ChatRunView { attempt: Attempt::WithoutVideo, ..s },
            RunStepView::Call(
                call_of(
                    s,
                    text_route(s.config),
                    with_last_content(s.messages, video_hint(s.request.message)),
                    temperature,
                ),
            ),
        )
    } else {
        (
            ChatRunView { attempt: Attempt::Done, ..s },
            RunStepView::Finish(stored(s.request, result)),
        )
    }
}

/// The event that announces a request.
pub open spec fn request_event(c: LlmConfigView, r: ChatRequestView) -> EventView {
    EventView::fresh(
        "llm.request"@,
        JsonView::object().with("model"@, JsonView::Str(c.model)).with(
            "mode"@,
            JsonView::Str("chat"@),
        ).with("tool_count"@, JsonView::PosInt(r.tools.len() as usize as u64)).with(
            "context_count"@,
            JsonView::PosInt(r.contexts.len() as usize as u64),
        ).with("stream"@, JsonView::Bool(r.stream)),
        "llm-actor"@,
    )
}

fn push_json(list: &mut Vec<Json>, item: Json)
    ensures
        json_views(final(list)@) == json_views(old(list)@).push(item@),
{
    let ghost before = list@;
    list.push(item);
    assert(json_views(before.push(item)) =~= json_views(before).push(item@));
}

fn push_contexts(list: &mut Vec<Json>, contexts: &Vec<String>, memories: bool)
    ensures
        json_views(final(list)@) == json_views(old(list)@) + context_messages(
            views(contexts@),
            memories,
        ),
{
    let ghost all = views(contexts@);
    let ghost start = json_views(list@);
    let mut i: usize = 0;
    assert(all.take(0) =~= Seq::empty());
    assert(start + Seq::empty() =~= start);
    while i < contexts.len()
        invariant
            i <= contexts@.len(),
            all == views(contexts@),
            json_views(list@) == start + context_messages(all.take(i as int), memories),
        decreases contexts@.len() - i,
    {
        let ghost done = context_messages(all.take(i as int), memories);
        proof {
            let t = all.take(i + 1);
            assert(t.drop_last() =~= all.take(i as int));
            assert(t.last() == contexts@[i as int]@);
        }
        if starts_with(contexts[i].as_str(), "[记忆]") == memories {
            let m = plain_json("assistant", contexts[i].as_str());
            push_json(list, m);
            assert((start + done).push(m@) =~= start + done.push(m@));
        }
        i = i + 1;
    }
    assert(all.take(all.len() as int) =~= all);
}

fn record_value(r: &Record) -> (v: Option<Json>)
    ensures
        match v {
            Some(j) => record_json(r@) == Some(j@),
            None => record_json(r@) is None,
        },
{
    match &r.message_json {
        Some(t) => Json::parse(t.as_str()),
        None => None,
    }
}

fn push_history(list: &mut Vec<Json>, records: &Vec<Record>, turns: usize)
    ensures
        json_views(final(list)@) == json_views(old(list)@) + history_messages(
            recent_turns(record_views(records@), turns as nat),
        ),
{
    let ghost all = recent_turns(record_views(records@), turns as nat);
    let ghost start = json_views(list@);
    let first: usize = if turns > records.len() / 2 {
        0
    } else {
        records.len() - turns * 2
    };
    assert(all =~= record_views(records@).skip(first as int));
    let mut seen = false;
    let mut i: usize = first;
    assert(all.take(0) =~= Seq::empty());
    assert(start + Seq::empty() =~= start);
    while i < records.len()
        invariant
            first <= i <= records@.len(),
            all == record_views(records@).skip(first as int),
            seen == calls_seen(all.take(i - first)),
            json_views(list@) == start + history_messages(all.take(i - first)),
        decreases records@.len() - i,
    {
        let ghost done = history_messages(all.take(i - first));
        proof {
            let t = all.take(i - first + 1);
            assert(t.drop_last() =~= all.take(i - first));
            assert(t.last() == records@[i as int]@);
        }
        let value = record_value(&records[i]);
        let (json_is_tool, has_calls) = match &value {
            Some(v) => (
                match v.str_at("role") {
                    Some(role) => same(role, "tool"),
                    None => false,
                },
                v.get("tool_calls").is_some(),
            ),
            None => (false, false),
        };
        let is_tool = same(records[i].role.as_str(), "tool") || json_is_tool;
        if !is_tool || seen {
            if has_calls {
                seen = true;
            }
            let m = match value {
                Some(v) => v,
                None => plain_json(records[i].role.as_str(), records[i].content.as_str()),
            };
            push_json(list, m);
            assert((start + done).push(m@) =~= start + done.push(m@));
        }
        i = i + 1;
    }
    assert(all.take(all.len() as int) =~= all);
}

fn push_calls(list: &mut Vec<Json>, calls: &Vec<ToolCall>, results: &Vec<String>)
    ensures
        json_views(final(list)@) == json_views(old(list)@) + call_messages(
            call_views(calls@),
            views(results@),
        ),
{
    let ghost start = json_views(list@);
    let ghost c = call_views(calls@);
    let ghost r = views(results@);
    if calls.len() == 0 {
        assert(start + Seq::empty() =~= start);
        return;
    }
    let ghost body = Seq::new(c.len(), |i: int| result_message(c[i], result_at(r, i)));
    let ghost head = seq![calls_message(c)];
    push_json(list, calls_json(calls));
    let mut i: usize = 0;
    assert(json_views(list@) =~= start + head + body.take(0));
    while i < calls.len()
        invariant
            i <= calls@.len(),
            c == call_views(calls@),
            r == views(results@),
            body == Seq::new(c.len(), |i: int| result_message(c[i], result_at(r, i))),
            json_views(list@) == start + head + body.take(i as int),
        decreases calls@.len() - i,
    {
        let m = result_json(calls, results, i);
        push_json(list, m);
        assert(body[i as int] == m@);
        assert((start + head + body.take(i as int)).push(m@) =~= start + head + body.take(i + 1));
        i = i + 1;
    }
    assert(body.take(body.len() as int) =~= body);
    assert(start + head + body =~= start + (head + body));
}

fn two(a: Json, b: Json) -> (r: Json)
    ensures
        r@ == JsonView::Arr(seq![a@, b@]),
{
    let mut items: Vec<Json> = Vec::new();
    items.push(a);
    items.push(b);
    assert(json_views(items@) =~= seq![a@, b@]);
    Json::array(items)
}

fn content_of(r: &ChatRequest) -> (j: Json)
    ensures
        j@ == user_content(r@),
{
    if let Some(image) = &r.image_base64 {
        let text_part = Json::object().with("type", Json::str("text")).with(
            "text",
            Json::str(r.message.as_str()),
        );
        let mut url = "data:image/jpeg;base64,".to_owned();
        url.append(image.as_str());
        return two(
            text_part,
            Json::object().with("type", Json::str("image_url")).with(
                "image_url",
                Json::object().with("url", Json::Str(url)),
            ),
        );
    }
    if let Some(video) = &r.video_base64 {
        if let Some(mime) = &r.video_mime {
            let text_part = Json::object().with("type", Json::str("text")).with(
                "text",
                Json::str(r.message.as_str()),
            );
            let mut url = "data:".to_owned();
            url.append(mime.as_str());
            url.append(";base64,");
            url.append(video.as_str());
            return two(
                Json::object().with("type", Json::str("video_url")).with(
                    "video_url",
                    Json::object().with("url", Json::Str(url)),
                ).with("fps", Json::PosInt(2)).with("media_resolution", Json::str("default")),
                text_part,
            );
        }
    }
    if r.file_base64.is_some() {
        if let Some(name) = &r.file_name {
            if r.message.as_str().is_empty() {
                let mut text = "用户发送了一个文件：".to_owned();
                text.append(name.as_str());
                return Json::Str(text);
            }
            let mut text = r.message.clone();
            text.append("\n\n[用户发送了文件：");
            text.append(name.as_str());
            text.append("]");
            return Json::Str(text);
        }
    }
    Json::str(r.message.as_str())
}

/// All messages of a request, with so many rounds of the history.
pub fn build_messages(
    system: &str,
    r: &ChatRequest,
    records: &Vec<Record>,
    turns: usize,
) -> (m: Vec<Json>)
    ensures
        json_views(m@) == all_messages(
            system@,
            r@,
            recent_turns(record_views(records@), turns as nat),
        ),
{
    let mut list: Vec<Json> = Vec::new();
    assert(json_views(list@) =~= Seq::empty());
    push_json(&mut list, plain_json("system", system));
    assert(json_views(list@) =~= seq![plain_message("system"@, system@)]);
    push_contexts(&mut list, &r.contexts, true);
    push_history(&mut list, records, turns);
    push_contexts(&mut list, &r.contexts, false);
    push_calls(&mut list, &r.assistant_tool_calls, &r.tool_results);
    let ghost before = json_views(list@);
    if !r.message.as_str().is_empty() || r.assistant_tool_calls.len() == 0 {
        let m = Json::object().with("role", Json::str("user")).with("content", content_of(r));
        push_json(&mut list, m);
        assert(before.push(m@) =~= before + seq![m@]);
    } else {
        assert(before + Seq::empty() =~= before);
    }
    list
}

/// The instructions of a request, the extra prompt being the one at `drawn` where it is left to
/// chance.
pub fn system_with(c: &LlmConfig, r: &ChatRequest, drawn: usize) -> (s: String)
    ensures
        s@ == system_content(c@, r@, drawn as nat),
{
    let index = match r.jailbreak_index {
        Some(i) => Some(i),
        None => {
            let wanted = r.image_base64.is_some() || r.video_base64.is_some()
                || r.file_base64.is_some() || r.tools.len() > 0;
            if wanted && c.jailbreak_count() > 0 {
                Some(drawn)
            } else {
                None
            }
        },
    };
    let extra = match index {
        Some(i) => c.jailbreak_at(i),
        None => None,
    };
    let mut out = c.system_prompt.clone();
    match extra {
        Some(p) => {
            out.append("\n\n");
            out.append(p);
        },
        None => {},
    }
    if r.tools.len() > 0 {
        out.append("\n\n");
        out.append(build_tool_hint(&r.tools).as_str());
    }
    out
}

/// How many messages of the history the model is told, at most.
pub fn immediate_context_msgs(value: Option<&str>) -> (r: usize)
    ensures
        r == setting(opt_str(value), usize::MAX as nat, 200),
{
    setting_usize(value, 200)
}

/// The address that chats are sent to.
pub fn completions_url(base_url: &str) -> (r: String)
    ensures
        r@ == chat_url(base_url@),
{
    let mut out = without_trailing(base_url, '/');
    out.append("/chat/completions");
    out
}

/// The event that announces a request.
pub fn announce(c: &LlmConfig, r: &ChatRequest) -> (e: Event)
    ensures
        e@ == request_event(c@, r@),
{
    let tools: usize = r.tools.len();
    let contexts: usize = r.contexts.len();
    Event::new(
        "llm.request",
        Json::object().with("model", Json::str(c.model.as_str())).with(
            "mode",
            Json::str("chat"),
        ).with("tool_count", Json::PosInt(tools as u64)).with(
            "context_count",
            Json::PosInt(contexts as u64),
        ).with("stream", Json::Bool(r.stream)),
        "llm-actor",
    )
}

/// What comes after a result.
pub enum RunStep {
    /// The model is called again.
    Call(LlmCall),
    /// The result stands; the effects store it.
    Finish { result: Result<LlmResponse, String>, effects: Vec<Effect> },
}

impl View for RunStep {
    type V = RunStepView;

    open spec fn view(&self) -> RunStepView {
        match self {
            RunStep::Call(c) => RunStepView::Call(c@),
            RunStep::Finish { effects, .. } => RunStepView::Finish(effect_views(effects@)),
        }
    }
}

/// A request that has been announced and not yet sent: of the history it has as many rounds as are
/// configured.
pub open spec fn run_begun(
    c: LlmConfigView,
    r: ChatRequestView,
    records: Seq<RecordView>,
    drawn: nat,
) -> ChatRunView {
    ChatRunView {
        config: c,
        request: r,
        messages: all_messages(
            system_content(c, r, drawn),
            r,
            recent_turns(records, c.max_history_turns as nat),
        ),
        attempt: Attempt::First,
    }
}

impl ChatRun {
    /// Begins a request: the run and its first call. Where an extra prompt is left to chance, one
    /// is drawn.
    pub fn start(
        config: LlmConfig,
        request: ChatRequest,
        records: &Vec<Record>,
        temperature: Json,
    ) -> (r: (Self, LlmCall))
        ensures
            exists|drawn: nat|
                (config@.jailbreak_prompts.len() > 0 ==> drawn < config@.jailbreak_prompts.len())
                    && r.0@ == #[trigger] run_begun(
                    config@,
                    request@,
                    record_views(records@),
                    drawn,
                ),
            r.1@ == call_of(
                r.0@,
                route(config@, request@),
                r.0@.messages,
                temperature@,
            ),
    {
        let count = config.jailbreak_count();
        let drawn = if count > 0 {
            random_below(count)
        } else {
            0
        };
        let run = ChatRun::start_with(config, request, records, temperature, drawn);
        assert(run.0@ == run_begun(config@, request@, record_views(records@), drawn as nat));
        run
    }

    /// Begins a request: the run and its first call, the extra prompt being the one at `drawn`
    /// where it is left to chance.
    pub fn start_with(
        config: LlmConfig,
        request: ChatRequest,
        records: &Vec<Record>,
        temperature: Json,
        drawn: usize,
    ) -> (r: (Self, LlmCall))
        ensures
            r.0@ == run_begun(config@, request@, record_views(records@), drawn as nat),
            r.1@ == call_of(
                r.0@,
                route(config@, request@),
                r.0@.messages,
                temperature@,
            ),
    {
        let system = system_with(&config, &request, drawn);
        let messages = build_messages(
            system.as_str(),
            &request,
            records,
            config.max_history_turns,
        );
        let run = ChatRun { config, request, messages, attempt: Attempt::First };
        let call = if run.request.video_base64.is_some() {
            run.call(
                &run.config.video_model,
                &run.config.video_base_url,
                &run.config.video_api_key,
                clone_json(&run.messages),
                temperature,
            )
        } else if run.request.image_base64.is_some() {
            run.call(
                &run.config.image_model,
                &run.config.image_base_url,
                &run.config.image_api_key,
                clone_json(&run.messages),
                temperature,
            )
        } else {
            run.call(
                &run.config.model,
                &run.config.base_url,
                &run.config.api_key,
                clone_json(&run.messages),
                temperature,
            )
        };
        (run, call)
    }

    fn call(
        &self,
        model: &String,
        base_url: &String,
        api_key: &String,
        messages: Vec<Json>,
        temperature: Json,
    ) -> (r: LlmCall)
        ensures
            r@ == call_of(
                self@,
                (RouteView { model: model@, api_url: chat_url(base_url@), api_key: api_key@ }),
                json_views(messages@),
                temperature@,
            ),
    {
        let max_tokens = match self.request.max_tokens {
            Some(n) => n,
            None => self.config.max_tokens,
        };
        let mut body = Json::object().with("model", Json::str(model.as_str())).with(
            "messages",
            Json::array(messages),
        ).with("temperature", temperature).with("max_tokens", Json::PosInt(max_tokens as u64));
        if self.request.tools.len() > 0 {
            body = body.with("tools", Json::array(clone_json(&self.request.tools))).with(
                "tool_choice",
                Json::str("auto"),
            );
        }
        let mode = if self.config.thinking {
            Json::str("enabled")
        } else {
            Json::str("disabled")
        };
        body = body.with("thinking", Json::object().with("type", mode));
        if self.request.stream {
            body = body.with("stream", Json::Bool(true));
        }
        LlmCall {
            api_url: completions_url(base_url.as_str()),
            api_key: api_key.clone(),
            body,
            stream: self.request.stream,
        }
    }

    fn retry(&self, hint: String, temperature: Json) -> (r: LlmCall)
        ensures
            r@ == call_of(
                self@,
                text_route(self@.config),
                with_last_content(self@.messages, hint@),
                temperature@,
            ),
    {
        let mut messages = clone_json(&self.messages);
        let ghost before = json_views(messages@);
        match messages.pop() {
            Some(last) => {
                let ghost rest = messages@;
                assert(before =~= json_views(rest).push(last@));
                let changed = last.set("content", Json::Str(hint));
                push_json(&mut messages, changed);
                assert(json_views(messages@) =~= with_last_content(before, hint@));
            },
            None => {
                assert(json_views(messages@) =~= with_last_content(before, hint@));
            },
        }
        self.call(
            &self.config.model,
            &self.config.base_url,
            &self.config.api_key,
            messages,
            temperature,
        )
    }

    /// Takes a result; `Finish` hands it back.
    pub fn on_result(&mut self, result: Result<LlmResponse, String>, temperature: Json) -> (r:
        RunStep)
        ensures
            (final(self)@, r@) == after_result(old(self)@, result_view(result), temperature@),
            r matches RunStep::Finish { result: same_result, .. } ==> same_result == result,
    {
        let failed = should_fallback_to_tools(&result);
        let first = self.attempt == Attempt::First;
        let second = self.attempt == Attempt::WithoutImage;
        if first && self.request.image_base64.is_some() && failed {
            let mut hint = String::new();
            if self.request.message.as_str().is_empty() {
                hint = "用户发送了一张图片。你无法直接查看图片，请使用 image_understand 或 image_describe 工具来分析它（image_base64 参数可省略，工具会自动使用最近收到的图片）。".to_owned();
            } else {
                hint = "用户消息：".to_owned();
                hint.append(self.request.message.as_str());
                hint.append(
                    "\n\n用户还发送了一张图片。请使用 image_understand 或 image_describe 工具来分析它（image_base64 参数可省略，工具会自动使用最近收到的图片）。",
                );
            }
            let call = self.retry(hint, temperature);
            self.attempt = Attempt::WithoutImage;
            return RunStep::Call(call);
        }
        if (first || second) && self.request.video_base64.is_some()
            && self.request.video_mime.is_some() && failed {
            let mut hint = String::new();
            if self.request.message.as_str().is_empty() {
                hint = "用户发送了一段视频。你无法直接查看视频，请使用 video_analyze 工具来分析它（参数可省略，工具会自动使用最近收到的视频）。".to_owned();
            } else {
                hint = "用户消息：".to_owned();
                hint.append(self.request.message.as_str());
                hint.append(
                    "\n\n用户还发送了一段视频。请使用 video_analyze 工具来分析它（参数可省略，工具会自动使用最近收到的视频）。",
                );
            }
            let call = self.retry(hint, temperature);
            self.attempt = Attempt::WithoutVideo;
            return RunStep::Call(call);
        }
        self.attempt = Attempt::Done;
        let effects = self.stored_effects(&result);
        RunStep::Finish { result, effects }
    }

    fn stored_effects(&self, result: &Result<LlmResponse, String>) -> (r: Vec<Effect>)
        ensures
            effect_views(r@) == stored(self@.request, result_view(*result)),
    {
        let mut effects: Vec<Effect> = Vec::new();
        assert(effect_views(effects@) =~= Seq::empty());
        if self.request.skip_store {
            return effects;
        }
        match result {
            Ok(a) => {
                let user = match &self.request.original_user_msg {
                    Some(t) => t.as_str(),
                    None => self.request.message.as_str(),
                };
                if !user.is_empty() {
                    add_effect(
                        &mut effects,
                        Effect::Store {
                            peer_id: self.request.peer_id.clone(),
                            message_json: plain_text("user", user),
                        },
                    );
                }
                let ghost first = effect_views(effects@);
                if a.tool_calls.len() == 0 && !is_blank(a.content.as_str()) {
                    add_effect(
                        &mut effects,
                        Effect::Store {
                            peer_id: self.request.peer_id.clone(),
                            message_json: plain_text("assistant", a.content.as_str()),
                        },
                    );
                }
                assert(effect_views(effects@) =~= stored(self@.request, result_view(*result)));
                effects
            },
            Err(_) => effects,
        }
    }
}

/// The body of a plain request, and the event that announces it.
pub open spec fn plain_body(
    model: Seq<char>,
    messages: Seq<ChatMessageView>,
    temperature: JsonView,
    max_tokens: Option<u32>,
) -> JsonView {
    JsonView::object().with("model"@, JsonView::Str(model)).with(
        "messages"@,
        JsonView::Arr(
            messages.map_values(|m: ChatMessageView| plain_message(m.role, m.content)),
        ),
    ).with("temperature"@, temperature).with(
        "max_tokens"@,
        JsonView::PosInt(
            match max_tokens {
                Some(n) => n as u64,
                None => 1024,
            },
        ),
    )
}

/// A plain request: the call that makes it, and the event that announces it. Without a model it
/// goes to the one that is configured.
pub fn plain_request(
    c: &LlmConfig,
    messages: &Vec<ChatMessage>,
    model: Option<String>,
    temperature: Json,
    max_tokens: Option<u32>,
) -> (r: (LlmCall, Event))
    ensures
        ({
            let name = match model {
                Some(m) => m@,
                None => c@.model,
            };
            &&& r.0@ == (LlmCallView {
                api_url: chat_url(c@.base_url),
                api_key: c@.api_key,
                body: plain_body(name, message_views(messages@), temperature@, max_tokens),
                stream: false,
            })
            &&& r.1@ == EventView::fresh(
                "llm.request"@,
                JsonView::object().with("model"@, JsonView::Str(name)).with(
                    "mode"@,
                    JsonView::Str("simple"@),
                ),
                "llm-actor"@,
            )
        }),
{
    let name = match model {
        Some(m) => m,
        None => c.model.clone(),
    };
    let event = Event::new(
        "llm.request",
        Json::object().with("model", Json::str(name.as_str())).with("mode", Json::str("simple")),
        "llm-actor",
    );
    let mut list: Vec<Json> = Vec::new();
    let mut i: usize = 0;
    while i < messages.len()
        invariant
            i <= messages@.len(),
            list@.len() == i,
            forall|k: int|
                0 <= k < i ==> (#[trigger] list@[k])@ == plain_message(
                    messages@[k].role@,
                    messages@[k].content@,
                ),
        decreases messages@.len() - i,
    {
        list.push(plain_json(messages[i].role.as_str(), messages[i].content.as_str()));
        i = i + 1;
    }
    assert(json_views(list@) =~= message_views(messages@).map_values(
        |m: ChatMessageView| plain_message(m.role, m.content),
    ));
    let limit: u64 = match max_tokens {
        Some(n) => n as u64,
        None => 1024,
    };
    let body = Json::object().with("model", Json::Str(name)).with(
        "messages",
        Json::array(list),
    ).with("temperature", temperature).with("max_tokens", Json::PosInt(limit));
    let call = LlmCall {
        api_url: completions_url(c.base_url.as_str()),
        api_key: c.api_key.clone(),
        body,
        stream: false,
    };
    (call, event)
}

/// A request is tried at most three times: as it came, without the picture, without the film. What
/// is tried again goes where text goes.
pub proof fn at_most_two_retries(
    s: ChatRunView,
    result: Result<LlmResponseView, Seq<char>>,
    temperature: JsonView,
)
    ensures
        after_result(s, result, temperature).0.attempt != Attempt::First,
        s.attempt == Attempt::WithoutVideo || s.attempt == Attempt::Done ==> after_result(
            s,
            result,
            temperature,
        ).1 is Finish,
        s.attempt == Attempt::WithoutImage ==> after_result(
            s,
            result,
            temperature,
        ).0.attempt != Attempt::WithoutImage,
        after_result(s, result, temperature).1 matches RunStepView::Call(c) ==> c.api_url
            == chat_url(s.config.base_url) && c.api_key == s.config.api_key,
        !falls_back(result) ==> after_result(s, result, temperature).1 is Finish,
{
}

/// No more of the history is told than two messages for each round that is configured, and they are
/// the newest.
pub proof fn history_is_bounded(records: Seq<RecordView>, turns: nat)
    ensures
        history_messages(recent_turns(records, turns)).len() <= 2 * turns,
        recent_turns(records, turns).is_suffix_of(records),
        records.len() <= 2 * turns ==> recent_turns(records, turns) == records,
{
    let told = recent_turns(records, turns);
    lemma_history_len(told);
    assert(told =~= records.subrange(records.len() - told.len(), records.len() as int));
}

proof fn lemma_history_len(records: Seq<RecordView>)
    ensures
        history_messages(records).len() <= records.len(),
    decreases records.len(),
{
    if records.len() > 0 {
        lemma_history_len(records.drop_last());
    }
}

/// Every tool result that is sent from the history comes after a message that asks for calls.
pub proof fn sent_results_follow_calls(records: Seq<RecordView>)
    requires
        records.len() > 0,
        is_tool_result(records.last()),
        history_messages(records) != history_messages(records.drop_last()),
    ensures
        exists|i: int|
            0 <= i < records.len() - 1 && asks_for_calls(#[trigger] records.drop_last()[i]),
{
    lemma_seen(records.drop_last());
}

proof fn lemma_seen(records: Seq<RecordView>)
    ensures
        calls_seen(records) ==> exists|i: int|
            0 <= i < records.len() && asks_for_calls(#[trigger] records[i]),
    decreases records.len(),
{
    if records.len() > 0 {
        let before = records.drop_last();
        lemma_seen(before);
        if calls_seen(records) {
            if calls_seen(before) {
                let i = choose|i: int|
                    0 <= i < before.len() && asks_for_calls(#[trigger] before[i]);
                assert(records[i] == before[i]);
            } else {
                assert(asks_for_calls(records[records.len() - 1]));
            }
        }
    }
}

/// A failed request, and one whose storing is left to others, leaves no trace in the history.
pub proof fn failures_are_not_stored(
    r: ChatRequestView,
    result: Result<LlmResponseView, Seq<char>>,
)
    requires
        result is Err || r.skip_store,
    ensures
        stored(r, result).len() == 0,
{
}

} // verus!
