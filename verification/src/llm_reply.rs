//! The model's answer when it comes in one piece, and what its failures are reported as.

use crate::chat::{LlmResponse, LlmResponseView};
use crate::event::{Event, EventView};
use crate::json::{json_read, json_views, Json, JsonView};
use crate::llm_stream::{element, member, opt_view, text_of, token_count};
use crate::llm_text::{preview, truncate_preview};
use crate::numbers::{decimal, push_decimal};
use crate::text::{chars_of, trim, trimmed};
use crate::tool::{call_views, ToolCall, ToolCallView};
use vstd::prelude::*;

verus! {

broadcast use vstd::string::group_string_axioms;

/// The event that reports a failure.
pub open spec fn error_event(error: Seq<char>) -> EventView {
    EventView::fresh(
        "llm.error"@,
        JsonView::object().with("error"@, JsonView::Str(error)),
        "llm-actor"@,
    )
}

/// The event that reports a failure.
pub fn llm_error(error: &str) -> (r: Event)
    ensures
        r@ == error_event(error@),
{
    Event::new("llm.error", Json::object().with("error", Json::str(error)), "llm-actor")
}

/// Where talking to the model failed.
#[derive(Debug, Clone, Copy, PartialEq, Eq, Structural)]
pub enum LlmFault {
    /// The request was not answered.
    Http,
    /// The request for a stream was not answered.
    StreamHttp,
    /// The stream broke off.
    StreamRead,
    /// The answer was not JSON.
    Parse,
}

/// What a fault is reported as.
pub open spec fn fault_text(fault: LlmFault, reason: Seq<char>) -> Seq<char> {
    match fault {
        LlmFault::Http => "LLM HTTP error: "@ + reason,
        LlmFault::StreamHttp => "LLM stream HTTP error: "@ + reason,
        LlmFault::StreamRead => "LLM stream read error: "@ + reason,
        LlmFault::Parse => "LLM JSON parse error: "@ + reason,
    }
}

/// What a fault is reported as.
pub fn describe_fault(fault: LlmFault, reason: &str) -> (r: String)
    ensures
        r@ == fault_text(fault, reason@),
{
    let mut out = match fault {
        LlmFault::Http => "LLM HTTP error: ".to_owned(),
        LlmFault::StreamHttp => "LLM stream HTTP error: ".to_owned(),
        LlmFault::StreamRead => "LLM stream read error: ".to_owned(),
        LlmFault::Parse => "LLM JSON parse error: ".to_owned(),
    };
    out.append(reason);
    out
}

/// What a refusal is reported as: the status and the message in the body.
pub open spec fn refusal_text(status: u16, body: JsonView) -> Seq<char> {
    "LLM API error ("@ + decimal(status as nat) + "): "@ + match body.at("error"@).str_at(
        "message"@,
    ) {
        Some(m) => m,
        None => "unknown error"@,
    }
}

/// What a refusal is reported as.
pub fn describe_refusal(status: u16, body: &Json) -> (r: String)
    ensures
        r@ == refusal_text(status, body@),
{
    let mut out = "LLM API error (".to_owned();
    push_decimal(&mut out, status as u64);
    out.append("): ");
    match text_of(member(body.get("error"), "message")) {
        Some(m) => out.append(m),
        None => out.append("unknown error"),
    }
    out
}

/// The call that an item of the answer asks for: none where its id, name or arguments are no
/// strings.
pub open spec fn read_call(item: JsonView) -> Option<ToolCallView> {
    match (
        item.str_at("id"@),
        item.at("function"@).str_at("name"@),
        item.at("function"@).str_at("arguments"@),
    ) {
        (Some(id), Some(name), Some(arguments)) => Some(
            ToolCallView {
                id,
                name,
                arguments: match json_read(arguments) {
                    Some(j) => j,
                    None => JsonView::Null,
                },
            },
        ),
        _ => None,
    }
}

/// The calls that the items of the answer ask for, in order.
pub open spec fn read_calls(items: Seq<JsonView>) -> Seq<ToolCallView>
    decreases items.len(),
{
    if items.len() == 0 {
        Seq::empty()
    } else {
        let rest = read_calls(items.drop_last());
        match read_call(items.last()) {
            Some(c) => rest.push(c),
            None => rest,
        }
    }
}

/// The answer that a body holds.
pub open spec fn body_response(body: JsonView) -> LlmResponseView {
    let message = body.at("choices"@).item(0).at("message"@);
    let usage = body.at("usage"@);
    LlmResponseView {
        content: match message.str_at("content"@) {
            Some(s) => s,
            None => ""@,
        },
        model: match body.str_at("model"@) {
            Some(s) => s,
            None => ""@,
        },
        prompt_tokens: token_count(usage, "prompt_tokens"@),
        completion_tokens: token_count(usage, "completion_tokens"@),
        prompt_cache_hit_tokens: token_count(usage, "prompt_cache_hit_tokens"@),
        prompt_cache_miss_tokens: token_count(usage, "prompt_cache_miss_tokens"@),
        tool_calls: match message.at("tool_calls"@).as_array() {
            Some(items) => read_calls(items),
            None => Seq::empty(),
        },
    }
}

/// The event that reports an answer.
pub open spec fn response_event(r: LlmResponseView) -> EventView {
    EventView::fresh(
        "llm.response"@,
        JsonView::object().with("content_preview"@, JsonView::Str(preview(r.content, 200, 0))).with(
            "prompt_tokens"@,
            JsonView::PosInt(r.prompt_tokens as u64),
        ).with("completion_tokens"@, JsonView::PosInt(r.completion_tokens as u64)).with(
            "tool_calls_count"@,
            JsonView::PosInt(r.tool_calls.len() as usize as u64),
        ),
        "llm-actor"@,
    )
}

fn tokens_at(usage: Option<&Json>, key: &str) -> (r: u32)
    ensures
        r == token_count(opt_view(usage), key@),
{
    match member(usage, key) {
        Some(v) => match v.as_u64() {
            Some(n) => #[verifier::truncate]
            (n as u32),
            None => 0,
        },
        None => 0,
    }
}

fn call_of(item: &Json) -> (r: Option<ToolCall>)
    ensures
        match r {
            Some(c) => read_call(item@) == Some(c@),
            None => read_call(item@) is None,
        },
{
    let function = item.get("function");
    match item.str_at("id") {
        Some(id) => match text_of(member(function, "name")) {
            Some(name) => match text_of(member(function, "arguments")) {
                Some(text) => {
                    let arguments = match Json::parse(text) {
                        Some(j) => j,
                        None => Json::Null,
                    };
                    Some(ToolCall { id: id.to_owned(), name: name.to_owned(), arguments })
                },
                None => None,
            },
            None => None,
        },
        None => None,
    }
}

/// The calls that the items of an answer ask for.
pub fn calls_of(items: &Vec<Json>) -> (r: Vec<ToolCall>)
    ensures
        call_views(r@) == read_calls(json_views(items@)),
{
    let ghost all = json_views(items@);
    let mut out: Vec<ToolCall> = Vec::new();
    let mut i: usize = 0;
    assert(all.take(0) =~= Seq::empty());
    assert(call_views(out@) =~= Seq::empty());
    while i < items.len()
        invariant
            i <= items@.len(),
            all == json_views(items@),
            call_views(out@) == read_calls(all.take(i as int)),
        decreases items@.len() - i,
    {
        proof {
            let t = all.take(i + 1);
            assert(t.drop_last() =~= all.take(i as int));
            assert(t.last() == items@[i as int]@);
        }
        match call_of(&items[i]) {
            Some(c) => {
                let ghost before = out@;
                out.push(c);
                assert(call_views(before.push(c)) =~= call_views(before).push(c@));
            },
            None => {},
        }
        i = i + 1;
    }
    assert(all.take(all.len() as int) =~= all);
    out
}

fn or_empty(o: Option<&str>) -> (r: String)
    ensures
        r@ == (match o {
            Some(s) => s@,
            None => ""@,
        }),
{
    match o {
        Some(s) => s.to_owned(),
        None => "".to_owned(),
    }
}

/// Reads an answer: with a status of success its content and the event that reports it, else what
/// the refusal is reported as and the event that reports that.
pub fn read_reply(success: bool, status: u16, body: &Json) -> (r: (
    Result<LlmResponse, String>,
    Event,
))
    ensures
        r.0 is Ok == success,
        r.0 matches Ok(a) ==> a@ == body_response(body@) && r.1@ == response_event(a@),
        r.0 matches Err(e) ==> e@ == refusal_text(status, body@) && r.1@ == error_event(e@),
{
    if !success {
        let error = describe_refusal(status, body);
        let event = llm_error(error.as_str());
        return (Err(error), event);
    }
    let message = member(element(body.get("choices"), 0), "message");
    let usage = body.get("usage");
    let items = match member(message, "tool_calls") {
        Some(c) => c.as_array(),
        None => None,
    };
    let tool_calls = match items {
        Some(items) => calls_of(items),
        None => Vec::new(),
    };
    if items.is_none() {
        assert(call_views(tool_calls@) =~= Seq::empty());
    }
    let response = LlmResponse {
        content: or_empty(text_of(member(message, "content"))),
        model: or_empty(body.str_at("model")),
        prompt_tokens: tokens_at(usage, "prompt_tokens"),
        completion_tokens: tokens_at(usage, "completion_tokens"),
        prompt_cache_hit_tokens: tokens_at(usage, "prompt_cache_hit_tokens"),
        prompt_cache_miss_tokens: tokens_at(usage, "prompt_cache_miss_tokens"),
        tool_calls,
    };
    let count: usize = response.tool_calls.len();
    let event = Event::new(
        "llm.response",
        Json::object().with(
            "content_preview",
            Json::Str(truncate_preview(response.content.as_str(), 200)),
        ).with("prompt_tokens", Json::PosInt(response.prompt_tokens as u64)).with(
            "completion_tokens",
            Json::PosInt(response.completion_tokens as u64),
        ).with("tool_calls_count", Json::PosInt(count as u64)),
        "llm-actor",
    );
    (Ok(response), event)
}

/// Whether an answer shows that the model could not deal with a picture or a film: a failure, or
/// no tool calls and at most one character.
pub open spec fn falls_back(result: Result<LlmResponseView, Seq<char>>) -> bool {
    match result {
        Err(_) => true,
        Ok(r) => r.tool_calls.len() == 0 && trim(r.content).len() <= 1,
    }
}

/// The model of a result.
pub open spec fn result_view(r: Result<LlmResponse, String>) -> Result<
    LlmResponseView,
    Seq<char>,
> {
    match r {
        Ok(a) => Ok(a@),
        Err(e) => Err(e@),
    }
}

/// Tells whether an answer shows that the model could not deal with a picture or a film.
pub fn should_fallback_to_tools(result: &Result<LlmResponse, String>) -> (r: bool)
    ensures
        r == falls_back(result_view(*result)),
{
    match result {
        Err(_) => true,
        Ok(a) => {
            if a.tool_calls.len() > 0 {
                return false;
            }
            let text = trimmed(a.content.as_str());
            chars_of(text.as_str()).len() <= 1
        },
    }
}

} // verus!
