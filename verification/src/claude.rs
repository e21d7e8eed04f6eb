//! A model behind a command line: what it is asked, and the tool calls that its answer holds.

use crate::chat::{ChatMessage, ChatMessageView, LlmResponse, LlmResponseView};
use crate::event::{str_or, text_or};
use crate::json::{json_read, json_views, json_written, Json, JsonView};
use crate::llm_reply::result_view;
use crate::numbers::{decimal, push_decimal, signed_decimal, signed_decimal_string};
use crate::text::{
    chars_of, find_chars, find_from, join, join_strings, lemma_find_from, occurs_at, same,
    string_of, string_range, trim, trimmed, views,
};
use crate::tool::{call_views, ToolCall, ToolCallView};
use vstd::prelude::*;

verus! {

broadcast use vstd::string::group_string_axioms;

/// The line on a tool: its name, what it does, and the schema of its parameters.
pub open spec fn tool_line(tool: JsonView) -> Seq<char> {
    let f = tool.at("function"@);
    "- "@ + str_or(f, "name"@, "unknown"@) + ": "@ + str_or(f, "description"@, ""@) + " ("@
        + json_written(f.at("parameters"@)) + ")\n"@
}

/// The lines on the tools.
pub open spec fn tool_lines(tools: Seq<JsonView>) -> Seq<char>
    decreases tools.len(),
{
    if tools.len() == 0 {
        Seq::empty()
    } else {
        tool_lines(tools.drop_last()) + tool_line(tools.last())
    }
}

/// How the instructions begin.
pub open spec fn tools_lead() -> Seq<char> {
    "\n【系统指令——严格遵守】\n你运行在一个工具编排引擎内。完成用户请求时，如果需要调用工具，必须在回复末尾输出以下格式（纯 JSON 对象包裹在标签内）：\n\n<tool_call>{\"name\":\"工具名\",\"arguments\":{\"参数名\":\"值\"}}</tool_call>\n\n系统会解析此标签并执行对应工具。如果不需要调用工具，正常回复即可。\n"@
}

/// How the instructions end.
pub open spec fn tools_tail() -> Seq<char> {
    "\n【示例】用户问\"查天气\"，回复末尾：<tool_call>{\"name\":\"web_search\",\"arguments\":{\"query\":\"今天天气\"}}</tool_call>\n"@
}

/// The instructions on the tools: nothing where there are none.
pub open spec fn tools_prompt(tools: Seq<JsonView>) -> Seq<char> {
    if tools.len() == 0 {
        Seq::empty()
    } else {
        tools_lead() + tool_lines(tools) + tools_tail()
    }
}

fn push_tool_line(out: &mut String, tool: &Json)
    ensures
        final(out)@ == old(out)@ + tool_line(tool@),
{
    let ghost start = out@;
    let null = Json::Null;
    let f = match tool.get("function") {
        Some(f) => f,
        None => &null,
    };
    let name = text_or(f, "name", "unknown");
    let description = text_or(f, "description", "");
    let params = match f.get("parameters") {
        Some(p) => p.text(),
        None => null.text(),
    };
    out.append("- ");
    out.append(name.as_str());
    out.append(": ");
    out.append(description.as_str());
    out.append(" (");
    out.append(params.as_str());
    out.append(")\n");
    assert(out@ =~= start + tool_line(tool@));
}

/// The instructions on the tools.
pub fn build_tools_system_prompt(tools: &Vec<Json>) -> (r: String)
    ensures
        r@ == tools_prompt(json_views(tools@)),
{
    if tools.len() == 0 {
        return String::new();
    }
    let ghost all = json_views(tools@);
    let mut out =
        "\n【系统指令——严格遵守】\n你运行在一个工具编排引擎内。完成用户请求时，如果需要调用工具，必须在回复末尾输出以下格式（纯 JSON 对象包裹在标签内）：\n\n<tool_call>{\"name\":\"工具名\",\"arguments\":{\"参数名\":\"值\"}}</tool_call>\n\n系统会解析此标签并执行对应工具。如果不需要调用工具，正常回复即可。\n".to_owned();
    let mut i: usize = 0;
    assert(all.take(0) =~= Seq::empty());
    assert(out@ =~= tools_lead() + tool_lines(all.take(0)));
    while i < tools.len()
        invariant
            i <= tools@.len(),
            all == json_views(tools@),
            out@ == tools_lead() + tool_lines(all.take(i as int)),
        decreases tools@.len() - i,
    {
        let ghost before = out@;
        push_tool_line(&mut out, &tools[i]);
        proof {
            let t = all.take(i + 1);
            assert(t.drop_last() =~= all.take(i as int));
            assert(out@ =~= tools_lead() + tool_lines(t));
        }
        i = i + 1;
    }
    assert(all.take(all.len() as int) =~= all);
    out.append("\n【示例】用户问\"查天气\"，回复末尾：<tool_call>{\"name\":\"web_search\",\"arguments\":{\"query\":\"今天天气\"}}</tool_call>\n");
    out
}

/// What opens a call.
pub open spec fn open_tag() -> Seq<char> {
    "<tool_call>"@
}

/// What closes a call.
pub open spec fn close_tag() -> Seq<char> {
    "</tool_call>"@
}

/// Where the first call of a text stands: where it opens and where what closes it stands.
pub open spec fn first_call(s: Seq<char>) -> Option<(int, int)> {
    match find_from(s, open_tag(), 0) {
        Some(a) => match find_from(s, close_tag(), a) {
            Some(b) => Some((a, b)),
            None => None,
        },
        None => None,
    }
}

/// A text without its first call.
pub open spec fn without_first(s: Seq<char>) -> Seq<char> {
    match first_call(s) {
        Some((a, b)) => s.take(a) + s.skip(b + close_tag().len()),
        None => s,
    }
}

/// What stands between the tags of the first call.
pub open spec fn first_body(s: Seq<char>) -> Seq<char> {
    match first_call(s) {
        Some((a, b)) => s.subrange(a + open_tag().len(), b),
        None => s,
    }
}

/// The call that a body reads as, where it is JSON.
pub open spec fn body_call(value: Option<JsonView>, place: nat) -> Option<ToolCallView> {
    match value {
        Some(v) => Some(
            ToolCallView {
                id: "call_"@ + decimal(place),
                name: match v.get("name"@) {
                    Some(n) => match n.as_str() {
                        Some(t) => t,
                        None => "tool"@,
                    },
                    None => "tool"@,
                },
                arguments: match v.get("arguments"@) {
                    Some(a) => a,
                    None => JsonView::object(),
                },
            },
        ),
        None => None,
    }
}

/// The calls with one more, where there is one.
pub open spec fn more_calls(calls: Seq<ToolCallView>, call: Option<ToolCallView>) -> Seq<
    ToolCallView,
> {
    match call {
        Some(c) => calls.push(c),
        None => calls,
    }
}

proof fn lemma_first_call(s: Seq<char>)
    ensures
        first_call(s) matches Some((a, b)) ==> {
            &&& occurs_at(s, open_tag(), a)
            &&& occurs_at(s, close_tag(), b)
            &&& 0 <= a
            &&& a + open_tag().len() <= b
            &&& b + close_tag().len() <= s.len()
            &&& without_first(s).len() < s.len()
        },
{
    reveal_strlit("<tool_call>");
    reveal_strlit("</tool_call>");
    lemma_find_from(s, open_tag(), 0);
    match find_from(s, open_tag(), 0) {
        Some(a) => {
            lemma_find_from(s, close_tag(), a);
            match find_from(s, close_tag(), a) {
                Some(b) => {
                    let o = s.subrange(a, a + open_tag().len());
                    let c = s.subrange(b, b + close_tag().len());
                    assert(c[0] == '<' && c[1] == '/');
                    assert(s[b] == c[0] && s[b + 1] == c[1]);
                    if b < a + open_tag().len() {
                        assert(o[b - a] == s[b]);
                        assert(o[0] == '<' && o[1] == 't');
                        assert(s[a + 1] == o[1]);
                        assert(b == a);
                    }
                },
                None => {},
            }
        },
        None => {},
    }
}

/// The calls in a text and what is left of it, given those found before. Taking a call out may put
/// the pieces of another together.
pub open spec fn cut_calls(s: Seq<char>, found: Seq<ToolCallView>) -> (Seq<ToolCallView>, Seq<char>)
    decreases s.len(),
    via cut_calls_ends
{
    match first_call(s) {
        Some(_) => cut_calls(
            without_first(s),
            more_calls(found, body_call(json_read(first_body(s)), found.len())),
        ),
        None => (found, s),
    }
}

#[via_fn]
proof fn cut_calls_ends(s: Seq<char>, found: Seq<ToolCallView>) {
    lemma_first_call(s);
}

/// Reads what a body holds as the call at a place.
pub fn call_of(value: &Option<Json>, place: usize) -> (r: Option<ToolCall>)
    ensures
        (match r {
            Some(c) => Some(c@),
            None => None,
        }) == body_call(
            match value {
                Some(v) => Some(v@),
                None => None,
            },
            place as nat,
        ),
{
    match value {
        Some(v) => {
            let mut id = "call_".to_owned();
            push_decimal(&mut id, place as u64);
            let name = match v.get("name") {
                Some(n) => match n.as_str() {
                    Some(t) => t.to_owned(),
                    None => "tool".to_owned(),
                },
                None => "tool".to_owned(),
            };
            let arguments = match v.get("arguments") {
                Some(a) => a.clone(),
                None => Json::object(),
            };
            Some(ToolCall { id, name, arguments })
        },
        None => None,
    }
}

/// The place of the first call in `chars`.
fn find_call(chars: &Vec<char>) -> (r: Option<(usize, usize)>)
    ensures
        match r {
            Some((a, b)) => first_call(chars@) == Some((a as int, b as int)),
            None => first_call(chars@) is None,
        },
{
    let open = chars_of("<tool_call>");
    let close = chars_of("</tool_call>");
    match find_chars(chars, &open, 0) {
        Some(a) => match find_chars(chars, &close, a) {
            Some(b) => Some((a, b)),
            None => None,
        },
        None => None,
    }
}

/// The calls that an answer holds, and the rest of it without white space at its ends.
pub fn parse_tool_calls(response: &str) -> (r: (Vec<ToolCall>, String))
    ensures
        call_views(r.0@) == cut_calls(response@, Seq::empty()).0,
        r.1@ == trim(cut_calls(response@, Seq::empty()).1),
{
    let mut calls: Vec<ToolCall> = Vec::new();
    let mut clean = chars_of(response);
    assert(call_views(calls@) =~= Seq::empty());
    loop
        invariant
            cut_calls(clean@, call_views(calls@)) == cut_calls(response@, Seq::empty()),
        ensures
            first_call(clean@) is None,
            cut_calls(clean@, call_views(calls@)) == cut_calls(response@, Seq::empty()),
        decreases clean@.len(),
    {
        let (a, b) = match find_call(&clean) {
            Some(place) => place,
            None => {
                break;
            },
        };
        proof {
            lemma_first_call(clean@);
            reveal_strlit("<tool_call>");
            reveal_strlit("</tool_call>");
            assert(open_tag().len() == 11 && close_tag().len() == 12);
            assert(b + 12 <= clean@.len());
        }
        let total = clean.len();
        let body = string_range(&clean, a + 11, b);
        let value = Json::parse(body.as_str());
        let ghost before = calls@;
        match call_of(&value, calls.len()) {
            Some(c) => {
                calls.push(c);
                assert(call_views(calls@) =~= call_views(before).push(c@));
            },
            None => {},
        }
        let head = string_range(&clean, 0, a);
        let tail = string_range(&clean, b + 12, total);
        let mut joined = head;
        joined.append(tail.as_str());
        proof {
            assert(joined@ =~= without_first(clean@));
        }
        clean = chars_of(joined.as_str());
    }
    let rest = string_of(&clean);
    (calls, trimmed(rest.as_str()))
}

/// A message, as it is told to the model.
pub open spec fn told(m: ChatMessageView) -> Seq<char> {
    if m.role == "system"@ {
        "[System]\n"@ + m.content
    } else if m.role == "user"@ {
        "User: "@ + m.content
    } else if m.role == "assistant"@ {
        "Assistant: "@ + m.content
    } else {
        m.role + ": "@ + m.content
    }
}

/// The messages, as they are told to the model.
pub open spec fn told_all(messages: Seq<ChatMessage>) -> Seq<Seq<char>> {
    messages.map_values(|m: ChatMessage| told(m@))
}

fn tell(m: &ChatMessage) -> (r: String)
    ensures
        r@ == told(m@),
{
    let mut out = if same(m.role.as_str(), "system") {
        "[System]\n".to_owned()
    } else if same(m.role.as_str(), "user") {
        "User: ".to_owned()
    } else if same(m.role.as_str(), "assistant") {
        "Assistant: ".to_owned()
    } else {
        let mut s = m.role.clone();
        s.append(": ");
        s
    };
    out.append(m.content.as_str());
    out
}

/// What the model is asked with a list of messages.
pub fn plain_prompt(messages: &Vec<ChatMessage>) -> (r: String)
    ensures
        r@ == join(told_all(messages@), "\n\n"@),
{
    let mut parts: Vec<String> = Vec::new();
    let mut i: usize = 0;
    while i < messages.len()
        invariant
            i <= messages@.len(),
            parts@.len() == i,
            forall|k: int| 0 <= k < i ==> (#[trigger] parts@[k])@ == told(messages@[k]@),
        decreases messages@.len() - i,
    {
        parts.push(tell(&messages[i]));
        i = i + 1;
    }
    assert(views(parts@) =~= told_all(messages@));
    join_strings(&parts, "\n\n")
}

/// The contexts, as they stand before a message.
pub open spec fn contexts_text(contexts: Seq<Seq<char>>) -> Seq<char> {
    if contexts.len() == 0 {
        Seq::empty()
    } else {
        join(contexts, "\n"@) + "\n\n"@
    }
}

/// What the model is asked with a message: the instructions on the tools, the contexts and the
/// message.
pub open spec fn chat_question(
    tools: Seq<JsonView>,
    contexts: Seq<Seq<char>>,
    message: Seq<char>,
) -> Seq<char> {
    if tools.len() == 0 {
        contexts_text(contexts) + message
    } else {
        tools_prompt(tools) + "\n\n"@ + contexts_text(contexts) + message
    }
}

proof fn lemma_tools_prompt_is_not_empty(tools: Seq<JsonView>)
    requires
        tools.len() > 0,
    ensures
        tools_prompt(tools).len() > 0,
{
    reveal_strlit(
        "\n【示例】用户问\"查天气\"，回复末尾：<tool_call>{\"name\":\"web_search\",\"arguments\":{\"query\":\"今天天气\"}}</tool_call>\n",
    );
    assert(tools_tail().len() > 0);
}

/// What the model is asked with a message.
pub fn chat_prompt(tools: &Vec<Json>, contexts: &Vec<String>, message: &str) -> (r: String)
    ensures
        r@ == chat_question(json_views(tools@), views(contexts@), message@),
{
    let mut front = String::new();
    if contexts.len() > 0 {
        front = join_strings(contexts, "\n");
        front.append("\n\n");
    }
    assert(front@ =~= contexts_text(views(contexts@)));
    let mut out = build_tools_system_prompt(tools);
    proof {
        if tools@.len() > 0 {
            lemma_tools_prompt_is_not_empty(json_views(tools@));
        }
    }
    if !out.as_str().is_empty() {
        out.append("\n\n");
    }
    out.append(front.as_str());
    out.append(message);
    assert(out@ =~= chat_question(json_views(tools@), views(contexts@), message@));
    out
}

/// What the command gave back: its text, or why there is none. The model is named after the command,
/// with `-cli` at its end.
pub open spec fn command_answer(
    command: Seq<char>,
    success: bool,
    code: Option<i32>,
    stdout: Seq<char>,
    stderr: Seq<char>,
) -> Result<LlmResponseView, Seq<char>> {
    if !success {
        Err(
            "exit "@ + signed_decimal(
                match code {
                    Some(c) => c as int,
                    None => -1,
                },
            ) + ": "@ + trim(stderr),
        )
    } else if trim(stdout).len() == 0 {
        Err("empty response"@)
    } else {
        let (calls, rest) = cut_calls(trim(stdout), Seq::empty());
        Ok(
            LlmResponseView {
                content: trim(rest),
                model: command + "-cli"@,
                prompt_tokens: 0,
                completion_tokens: 0,
                prompt_cache_hit_tokens: 0,
                prompt_cache_miss_tokens: 0,
                tool_calls: calls,
            },
        )
    }
}

/// Reads what the command gave back. `code` is none where a signal ended it.
pub fn read_command(
    command: &str,
    success: bool,
    code: Option<i32>,
    stdout: &str,
    stderr: &str,
) -> (r: Result<LlmResponse, String>)
    ensures
        result_view(r) == command_answer(command@, success, code, stdout@, stderr@),
{
    if !success {
        let n: i64 = match code {
            Some(c) => c as i64,
            None => -1,
        };
        let mut e = "exit ".to_owned();
        let number = signed_decimal_string(n);
        e.append(number.as_str());
        e.append(": ");
        let reason = trimmed(stderr);
        e.append(reason.as_str());
        return Err(e);
    }
    let text = trimmed(stdout);
    if text.as_str().is_empty() {
        return Err("empty response".to_owned());
    }
    let (tool_calls, content) = parse_tool_calls(text.as_str());
    let mut model = command.to_owned();
    model.append("-cli");
    Ok(
        LlmResponse {
            content,
            model,
            prompt_tokens: 0,
            completion_tokens: 0,
            prompt_cache_hit_tokens: 0,
            prompt_cache_miss_tokens: 0,
            tool_calls,
        },
    )
}

/// No call is left in what is left of a text.
pub proof fn no_call_is_left(s: Seq<char>, found: Seq<ToolCallView>)
    ensures
        first_call(cut_calls(s, found).1) is None,
    decreases s.len(),
{
    if first_call(s) is Some {
        lemma_first_call(s);
        no_call_is_left(
            without_first(s),
            more_calls(found, body_call(json_read(first_body(s)), found.len())),
        );
    }
}

/// Calls are numbered from nought in the order in which they stand in the text.
pub proof fn calls_are_numbered(s: Seq<char>, found: Seq<ToolCallView>)
    requires
        forall|i: int|
            0 <= i < found.len() ==> (#[trigger] found[i]).id == "call_"@ + decimal(i as nat),
    ensures
        ({
            let calls = cut_calls(s, found).0;
            &&& found.is_prefix_of(calls)
            &&& forall|i: int|
                0 <= i < calls.len() ==> (#[trigger] calls[i]).id == "call_"@ + decimal(i as nat)
        }),
    decreases s.len(),
{
    if first_call(s) is Some {
        lemma_first_call(s);
        let next = more_calls(found, body_call(json_read(first_body(s)), found.len()));
        calls_are_numbered(without_first(s), next);
        let calls = cut_calls(s, found).0;
        assert(found =~= calls.take(found.len() as int)) by {
            assert(next.len() <= calls.len());
            assert forall|i: int| 0 <= i < found.len() implies found[i] == #[trigger] calls.take(
                found.len() as int,
            )[i] by {
                assert(next[i] == found[i]);
                assert(calls[i] == next[i]);
            }
        }
    }
}

/// A text without a call is answered as it stands.
pub proof fn plain_text_has_no_calls(s: Seq<char>)
    requires
        first_call(s) is None,
    ensures
        cut_calls(s, Seq::empty()) == (Seq::<ToolCallView>::empty(), s),
{
}

} // verus!
