//! The model that is run as a command: what it is told, and what is understood of its text.

use crate::chat::ChatMessageView;
use crate::claude::{
    chat_question, command_answer, cut_calls, first_call, told, tool_line, tool_lines, tools_prompt,
};
use crate::json::{json_read, json_written, JsonView};
use crate::laws::parts::{holds, holds_in_order, lemma_holds, lemma_joined_in_order};
use crate::numbers::signed_decimal;
use crate::text::{blank, join, lemma_find_from, lemma_trim_blank, occurs_at, trim};
use crate::tool::ToolCallView;
use vstd::prelude::*;

verus! {

broadcast use vstd::string::group_string_axioms;

/// Whether the first call of a text stands behind `a`, has the body and is followed by `b`.
pub open spec fn calls_first(
    s: Seq<char>,
    a: Seq<char>,
    body: Seq<char>,
    b: Seq<char>,
) -> bool {
    &&& s == a + "<tool_call>"@ + body + "</tool_call>"@ + b
    &&& forall|k: int| 0 <= k < a.len() ==> !#[trigger] occurs_at(s, "<tool_call>"@, k)
    &&& forall|k: int|
        a.len() <= k < a.len() + "<tool_call>"@.len() + body.len() ==> !#[trigger] occurs_at(
            s,
            "</tool_call>"@,
            k,
        )
}

proof fn lemma_calls_first(s: Seq<char>, a: Seq<char>, body: Seq<char>, b: Seq<char>)
    requires
        calls_first(s, a, body, b),
    ensures
        first_call(s) == Some(
            (a.len() as int, (a.len() + "<tool_call>"@.len() + body.len()) as int),
        ),
        crate::claude::first_body(s) == body,
        crate::claude::without_first(s) == a + b,
        (a + b).len() < s.len(),
{
    let o = "<tool_call>"@;
    let c = "</tool_call>"@;
    let at = a.len() as int;
    let end = at + o.len() + body.len();
    reveal_strlit("<tool_call>");
    lemma_find_from(s, o, 0);
    assert(s.subrange(at, at + o.len()) =~= o);
    assert(occurs_at(s, o, at));
    lemma_find_from(s, c, at);
    assert(s.subrange(end, end + c.len()) =~= c);
    assert(occurs_at(s, c, end));
    assert(s.subrange(at + o.len(), end) =~= body);
    assert(s.take(at) + s.skip(end + c.len()) =~= a + b);
}

/// A call that the text holds as JSON is made, with the name and the arguments it gives, behind the
/// calls before it; it is taken out of the text, and nothing else is. What is not JSON is taken out
/// and not made.
pub proof fn call_in_a_text_is_made(
    s: Seq<char>,
    a: Seq<char>,
    body: Seq<char>,
    b: Seq<char>,
    found: Seq<ToolCallView>,
    v: JsonView,
    name: Seq<char>,
    arguments: JsonView,
)
    requires
        calls_first(s, a, body, b),
    ensures
        json_read(body) == Some(v) && v.get("name"@) == Some(JsonView::Str(name)) && v.get(
            "arguments"@,
        ) == Some(arguments) ==> exists|id: Seq<char>|
            cut_calls(s, found) == #[trigger] cut_calls(
                a + b,
                found.push(ToolCallView { id, name, arguments }),
            ),
        json_read(body) is None ==> cut_calls(s, found) == cut_calls(a + b, found),
{
    lemma_calls_first(s, a, body, b);
    let next = crate::claude::more_calls(
        found,
        crate::claude::body_call(json_read(body), found.len()),
    );
    assert(cut_calls(s, found) == cut_calls(a + b, next));
    if json_read(body) is Some {
        let id = "call_"@ + crate::numbers::decimal(found.len());
        assert(next == found.push(next.last()));
    }
}

/// What a command writes is its answer, where it holds no call; the model is named after the
/// command.
pub proof fn text_of_a_command_is_its_answer(
    command: Seq<char>,
    code: Option<i32>,
    stdout: Seq<char>,
    stderr: Seq<char>,
)
    requires
        !blank(stdout),
        forall|k: int| 0 <= k ==> !#[trigger] occurs_at(trim(stdout), "<tool_call>"@, k),
    ensures
        command_answer(command, true, code, stdout, stderr) matches Ok(r) && r.content == trim(
            stdout,
        ) && r.tool_calls.len() == 0 && command.is_prefix_of(r.model),
{
    lemma_trim_blank(stdout);
    crate::text::lemma_trim_idempotent(stdout);
    lemma_find_from(trim(stdout), "<tool_call>"@, 0);
    assert(first_call(trim(stdout)) is None);
    assert(command.is_prefix_of(command + "-cli"@));
}

/// A command that fails is reported with its code and with what it says of it; one that writes
/// nothing has failed too.
pub proof fn failure_of_a_command_is_reported(
    command: Seq<char>,
    code: i32,
    stdout: Seq<char>,
    stderr: Seq<char>,
)
    ensures
        command_answer(command, false, Some(code), stdout, stderr) matches Err(e) && holds(
            e,
            signed_decimal(code as int),
        ) && trim(stderr).is_suffix_of(e),
        blank(stdout) ==> command_answer(command, true, Some(code), stdout, stderr) is Err,
        !blank(stdout) ==> command_answer(command, true, Some(code), stdout, stderr) is Ok,
{
    lemma_trim_blank(stdout);
    let n = signed_decimal(code as int);
    let e = "exit "@ + n + ": "@ + trim(stderr);
    lemma_holds("exit "@, n, ": "@ + trim(stderr));
    assert("exit "@ + n + (": "@ + trim(stderr)) =~= e);
    assert(trim(stderr).is_suffix_of(e));
}

/// What the user says stands at the end of what a command is told, behind all contexts in their
/// order and behind what there is to say of the tools.
pub proof fn command_is_told_everything(
    tools: Seq<JsonView>,
    contexts: Seq<Seq<char>>,
    message: Seq<char>,
)
    ensures
        message.is_suffix_of(chat_question(tools, contexts, message)),
        holds_in_order(chat_question(tools, contexts, message), contexts),
        tools.len() == 0 && contexts.len() == 0 ==> chat_question(tools, contexts, message)
            == message,
        tools.len() > 0 ==> tools_prompt(tools).is_prefix_of(
            chat_question(tools, contexts, message),
        ),
{
    let q = chat_question(tools, contexts, message);
    let front = if tools.len() == 0 {
        Seq::empty()
    } else {
        tools_prompt(tools) + "\n\n"@
    };
    assert(message.is_suffix_of(q));
    if contexts.len() > 0 {
        lemma_joined_in_order(front, contexts, "\n"@, "\n\n"@ + message);
        assert(front + join(contexts, "\n"@) + ("\n\n"@ + message) =~= q);
    }
    if tools.len() > 0 {
        assert(tools_prompt(tools).is_prefix_of(q));
    }
}

/// A command is told of every tool: its name, what it does, and what it takes.
pub proof fn command_is_told_every_tool(tools: Seq<JsonView>, i: int)
    requires
        0 <= i < tools.len(),
    ensures
        holds(tools_prompt(tools), tool_line(tools[i])),
        tools[i].at("function"@).str_at("name"@) matches Some(n) ==> holds(tool_line(tools[i]), n),
        tools[i].at("function"@).str_at("description"@) matches Some(d) ==> holds(
            tool_line(tools[i]),
            d,
        ),
        holds(tool_line(tools[i]), json_written(tools[i].at("function"@).at("parameters"@))),
{
    lemma_tool_lines(tools, i);
    lemma_holds(crate::claude::tools_lead(), tool_lines(tools), crate::claude::tools_tail());
    crate::laws::parts::lemma_holds_within(
        tools_prompt(tools),
        tool_lines(tools),
        tool_line(tools[i]),
    );
    let f = tools[i].at("function"@);
    let n = crate::event::str_or(f, "name"@, "unknown"@);
    let d = crate::event::str_or(f, "description"@, ""@);
    let p = json_written(f.at("parameters"@));
    let line = tool_line(tools[i]);
    lemma_holds("- "@, n, ": "@ + d + " ("@ + p + ")\n"@);
    assert("- "@ + n + (": "@ + d + " ("@ + p + ")\n"@) =~= line);
    lemma_holds("- "@ + n + ": "@, d, " ("@ + p + ")\n"@);
    assert("- "@ + n + ": "@ + d + (" ("@ + p + ")\n"@) =~= line);
    lemma_holds("- "@ + n + ": "@ + d + " ("@, p, ")\n"@);
    assert("- "@ + n + ": "@ + d + " ("@ + p + ")\n"@ =~= line);
}

proof fn lemma_tool_lines(tools: Seq<JsonView>, i: int)
    requires
        0 <= i < tools.len(),
    ensures
        holds(tool_lines(tools), tool_line(tools[i])),
    decreases tools.len(),
{
    let rest = tool_lines(tools.drop_last());
    if i == tools.len() - 1 {
        lemma_holds(rest, tool_line(tools[i]), Seq::empty());
        assert(rest + tool_line(tools[i]) + Seq::<char>::empty() =~= tool_lines(tools));
    } else {
        lemma_tool_lines(tools.drop_last(), i);
        lemma_holds(Seq::empty(), rest, tool_line(tools.last()));
        assert(Seq::<char>::empty() + rest + tool_line(tools.last()) =~= tool_lines(tools));
        crate::laws::parts::lemma_holds_within(tool_lines(tools), rest, tool_line(tools[i]));
    }
}

/// A message is told with who says it in front of what is said.
pub proof fn message_is_told_with_its_role(m: ChatMessageView)
    ensures
        m.content.is_suffix_of(told(m)),
        m.role == "user"@ ==> told(m) == "User: "@ + m.content,
        m.role == "assistant"@ ==> told(m) == "Assistant: "@ + m.content,
        m.role == "system"@ ==> told(m) == "[System]\n"@ + m.content,
        m.role != "user"@ && m.role != "assistant"@ && m.role != "system"@ ==> m.role.is_prefix_of(
            told(m),
        ),
{
    reveal_strlit("user");
    reveal_strlit("assistant");
    reveal_strlit("system");
    assert("user"@.len() == 4 && "assistant"@.len() == 9 && "system"@.len() == 6);
    assert(m.content.is_suffix_of(told(m)));
    if m.role != "user"@ && m.role != "assistant"@ && m.role != "system"@ {
        assert(m.role.is_prefix_of(told(m)));
    }
}

} // verus!
