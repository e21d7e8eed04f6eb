//! What the small host makes of a message.

use crate::chat::ChatMessageView;
use crate::core_agent::{
    call_value, calls_name_their_chat, chat_answer, follows, follows_again, followup_text,
    reply_data, result_lines, runnable, told_pairs, told_result, Asked, ConversationStep,
    ConversationView,
};
use crate::core_llm::{
    completion_given, core_fault, last_n, of_chat, of_other_chats, offered, offered_tools, persona,
    read_raw, sent_body, told_history, told_messages, ChatRecordView, CoreFault, LlmResponseView,
    RawCall,
};
use crate::event::EventType;
use crate::json::JsonView;
use crate::laws::answers::says;
use crate::laws::parts::{
    holds, holds_in_order, lemma_alone_in_order, lemma_holds, lemma_names, lemma_order_behind,
    lemma_order_in_front,
};
use crate::laws::replies::{is_value_of, means};
use crate::text::{blank, trim};
use crate::tool::{ToolCallView, ToolResult};
use vstd::prelude::*;

verus! {

broadcast use {vstd::string::group_string_axioms, crate::json::member_after_with};

/// Whether a step answers the user of a conversation with the text: in the chat and to the source
/// that the message came from.
pub open spec fn tells(step: ConversationStep, c: ConversationView, text: Seq<char>) -> bool {
    step matches ConversationStep::Reply(e) && {
        &&& e.event_type == EventType::AssistantMessage
        &&& e.data@.str_at("text"@) == Some(text)
        &&& e.data@.str_at("source"@) == Some(c.source)
        &&& e.data@.at("chat_id"@).as_i64() == Some(c.chat_id)
    }
}

proof fn lemma_reply(chat_id: i64, text: Seq<char>, source: Seq<char>)
    ensures
        ({
            let d = reply_data(Some(chat_id), text, source);
            &&& d.str_at("text"@) == Some(text)
            &&& d.str_at("source"@) == Some(source)
            &&& d.at("chat_id"@).as_i64() == Some(chat_id)
        }),
{
    lemma_names();
}

/// What the model answers is told the user where the message came from; a refusal with its reason.
/// Its calls are run, and then nothing is told. A blank answer out of the cache is asked for once
/// more, with the same message.
pub proof fn small_host_answers(
    c: ConversationView,
    asked: Asked,
    names: Set<Seq<char>>,
    step: ConversationStep,
)
    requires
        follows(c, asked, names, step),
    ensures
        match asked {
            Asked::Unreached => step is Done,
            Asked::Refused(e) => exists|t: Seq<char>| #[trigger]
                tells(step, c, t) && e@.is_suffix_of(t),
            Asked::Answered(a) => if a.tool_calls@.len() > 0 {
                step matches ConversationStep::Run(calls)
            } else if !blank(a.content@) {
                tells(step, c, a.content@)
            } else if a.cache_hit_tokens > 0 {
                step matches ConversationStep::Again(q) && q.message@ == c.text && q.chat_id
                    == c.chat_id && q.skip_store && q.tools@.len() == 0
            } else {
                step is Done
            },
        },
{
    match asked {
        Asked::Refused(e) => {
            let t = "抱歉，出错了: "@ + e@;
            lemma_reply(c.chat_id, t, c.source);
            assert(e@.is_suffix_of(t));
            assert(tells(step, c, t));
        },
        Asked::Answered(a) => {
            lemma_reply(c.chat_id, a.content@, c.source);
            assert(a@.tool_calls.len() == a.tool_calls@.len());
            if let ConversationStep::Again(q) = step {
                assert(q@.tools.len() == q.tools@.len());
            }
        },
        _ => {},
    }
}

/// Asked once more, the model is taken at its word: what it says is told, and nothing else is.
pub proof fn second_answer_is_told(c: ConversationView, asked: Asked, step: ConversationStep)
    requires
        follows_again(c, asked, step),
    ensures
        match asked {
            Asked::Answered(a) => if blank(a.content@) {
                step is Done
            } else {
                tells(step, c, a.content@)
            },
            _ => step is Done,
        },
{
    if let Asked::Answered(a) = asked {
        lemma_reply(c.chat_id, a.content@, c.source);
    }
}

/// Whether a tool may be called.
pub open spec fn is_named(names: Set<Seq<char>>) -> spec_fn(ToolCallView) -> bool {
    |c: ToolCallView| names.contains(c.name)
}

/// Every call of a tool that may be called is run, in order, with its id and its arguments, which
/// name the chat; no other is.
pub proof fn allowed_calls_are_run(calls: Seq<ToolCallView>, names: Set<Seq<char>>, chat_id: i64)
    ensures
        ({
            let run = runnable(calls, names, chat_id);
            let kept = calls.filter(is_named(names));
            &&& run.len() == kept.len()
            &&& forall|i: int|
                0 <= i < kept.len() ==> (#[trigger] run[i]).id == kept[i].id && run[i].name
                    == kept[i].name && (kept[i].arguments.get("chat_id"@) is Some
                    ==> run[i].arguments == kept[i].arguments)
        }),
    decreases calls.len(),
{
    reveal(Seq::filter);
    if calls.len() > 0 {
        let rest = calls.drop_last();
        allowed_calls_are_run(rest, names, chat_id);
        let run = runnable(calls, names, chat_id);
        let kept = calls.filter(is_named(names));
        assert forall|i: int| 0 <= i < kept.len() implies (#[trigger] run[i]).id == kept[i].id
            && run[i].name == kept[i].name && (kept[i].arguments.get("chat_id"@) is Some
            ==> run[i].arguments == kept[i].arguments) by {
            if i < rest.filter(is_named(names)).len() {
                assert(run[i] == runnable(rest, names, chat_id)[i]);
                assert(kept[i] == rest.filter(is_named(names))[i]);
            }
        }
    }
}

/// What a tool gave back is told the model as it is; a failure with its reason, and a tool that is
/// not there by its name.
pub proof fn result_is_told(name: Seq<char>, r: ToolResult)
    ensures
        r.success ==> told_result(name, Some(r)) == r.content@,
        !r.success ==> (r.error matches Some(e) ==> e@.is_suffix_of(told_result(name, Some(r)))),
        holds(told_result(name, None), name),
{
    if !r.success {
        if let Some(e) = r.error {
            assert(e@.is_suffix_of("错误: "@ + e@));
        }
    }
    lemma_holds("工具 '"@, name, "' 未找到"@);
}

/// All the ids and results, one behind the other.
pub open spec fn ids_and_results(pairs: Seq<(Seq<char>, Seq<char>)>) -> Seq<Seq<char>>
    decreases pairs.len(),
{
    if pairs.len() == 0 {
        Seq::empty()
    } else {
        ids_and_results(pairs.drop_last()) + seq![pairs.last().0, pairs.last().1]
    }
}

proof fn lemma_result_lines(pairs: Seq<(Seq<char>, Seq<char>)>)
    ensures
        holds_in_order(result_lines(pairs), ids_and_results(pairs)),
    decreases pairs.len(),
{
    if pairs.len() > 0 {
        let rest = pairs.drop_last();
        lemma_result_lines(rest);
        let before = result_lines(rest);
        let told = ids_and_results(rest);
        let (id, r) = pairs.last();
        lemma_order_in_front(before, "["@, told);
        lemma_alone_in_order(id);
        lemma_alone_in_order(r);
        lemma_order_behind(before + "["@, told, id, seq![id], "] "@);
        lemma_order_behind(
            before + "["@ + id + "] "@,
            told + seq![id],
            r,
            seq![r],
            "\n"@,
        );
        assert(told + seq![id] + seq![r] =~= ids_and_results(pairs));
        assert(before + "["@ + id + "] "@ + r + "\n"@ =~= result_lines(pairs));
    }
}

/// The model is asked again with what the user said and with what came of each of its calls, in
/// their order, under the call's id.
pub proof fn results_are_put_to_the_model(text: Seq<char>, pairs: Seq<(Seq<char>, Seq<char>)>)
    ensures
        holds_in_order(followup_text(text, pairs), seq![text] + ids_and_results(pairs)),
{
    let none = Seq::<Seq<char>>::empty();
    let lead = "用户原始消息: "@;
    lemma_alone_in_order(text);
    assert(holds_in_order(lead, none));
    lemma_order_behind(lead, none, text, seq![text], "\n\n"@ + "工具执行结果：\n"@);
    assert(none + seq![text] =~= seq![text]);
    let front = lead + text + ("\n\n"@ + "工具执行结果：\n"@);
    lemma_result_lines(pairs);
    let lines = result_lines(pairs);
    lemma_order_behind(front, seq![text], lines, ids_and_results(pairs), Seq::empty());
    assert(front + lines + Seq::<char>::empty() =~= followup_text(text, pairs));
}

/// Each call stands with its own id beside its own result.
pub proof fn results_stand_beside_their_calls(
    calls: Seq<ToolCallView>,
    results: Seq<Option<ToolResult>>,
    i: int,
)
    requires
        0 <= i < calls.len(),
    ensures
        told_pairs(calls, results).len() == calls.len(),
        told_pairs(calls, results)[i].0 == calls[i].id,
        told_pairs(calls, results)[i].1 == told_result(calls[i].name, results[i]),
{
}

/// A question from the web is answered with what the model says and with the calls it asks for; a
/// failure with its reason.
pub proof fn question_is_answered(a: LlmResponseView, e: Seq<char>)
    ensures
        chat_answer(Ok(a)).status == 200,
        chat_answer(Ok(a)).body.str_at("content"@) == Some(a.content),
        chat_answer(Ok(a)).body.at("cache_hit_tokens"@) == JsonView::PosInt(a.cache_hit_tokens),
        chat_answer(Ok(a)).body.at("tool_calls"@) matches JsonView::Arr(items) && {
            &&& items.len() == a.tool_calls.len()
            &&& forall|i: int|
                0 <= i < items.len() ==> (#[trigger] items[i]).str_at("id"@) == Some(
                    a.tool_calls[i].id,
                ) && items[i].str_at("name"@) == Some(a.tool_calls[i].name) && items[i].at(
                    "arguments"@,
                ) == a.tool_calls[i].arguments
        },
        chat_answer(Err(e)).status == 500,
        chat_answer(Err(e)).body.str_at("error"@) == Some(e),
{
    lemma_names();
    reveal_strlit("cache_hit_tokens");
    assert("cache_hit_tokens"@.len() == 16);
    let items = chat_answer(Ok(a)).body.at("tool_calls"@)->Arr_0;
    assert forall|i: int| 0 <= i < items.len() implies (#[trigger] items[i]).str_at("id"@) == Some(
        a.tool_calls[i].id,
    ) && items[i].str_at("name"@) == Some(a.tool_calls[i].name) && items[i].at("arguments"@)
        == a.tool_calls[i].arguments by {
        assert(items[i] == call_value(a.tool_calls[i]));
    }
}

/// Whether a row is of a chat.
pub open spec fn is_in(chat_id: i64) -> spec_fn(ChatRecordView) -> bool {
    |r: ChatRecordView| r.chat_id == chat_id
}

/// Whether a row is of another chat.
pub open spec fn is_elsewhere(chat_id: i64) -> spec_fn(ChatRecordView) -> bool {
    |r: ChatRecordView| r.chat_id != chat_id
}

/// The rows of a chat are those of it and no other, in order, and clearing it leaves the rest.
pub proof fn chat_reads_its_own(rows: Seq<ChatRecordView>, chat_id: i64)
    ensures
        of_chat(rows, chat_id) == rows.filter(is_in(chat_id)),
        of_other_chats(rows, chat_id) == rows.filter(is_elsewhere(chat_id)),
    decreases rows.len(),
{
    reveal(Seq::filter);
    if rows.len() > 0 {
        chat_reads_its_own(rows.drop_last(), chat_id);
    }
}

/// The history is told row by row, each with its role and its text; without all roles only what the
/// user and the assistant said.
pub proof fn small_history_is_told(rows: Seq<ChatRecordView>, row: ChatRecordView)
    ensures
        told_history(rows.push(row), true) == told_history(rows, true).push(
            ChatMessageView { role: row.role, content: row.content },
        ),
        row.role == "user"@ || row.role == "assistant"@ ==> told_history(rows.push(row), false)
            == told_history(rows, false).push(
            ChatMessageView { role: row.role, content: row.content },
        ),
        row.role != "user"@ && row.role != "assistant"@ ==> told_history(rows.push(row), false)
            == told_history(rows, false),
        told_history(Seq::empty(), true).len() == 0,
        told_history(Seq::empty(), false).len() == 0,
{
    assert(rows.push(row).drop_last() =~= rows);
}

/// The model is told the instructions first, then the history, then the contexts, and what the user
/// says last; nothing is left out.
pub proof fn small_messages_are_in_order(
    prompt: Seq<char>,
    history: Seq<ChatMessageView>,
    contexts: Seq<Seq<char>>,
    message: Seq<char>,
    i: int,
)
    ensures
        ({
            let m = told_messages(prompt, history, contexts, message);
            &&& m.len() == history.len() + contexts.len() + 2
            &&& m[0].role == "system"@ && m[0].content == prompt
            &&& 0 <= i < history.len() ==> m[1 + i] == history[i]
            &&& 0 <= i < contexts.len() ==> m[1 + history.len() + i].role == "assistant"@ && m[1
                + history.len() + i].content == contexts[i]
            &&& m.last().role == "user"@ && m.last().content == message
        }),
{
}

/// What is sent holds the model and every message, in order.
pub proof fn small_body_holds_the_messages(
    model: Seq<char>,
    messages: Seq<ChatMessageView>,
    json_mode: bool,
)
    ensures
        ({
            let b = sent_body(model, messages, json_mode);
            &&& b.str_at("model"@) == Some(model)
            &&& b.at("max_tokens"@) == JsonView::PosInt(2048)
            &&& b.at("messages"@) matches JsonView::Arr(items) && {
                &&& items.len() == messages.len()
                &&& forall|i: int|
                    0 <= i < items.len() ==> says(
                        #[trigger] items[i],
                        messages[i].role,
                        messages[i].content,
                    )
            }
            &&& json_mode ==> b.at("response_format"@).str_at("type"@) == Some("json_object"@)
            &&& !json_mode ==> b.get("response_format"@) is None
        }),
{
    lemma_names();
    reveal_strlit("response_format");
    assert("response_format"@.len() == 15);
    let b = sent_body(model, messages, json_mode);
    let items = b.at("messages"@)->Arr_0;
    assert forall|i: int| 0 <= i < items.len() implies says(
        #[trigger] items[i],
        messages[i].role,
        messages[i].content,
    ) by {
        assert(items[i] == crate::core_llm::sent_message(messages[i]));
    }
}

/// A reply is understood as it is given: its text and what of it came out of the cache; one that is
/// no success, no JSON or has no text is a failure.
pub proof fn small_reply_is_understood(
    status: Seq<char>,
    text: Seq<char>,
    b: JsonView,
    content: Seq<char>,
    hit: u64,
    e: Seq<char>,
)
    ensures
        completion_given(false, status, text, Ok(b)) matches Err(t) && holds(t, text)
            && status.is_suffix_of(t),
        completion_given(true, status, text, Err(e)) matches Err(t) && e.is_suffix_of(t),
        b.at("choices"@).item(0).at("message"@).str_at("content"@) is None ==> completion_given(
            true,
            status,
            text,
            Ok(b),
        ) is Err,
        b.at("choices"@).item(0).at("message"@).str_at("content"@) == Some(content) && b.at(
            "usage"@,
        ).at("prompt_cache_hit_tokens"@) == JsonView::PosInt(hit) ==> (completion_given(
            true,
            status,
            text,
            Ok(b),
        ) matches Ok(a) && a.content == content && a.cache_hit_tokens == hit
            && a.tool_calls.len() == 0),
{
    let t = "API 错误 ("@ + text + "): "@ + status;
    lemma_holds("API 错误 ("@, text, "): "@ + status);
    assert("API 错误 ("@ + text + ("): "@ + status) =~= t);
    assert(status.is_suffix_of(t));
    assert(e.is_suffix_of("解析响应失败: "@ + e));
}

/// A call that the service tells of is read with its id, its name and the value of its arguments.
pub proof fn raw_call_is_understood(c: RawCall)
    ensures
        read_raw(c).id == c.id@,
        read_raw(c).name == c.name@,
        means(read_raw(c).arguments, c.arguments@),
{
    let text = c.arguments@;
    if crate::json::json_read(text) is Some {
        assert(is_value_of(crate::json::json_read(text)->0, text));
    }
}

/// Every tool that has a name is offered, in order, with what it does and what it takes.
pub proof fn tools_are_offered(tools: Seq<JsonView>, tool: JsonView)
    ensures
        tool.at("function"@).str_at("name"@) matches Some(n) ==> {
            let after = offered_tools(tools.push(tool));
            &&& after.len() == offered_tools(tools).len() + 1
            &&& after.drop_last() == offered_tools(tools)
            &&& after.last().name == n
            &&& tool.at("function"@).str_at("description"@) matches Some(d)
                ==> after.last().description == d
            &&& after.last().parameters == tool.at("function"@).get("parameters"@)
        },
        tool.at("function"@).str_at("name"@) is None ==> offered_tools(tools.push(tool))
            == offered_tools(tools),
{
    lemma_names();
    assert(tools.push(tool).drop_last() =~= tools);
    if let Some(t) = offered(tool) {
        assert(offered_tools(tools).push(t).drop_last() =~= offered_tools(tools));
    }
}

/// A model that was not reached is reported with the reason; a persona is the text of its file.
pub proof fn small_faults_say_why(fault: CoreFault, reason: Seq<char>)
    ensures
        reason.is_suffix_of(core_fault(fault, reason)),
        persona(Some(reason)) == if blank(reason) {
            None
        } else {
            Some(trim(reason))
        },
        persona(None) is None,
{
    assert(reason.is_suffix_of(core_fault(fault, reason)));
}

/// The calls that are run name the chat of the message where they name none themselves.
pub proof fn run_calls_name_the_chat(calls: Seq<ToolCallView>, names: Set<Seq<char>>, chat_id: i64)
    ensures
        ({
            let run = runnable(calls, names, chat_id);
            let kept = calls.filter(is_named(names));
            &&& run.len() == kept.len()
            &&& forall|i: int|
                0 <= i < kept.len() && (#[trigger] kept[i]).arguments is Obj
                    && kept[i].arguments.get("chat_id"@) is None ==> run[i].arguments.at("chat_id"@)
                    == JsonView::integer(chat_id as int)
        }),
    decreases calls.len(),
{
    reveal(Seq::filter);
    if calls.len() > 0 {
        let rest = calls.drop_last();
        run_calls_name_the_chat(rest, names, chat_id);
        let run = runnable(calls, names, chat_id);
        let kept = calls.filter(is_named(names));
        assert forall|i: int|
            0 <= i < kept.len() && (#[trigger] kept[i]).arguments is Obj
                && kept[i].arguments.get("chat_id"@) is None implies run[i].arguments.at("chat_id"@)
            == JsonView::integer(chat_id as int) by {
            if i < rest.filter(is_named(names)).len() {
                assert(run[i] == runnable(rest, names, chat_id)[i]);
                assert(kept[i] == rest.filter(is_named(names))[i]);
            } else {
                calls_name_their_chat(kept[i].arguments->Obj_0, chat_id);
            }
        }
    }
}

/// The latest rows are the last ones, in order, as many as are asked for and there.
pub proof fn latest_rows_are_taken<T>(rows: Seq<T>, n: nat, i: int)
    ensures
        last_n(rows, n).len() == if n < rows.len() {
            n
        } else {
            rows.len()
        },
        0 <= i < last_n(rows, n).len() ==> last_n(rows, n)[i] == rows[rows.len() - last_n(
            rows,
            n,
        ).len() + i],
{
}

} // verus!
