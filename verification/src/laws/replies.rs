//! What is understood of the model's answer.

use crate::chat::LlmResponseView;
use crate::json::{json_read, json_written, JsonView};
use crate::laws::answers::{calls_are_written_out, writes_call};
use crate::laws::parts::{holds, lemma_holds, lemma_names};
use crate::llm_reply::{
    body_response, error_event, falls_back, fault_text, read_call, read_calls, refusal_text,
    LlmFault,
};
use crate::llm_stream::{
    after_data, after_line, begun_id, data_events, final_call, final_calls, final_response,
    with_call_item, with_call_items, Gathered, PartialView,
};
use crate::pipeline::calls_message;
use crate::text::{blank, lemma_trim_blank, trim};
use crate::tool::ToolCallView;
use vstd::prelude::*;

verus! {

broadcast use {vstd::string::group_string_axioms, crate::json::member_after_with};

/// Whether an item of an answer asks for a call, with its arguments as text.
pub open spec fn asks(item: JsonView, id: Seq<char>, name: Seq<char>, text: Seq<char>) -> bool {
    &&& item.str_at("id"@) == Some(id)
    &&& item.at("function"@).str_at("name"@) == Some(name)
    &&& item.at("function"@).str_at("arguments"@) == Some(text)
}

/// Whether arguments are what their text says: the value that it is the text of, and null only
/// where it is not JSON.
pub open spec fn means(arguments: JsonView, text: Seq<char>) -> bool {
    &&& forall|v: JsonView| #[trigger] is_value_of(v, text) ==> arguments == v
    &&& (forall|v: JsonView| !#[trigger] is_value_of(v, text)) ==> arguments is Null
}

/// Whether a text reads as a value.
pub open spec fn is_value_of(v: JsonView, text: Seq<char>) -> bool {
    json_read(text) == Some(v)
}

/// A call is understood as it is asked for: with its id, its name, and the value that its arguments
/// are the text of.
pub proof fn call_is_understood(item: JsonView, id: Seq<char>, name: Seq<char>, text: Seq<char>)
    requires
        asks(item, id, name, text),
    ensures
        read_call(item) matches Some(c) && c.id == id && c.name == name && means(c.arguments, text),
{
    if json_read(text) is Some {
        assert(is_value_of(json_read(text)->0, text));
    }
}

/// An item without an id, a name or arguments asks for no call.
pub proof fn broken_call_is_not_made(item: JsonView)
    requires
        item.str_at("id"@) is None || item.at("function"@).str_at("name"@) is None || item.at(
            "function"@,
        ).str_at("arguments"@) is None,
    ensures
        read_call(item) is None,
{
}

/// A call that was written is read back with the same id, the same name and the same arguments,
/// wherever the text of the arguments reads as the arguments.
pub proof fn written_call_is_read_back(item: JsonView, c: ToolCallView)
    requires
        writes_call(item, c),
    ensures
        read_call(item) matches Some(d) && d.id == c.id && d.name == c.name && (is_value_of(
            c.arguments,
            json_written(c.arguments),
        ) ==> d == c),
{
    call_is_understood(item, c.id, c.name, json_written(c.arguments));
}

/// Every call that an answer asks for is understood, in its order, and no other is made up.
pub proof fn every_call_is_understood(items: Seq<JsonView>)
    requires
        forall|i: int| 0 <= i < items.len() ==> read_call(#[trigger] items[i]) is Some,
    ensures
        read_calls(items).len() == items.len(),
        forall|i: int|
            0 <= i < items.len() ==> Some(#[trigger] read_calls(items)[i]) == read_call(items[i]),
    decreases items.len(),
{
    if items.len() > 0 {
        let rest = items.drop_last();
        assert forall|i: int| 0 <= i < rest.len() implies read_call(#[trigger] rest[i]) is Some by {
            assert(rest[i] == items[i]);
        }
        every_call_is_understood(rest);
        assert(read_call(items[items.len() - 1]) is Some);
        assert forall|i: int| 0 <= i < items.len() implies Some(#[trigger] read_calls(items)[i])
            == read_call(items[i]) by {
            if i < rest.len() {
                assert(read_calls(items)[i] == read_calls(rest)[i]);
                assert(rest[i] == items[i]);
            }
        }
    }
}

/// The message that lists calls is understood as those calls.
pub proof fn listed_calls_are_read_back(calls: Seq<ToolCallView>)
    ensures
        ({
            let back = read_calls(calls_message(calls).at("tool_calls"@)->Arr_0);
            &&& back.len() == calls.len()
            &&& forall|i: int|
                0 <= i < calls.len() ==> (#[trigger] back[i]).id == calls[i].id && back[i].name
                    == calls[i].name
            &&& forall|i: int|
                0 <= i < calls.len() && is_value_of(
                    calls[i].arguments,
                    json_written(calls[i].arguments),
                ) ==> #[trigger] back[i] == calls[i]
        }),
{
    let m = calls_message(calls);
    calls_are_written_out(calls, arbitrary(), Seq::empty());
    let items = m.at("tool_calls"@)->Arr_0;
    assert forall|i: int| 0 <= i < items.len() implies read_call(#[trigger] items[i]) is Some by {
        written_call_is_read_back(items[i], calls[i]);
    }
    every_call_is_understood(items);
    let back = read_calls(items);
    assert forall|i: int| 0 <= i < calls.len() implies (#[trigger] back[i]).id == calls[i].id
        && back[i].name == calls[i].name by {
        written_call_is_read_back(items[i], calls[i]);
    }
    assert forall|i: int|
        0 <= i < calls.len() && is_value_of(
            calls[i].arguments,
            json_written(calls[i].arguments),
        ) implies #[trigger] back[i] == calls[i] by {
        written_call_is_read_back(items[i], calls[i]);
    }
}

/// Whether an answer in one piece says the content, by the model.
pub open spec fn is_answer(body: JsonView, content: Seq<char>, model: Seq<char>) -> bool {
    &&& body.at("choices"@).item(0).at("message"@).str_at("content"@) == Some(content)
    &&& body.str_at("model"@) == Some(model)
}

/// An answer in one piece is understood as it is given: its text, its model, its calls, and what it
/// has cost.
pub proof fn answer_is_understood(
    body: JsonView,
    content: Seq<char>,
    model: Seq<char>,
    prompt: u32,
    completion: u32,
    hit: u32,
    miss: u32,
)
    requires
        is_answer(body, content, model),
        body.at("usage"@).at("prompt_tokens"@) == JsonView::PosInt(prompt as u64),
        body.at("usage"@).at("completion_tokens"@) == JsonView::PosInt(completion as u64),
        body.at("usage"@).at("prompt_cache_hit_tokens"@) == JsonView::PosInt(hit as u64),
        body.at("usage"@).at("prompt_cache_miss_tokens"@) == JsonView::PosInt(miss as u64),
    ensures
        ({
            let r = body_response(body);
            &&& r.content == content
            &&& r.model == model
            &&& r.prompt_tokens == prompt
            &&& r.completion_tokens == completion
            &&& r.prompt_cache_hit_tokens == hit
            &&& r.prompt_cache_miss_tokens == miss
            &&& body.at("choices"@).item(0).at("message"@).at("tool_calls"@) matches JsonView::Arr(
                items,
            ) ==> r.tool_calls == read_calls(items)
            &&& body.at("choices"@).item(0).at("message"@).get("tool_calls"@) is None
                ==> r.tool_calls.len() == 0
        }),
{
}

/// What an answer does not hold is empty, and what it does not report has cost nothing.
pub proof fn missing_parts_are_empty(body: JsonView)
    ensures
        body.at("choices"@).item(0).at("message"@).str_at("content"@) is None ==> body_response(
            body,
        ).content.len() == 0,
        body.str_at("model"@) is None ==> body_response(body).model.len() == 0,
        body.get("usage"@) is None ==> body_response(body).prompt_tokens == 0 && body_response(
            body,
        ).completion_tokens == 0,
{
    reveal_strlit("");
    lemma_names();
}

/// A refusal is reported with its status and with what the model says of it; a fault with its
/// reason.
pub proof fn failures_are_reported(status: u16, body: JsonView, fault: LlmFault, reason: Seq<char>)
    ensures
        holds(refusal_text(status, body), crate::numbers::decimal(status as nat)),
        body.at("error"@).str_at("message"@) matches Some(m) ==> m.is_suffix_of(
            refusal_text(status, body),
        ),
        reason.is_suffix_of(fault_text(fault, reason)),
        error_event(reason).topic == "llm.error"@,
        error_event(reason).data.str_at("error"@) == Some(reason),
{
    lemma_names();
    let m = match body.at("error"@).str_at("message"@) {
        Some(m) => m,
        None => "unknown error"@,
    };
    let t = refusal_text(status, body);
    let n = crate::numbers::decimal(status as nat);
    lemma_holds("LLM API error ("@, n, "): "@ + m);
    assert("LLM API error ("@ + n + ("): "@ + m) =~= t);
    assert(m.is_suffix_of(t));
    assert(reason.is_suffix_of(fault_text(fault, reason)));
}

/// The model is taken to have failed at a picture where it fails, and where it answers with no call
/// and no more than one character; an answer with a call, or with two characters that are not white
/// space, stands.
pub proof fn answer_that_says_something_stands(r: LlmResponseView, reason: Seq<char>)
    ensures
        falls_back(Err(reason)),
        r.tool_calls.len() > 0 ==> !falls_back(Ok(r)),
        r.tool_calls.len() == 0 && blank(r.content) ==> falls_back(Ok(r)),
        r.tool_calls.len() == 0 && r.content.len() <= 1 ==> falls_back(Ok(r)),
        forall|i: int, j: int|
            0 <= i < j < r.content.len() && !crate::text::is_white(#[trigger] r.content[i])
                && !crate::text::is_white(#[trigger] r.content[j]) ==> !falls_back(Ok(r)),
{
    let s = r.content;
    lemma_trim_blank(s);
    crate::text::lemma_trim_ends(s);
    let w = crate::text::white();
    let front = crate::text::prefix_len(s, w) as int;
    crate::text::lemma_prefix_len_holds(s, w);
    let t = crate::text::trim_start(s);
    crate::text::lemma_suffix_len_holds(t, w);
    let back = crate::text::suffix_len(t, w) as int;
    assert forall|i: int, j: int|
        0 <= i < j < s.len() && !crate::text::is_white(#[trigger] s[i]) && !crate::text::is_white(
            #[trigger] s[j],
        ) implies !falls_back(Ok(r)) by {
        if i < front {
            assert(w(s[i]));
        }
        if j - front >= t.len() - back {
            assert(w(t[j - front]));
            assert(t[j - front] == s[j]);
        }
        assert(trim(s).len() == t.len() - back);
    }
}

/// An answer that streams in is gathered in order: each piece of text is put behind the text so far
/// and is passed on, once.
pub proof fn streamed_text_is_gathered(g: Gathered, data: JsonView, piece: Seq<char>)
    requires
        data.at("choices"@).item(0).at("delta"@).str_at("content"@) == Some(piece),
    ensures
        after_data(g, data).content == g.content + piece,
        after_data(g, data).chunk_count == g.chunk_count + 1,
        data_events(g, data).len() == 1,
        data_events(g, data)[0].topic == "llm.chunk"@,
        data_events(g, data)[0].data.str_at("content"@) == Some(piece),
        final_response(after_data(g, data)).content == g.content + piece,
{
    lemma_names();
}

/// A message without text leaves the text as it is and passes nothing on.
pub proof fn other_messages_leave_the_text(g: Gathered, data: JsonView)
    requires
        data.at("choices"@).item(0).at("delta"@).str_at("content"@) is None,
    ensures
        after_data(g, data).content == g.content,
        data_events(g, data).len() == 0,
{
}

/// What a stream reports of its cost and its model is what the answer has.
pub proof fn streamed_cost_is_kept(g: Gathered, data: JsonView, prompt: u32, completion: u32)
    ensures
        prompt > 0 && data.at("usage"@).at("prompt_tokens"@) == JsonView::PosInt(prompt as u64)
            && data.at("usage"@).at("completion_tokens"@) == JsonView::PosInt(completion as u64)
            ==> {
            &&& final_response(after_data(g, data)).prompt_tokens == prompt
            &&& final_response(after_data(g, data)).completion_tokens == completion
        },
        data.get("usage"@) is None ==> {
            &&& final_response(after_data(g, data)).prompt_tokens == g.prompt_tokens
            &&& final_response(after_data(g, data)).completion_tokens == g.completion_tokens
        },
        g.model.len() == 0 ==> (data.str_at("model"@) matches Some(m) ==> final_response(
            after_data(g, data),
        ).model == m),
        g.model.len() > 0 ==> final_response(after_data(g, data)).model == g.model,
{
    lemma_names();
}

/// A line of a stream counts where it is JSON behind `data: `.
pub proof fn line_is_read(g: Gathered, text: Seq<char>, data: JsonView)
    requires
        is_value_of(data, text),
        trim("data: "@ + text) == "data: "@ + text,
        text != "[DONE]"@,
    ensures
        after_line(g, "data: "@ + text).0 == after_data(g, data),
        after_line(g, "data: "@ + text).1 == data_events(g, data),
{
    let line = "data: "@ + text;
    reveal_strlit("data: ");
    reveal_strlit("[DONE]");
    reveal_strlit("data: [DONE]");
    assert(line.skip("data: "@.len() as int) =~= text);
    assert("data: "@.is_prefix_of(line));
    if line == "data: [DONE]"@ {
        assert(text =~= "[DONE]"@);
    }
}

/// The parts of a call that come in one after the other are put together: the name, and the text
/// of the arguments.
pub proof fn parts_of_a_call_are_joined(
    calls: Seq<PartialView>,
    first: JsonView,
    second: JsonView,
    id: Seq<char>,
    name: Seq<char>,
    a: Seq<char>,
    b: Seq<char>,
)
    requires
        asks(first, id, name, a),
        id.len() > 0,
        second.str_at("id"@) is None,
        second.at("function"@).str_at("name"@) is None,
        second.at("function"@).str_at("arguments"@) == Some(b),
    ensures
        ({
            let after = with_call_items(calls, seq![first, second]);
            let c = final_call(after.last());
            &&& after.len() == calls.len() + 1
            &&& after.drop_last() == calls
            &&& c.id == id
            &&& c.name == name
            &&& means(c.arguments, a + b)
        }),
{
    let items = seq![first, second];
    assert(items.drop_last() =~= seq![first]);
    assert(seq![first].drop_last() =~= Seq::<JsonView>::empty());
    let one = with_call_item(calls, first);
    assert(with_call_items(calls, seq![first]) == one) by {
        assert(with_call_items(calls, Seq::empty()) == calls);
    }
    let two = with_call_item(one, second);
    assert(one.drop_last() =~= calls);
    assert(two.drop_last() =~= calls);
    assert(two.last().arguments =~= a + b);
    assert(two.last().name =~= name);
    if json_read(a + b) is Some {
        assert(is_value_of(json_read(a + b)->0, a + b));
    }
}

/// Calls that stream in are understood as they are where they come in one piece.
pub proof fn streamed_calls_are_the_same(g: Gathered, items: Seq<JsonView>)
    requires
        g.calls == with_call_items(Seq::empty(), items),
        forall|i: int|
            0 <= i < items.len() ==> begun_id(#[trigger] items[i]) is Some && read_call(items[i])
                is Some,
    ensures
        final_response(g).tool_calls == read_calls(items),
{
    lemma_same_calls(items);
    every_call_is_understood(items);
    assert(final_calls(g) =~= read_calls(items));
}

proof fn lemma_same_calls(items: Seq<JsonView>)
    requires
        forall|i: int|
            0 <= i < items.len() ==> begun_id(#[trigger] items[i]) is Some && read_call(items[i])
                is Some,
    ensures
        with_call_items(Seq::empty(), items).len() == items.len(),
        forall|i: int|
            0 <= i < items.len() ==> Some(
                final_call(#[trigger] with_call_items(Seq::empty(), items)[i]),
            ) == read_call(items[i]),
    decreases items.len(),
{
    if items.len() > 0 {
        let rest = items.drop_last();
        assert forall|i: int| 0 <= i < rest.len() implies begun_id(#[trigger] rest[i]) is Some
            && read_call(rest[i]) is Some by {
            assert(rest[i] == items[i]);
        }
        lemma_same_calls(rest);
        let before = with_call_items(Seq::empty(), rest);
        let after = with_call_items(Seq::empty(), items);
        let last = items[items.len() - 1];
        assert(begun_id(last) is Some);
        assert forall|i: int| 0 <= i < items.len() implies Some(final_call(#[trigger] after[i]))
            == read_call(items[i]) by {
            if i < rest.len() {
                assert(after[i] == before[i]);
                assert(rest[i] == items[i]);
            } else {
                let name = last.at("function"@).str_at("name"@)->0;
                let text = last.at("function"@).str_at("arguments"@)->0;
                assert(after[i].name =~= name);
                assert(after[i].arguments =~= text);
            }
        }
    }
}

/// What a stream reports of its cache is what the answer has.
pub proof fn streamed_cache_is_kept(g: Gathered, data: JsonView, prompt: u32, hit: u32, miss: u32)
    requires
        prompt > 0,
        data.at("usage"@).at("prompt_tokens"@) == JsonView::PosInt(prompt as u64),
    ensures
        data.at("usage"@).at("prompt_cache_hit_tokens"@) == JsonView::PosInt(hit as u64)
            ==> final_response(after_data(g, data)).prompt_cache_hit_tokens == hit,
        data.at("usage"@).at("prompt_cache_miss_tokens"@) == JsonView::PosInt(miss as u64)
            ==> final_response(after_data(g, data)).prompt_cache_miss_tokens == miss,
        data.at("usage"@).get("prompt_cache_hit_tokens"@) is None ==> final_response(
            after_data(g, data),
        ).prompt_cache_hit_tokens == 0,
        data.at("usage"@).get("prompt_cache_miss_tokens"@) is None ==> final_response(
            after_data(g, data),
        ).prompt_cache_miss_tokens == 0,
{
    lemma_names();
}

/// The parts of calls that a message brings are taken in behind those before it; a message without
/// such parts leaves the calls as they are.
pub proof fn streamed_parts_are_taken_in(g: Gathered, data: JsonView, items: Seq<JsonView>)
    ensures
        ({
            let parts = data.at("choices"@).item(0).at("delta"@).at("tool_calls"@);
            &&& parts == JsonView::Arr(items) ==> after_data(g, data).calls == with_call_items(
                g.calls,
                items,
            )
            &&& !(parts is Arr) ==> after_data(g, data).calls == g.calls
        }),
{
}

} // verus!
