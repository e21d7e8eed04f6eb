//! How a talk begins, and what is made known of it while it goes on.

use crate::chat::{ChatMessageView, ChatRequestView, LlmResponseView};
use crate::chat_store::{last_n, RecordView};
use crate::json::JsonView;
use crate::laws::answers::says;
use crate::laws::parts::{lemma_more_names, lemma_names};
use crate::llm_chat::{
    after_result, all_messages, plain_body, plain_message, request_event, run_begun, system_content,
    Attempt, ChatRunView,
};
use crate::llm_config::LlmConfigView;
use crate::llm_reply::{falls_back, response_event};
use crate::llm_stream::{
    after_line, after_text, chunk_event, nothing_gathered, streamed_event, Gathered,
};
use crate::llm_text::preview;
use crate::text::{lemma_prefix_len, other_than};
use vstd::prelude::*;
use vstd::utf8::encode_utf8;

verus! {

broadcast use {vstd::string::group_string_axioms, crate::json::member_after_with};

/// A talk begins with the request as it was made and the instructions in front. Of the history only
/// the latest turns are told, two messages a turn; what is older makes no difference.
pub proof fn talk_begins(
    c: LlmConfigView,
    r: ChatRequestView,
    older: Seq<RecordView>,
    recent: Seq<RecordView>,
    drawn: nat,
)
    requires
        recent.len() <= 2 * c.max_history_turns,
        older.len() > 0 ==> recent.len() == 2 * c.max_history_turns,
    ensures
        ({
            let s = run_begun(c, r, older + recent, drawn);
            &&& s.config == c
            &&& s.request == r
            &&& s.attempt == Attempt::First
            &&& s.messages == all_messages(system_content(c, r, drawn), r, recent)
            &&& says(s.messages[0], "system"@, system_content(c, r, drawn))
        }),
{
    lemma_names();
    let n = 2 * c.max_history_turns as nat;
    assert(last_n(older + recent, n) =~= recent);
}

/// A request is announced with its model, its mode, how many tools and contexts it has and whether
/// it is streamed.
pub proof fn request_is_announced(c: LlmConfigView, r: ChatRequestView)
    requires
        r.tools.len() <= usize::MAX,
        r.contexts.len() <= usize::MAX,
    ensures
        ({
            let e = request_event(c, r);
            &&& e.topic == "llm.request"@
            &&& e.data.str_at("model"@) == Some(c.model)
            &&& e.data.str_at("mode"@) == Some("chat"@)
            &&& e.data.at("tool_count"@) matches JsonView::PosInt(n) && n == r.tools.len()
            &&& e.data.at("context_count"@) matches JsonView::PosInt(n) && n == r.contexts.len()
            &&& e.data.at("stream"@) == JsonView::Bool(r.stream)
        }),
{
    lemma_names();
    lemma_more_names();
    reveal_strlit("stream");
}

/// A plain request holds its model, every message in order, the temperature, and the limit that was
/// asked for.
pub proof fn plain_request_holds_its_messages(
    model: Seq<char>,
    messages: Seq<ChatMessageView>,
    temperature: JsonView,
    max_tokens: Option<u32>,
)
    ensures
        ({
            let b = plain_body(model, messages, temperature, max_tokens);
            &&& b.str_at("model"@) == Some(model)
            &&& b.at("temperature"@) == temperature
            &&& max_tokens matches Some(n) ==> b.at("max_tokens"@) == JsonView::PosInt(n as u64)
            &&& b.at("messages"@) matches JsonView::Arr(items) && {
                &&& items.len() == messages.len()
                &&& forall|i: int|
                    0 <= i < items.len() ==> says(
                        #[trigger] items[i],
                        messages[i].role,
                        messages[i].content,
                    )
            }
        }),
{
    lemma_names();
    lemma_more_names();
    reveal_strlit("temperature");
    reveal_strlit("max_tokens");
    reveal_strlit("messages");
    reveal_strlit("model");
    let b = plain_body(model, messages, temperature, max_tokens);
    let items = b.at("messages"@)->Arr_0;
    assert forall|i: int| 0 <= i < items.len() implies says(
        #[trigger] items[i],
        messages[i].role,
        messages[i].content,
    ) by {
        assert(items[i] == plain_message(messages[i].role, messages[i].content));
    }
}

/// An answer is announced with how it begins, with what it cost, and with how many calls it asks
/// for; a streamed one with how many pieces it came in, and as streamed.
pub proof fn answer_is_announced(r: LlmResponseView, g: Gathered)
    requires
        r.tool_calls.len() <= usize::MAX,
    ensures
        ({
            let e = response_event(r);
            &&& e.topic == "llm.response"@
            &&& e.data.str_at("content_preview"@) == Some(preview(r.content, 200, 0))
            &&& e.data.at("prompt_tokens"@) == JsonView::PosInt(r.prompt_tokens as u64)
            &&& e.data.at("completion_tokens"@) == JsonView::PosInt(r.completion_tokens as u64)
            &&& e.data.at("tool_calls_count"@) matches JsonView::PosInt(n) && n
                == r.tool_calls.len()
        }),
        ({
            let e = streamed_event(g);
            &&& e.topic == "llm.response"@
            &&& e.data.str_at("content_preview"@) == Some(preview(g.content, 200, 0))
            &&& e.data.at("prompt_tokens"@) == JsonView::PosInt(g.prompt_tokens as u64)
            &&& e.data.at("completion_tokens"@) == JsonView::PosInt(g.completion_tokens as u64)
            &&& e.data.at("chunk_count"@) == JsonView::PosInt(g.chunk_count as u64)
            &&& e.data.at("streamed"@) == JsonView::Bool(true)
        }),
{
    reveal_strlit("content_preview");
    reveal_strlit("prompt_tokens");
    reveal_strlit("completion_tokens");
    reveal_strlit("tool_calls_count");
    reveal_strlit("chunk_count");
    reveal_strlit("streamed");
    assert("content_preview"@.len() == 15);
    assert("prompt_tokens"@.len() == 13);
    assert("completion_tokens"@.len() == 17);
    assert("tool_calls_count"@.len() == 16);
    assert("chunk_count"@.len() == 11);
    assert("streamed"@.len() == 8);
}

/// A piece is announced as it came, with how many bytes there are by now.
pub proof fn piece_is_announced(piece: Seq<char>, content: Seq<char>)
    requires
        encode_utf8(content).len() <= usize::MAX,
    ensures
        chunk_event(piece, content).topic == "llm.chunk"@,
        chunk_event(piece, content).data.str_at("content"@) == Some(piece),
        chunk_event(piece, content).data.at("accumulated_length"@) matches JsonView::PosInt(n) && n
            == encode_utf8(content).len(),
{
    lemma_names();
    reveal_strlit("content");
}

/// A stream is read line by line: each line when its end has come, in order, and what is behind the
/// last end waits for its own. A stream that has just begun has brought nothing.
pub proof fn lines_are_read_one_by_one(g: Gathered, line: Seq<char>, behind: Seq<char>)
    requires
        !line.contains('\n'),
    ensures
        ({
            let (h, events) = after_line(g, line);
            let (k, left, more) = after_text(h, behind);
            after_text(g, line + seq!['\n'] + behind) == (k, left, events + more)
        }),
        after_text(g, line).0 == g,
        after_text(g, line).1 == line,
        after_text(g, line).2.len() == 0,
        nothing_gathered().content.len() == 0,
        nothing_gathered().calls.len() == 0,
        nothing_gathered().prompt_tokens == 0,
        nothing_gathered().completion_tokens == 0,
        nothing_gathered().chunk_count == 0,
{
    let t = line + seq!['\n'] + behind;
    assert forall|i: int| 0 <= i < line.len() implies other_than('\n')(#[trigger] line[i]) by {
        assert(line.contains(line[i]));
    }
    assert forall|i: int| 0 <= i < line.len() implies other_than('\n')(#[trigger] t[i]) by {
        assert(t[i] == line[i]);
    }
    assert(t[line.len() as int] == '\n');
    lemma_prefix_len(t, other_than('\n'), line.len());
    lemma_prefix_len(line, other_than('\n'), line.len());
    assert(t.take(line.len() as int) =~= line);
    assert(t.skip(line.len() as int + 1) =~= behind);
}

/// A talk is done when its result stands, and only then; what it is about stays.
pub proof fn talk_ends_with_its_result(
    s: ChatRunView,
    result: Result<LlmResponseView, Seq<char>>,
    temperature: JsonView,
)
    ensures
        ({
            let (t, step) = after_result(s, result, temperature);
            &&& t.config == s.config
            &&& t.request == s.request
            &&& t.messages == s.messages
            &&& t.attempt == Attempt::Done <==> step is Finish
            &&& s.attempt == Attempt::Done || s.attempt == Attempt::WithoutVideo ==> step is Finish
            &&& result is Ok && !falls_back(result) ==> step is Finish
        }),
{
}

} // verus!
