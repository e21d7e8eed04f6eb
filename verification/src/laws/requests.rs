//! What the model is sent.

use crate::chat::{ChatRequestView, LlmResponseView};
use crate::chat_store::RecordView;
use crate::effect::EffectView;
use crate::json::{json_read, json_written, JsonView};
use crate::laws::answers::{calls_are_written_out, gives_result, is_text_of, lists_calls, says};
use crate::laws::parts::{holds, lemma_holds, lemma_names};
use crate::llm_chat::{
    after_result, all_messages, call_messages, call_of, calls_seen, context_messages,
    history_messages, plain_message, route, stored, system_content, user_content, user_messages,
    ChatRunView, RouteView, RunStepView,
};
use crate::llm_config::LlmConfigView;
use crate::pipeline::{result_at, result_message, store_effect};
use crate::text::blank;
use crate::tool::ToolCallView;
use vstd::prelude::*;

verus! {

broadcast use {vstd::string::group_string_axioms, crate::json::member_after_with};

/// Whether the message at place `k` lists the calls and the ones behind it give their results, in
/// the order of the calls.
pub open spec fn hands_over(
    m: Seq<JsonView>,
    k: int,
    calls: Seq<ToolCallView>,
    results: Seq<Seq<char>>,
) -> bool {
    &&& 0 <= k
    &&& k + calls.len() < m.len()
    &&& lists_calls(m[k], calls)
    &&& forall|i: int, j: int|
        #![trigger calls[i], m[j]]
        0 <= i < calls.len() && j == k + 1 + i ==> gives_result(m[j], calls[i], results[i])
}

/// What the model has asked for and what came of it is sent to it: behind one message that lists
/// all the calls stands, for each of them in their order, the message with its result.
pub proof fn results_are_handed_over(
    system: Seq<char>,
    r: ChatRequestView,
    records: Seq<RecordView>,
)
    requires
        r.assistant_tool_calls.len() > 0,
        r.tool_results.len() == r.assistant_tool_calls.len(),
    ensures
        exists|k: int| #[trigger]
            hands_over(
                all_messages(system, r, records),
                k,
                r.assistant_tool_calls,
                r.tool_results,
            ),
{
    let m = all_messages(system, r, records);
    let calls = r.assistant_tool_calls;
    let results = r.tool_results;
    let front = seq![plain_message("system"@, system)] + context_messages(r.contexts, true)
        + history_messages(records) + context_messages(r.contexts, false);
    let middle = call_messages(calls, results);
    let k = front.len() as int;
    assert(m =~= front + middle + user_messages(r));
    assert(m[k] == middle[0]);
    calls_are_written_out(calls, calls[0], results[0]);
    assert forall|i: int, j: int|
        #![trigger calls[i], m[j]]
        0 <= i < calls.len() && j == k + 1 + i implies gives_result(m[j], calls[i], results[i]) by {
        assert(m[j] == middle[1 + i]);
        assert(middle[1 + i] == result_message(calls[i], result_at(results, i)));
        calls_are_written_out(calls, calls[i], results[i]);
    }
    assert(hands_over(m, k, calls, results));
}

/// Whether a context is a memory.
pub open spec fn is_memory(c: Seq<char>) -> bool {
    "[记忆]"@.is_prefix_of(c)
}

/// Whether the messages from place `k` on say the texts, in order, in the role.
pub open spec fn says_each(
    m: Seq<JsonView>,
    k: int,
    role: Seq<char>,
    texts: Seq<Seq<char>>,
) -> bool {
    &&& 0 <= k
    &&& k + texts.len() <= m.len()
    &&& forall|i: int, j: int|
        #![trigger texts[i], m[j]]
        0 <= i < texts.len() && j == k + i ==> says(m[j], role, texts[i])
}

proof fn lemma_contexts(contexts: Seq<Seq<char>>, memories: bool)
    ensures
        ({
            let told = contexts.filter(|c: Seq<char>| is_memory(c) == memories);
            &&& context_messages(contexts, memories).len() == told.len()
            &&& says_each(context_messages(contexts, memories), 0, "assistant"@, told)
        }),
    decreases contexts.len(),
{
    reveal(Seq::filter);
    lemma_names();
    if contexts.len() > 0 {
        let rest = contexts.drop_last();
        lemma_contexts(rest, memories);
        let f = |c: Seq<char>| is_memory(c) == memories;
        let told = contexts.filter(f);
        let m = context_messages(contexts, memories);
        let before = context_messages(rest, memories);
        assert forall|i: int, j: int|
            #![trigger told[i], m[j]]
            0 <= i < told.len() && j == 0 + i implies says(m[j], "assistant"@, told[i]) by {
            if f(contexts.last()) && i == told.len() - 1 {
                assert(m[i] == plain_message("assistant"@, contexts.last()));
            } else {
                assert(told[i] == rest.filter(f)[i]);
                assert(m[i] == before[i]);
            }
        }
    }
}

/// The instructions stand before everything else. Behind them come the memories, the history, the
/// other contexts, and the calls with their results; what the user says stands at the end. Nothing
/// is left out and nothing is there twice.
pub proof fn messages_are_in_order(
    system: Seq<char>,
    r: ChatRequestView,
    records: Seq<RecordView>,
)
    ensures
        ({
            let m = all_messages(system, r, records);
            let memories = r.contexts.filter(|c: Seq<char>| is_memory(c) == true);
            let others = r.contexts.filter(|c: Seq<char>| is_memory(c) == false);
            let h = history_messages(records);
            let n = r.assistant_tool_calls.len();
            let at = 1 + memories.len() + h.len() + others.len();
            let user = r.message.len() > 0 || n == 0;
            &&& m.len() == at + (if n > 0 {
                n + 1
            } else {
                0
            }) + (if user {
                1int
            } else {
                0int
            })
            &&& says(m[0], "system"@, system)
            &&& says_each(m, 1, "assistant"@, memories)
            &&& m.subrange(1 + memories.len() as int, (1 + memories.len() + h.len()) as int) == h
            &&& says_each(m, (1 + memories.len() + h.len()) as int, "assistant"@, others)
            &&& n > 0 && r.tool_results.len() == n ==> hands_over(
                m,
                at as int,
                r.assistant_tool_calls,
                r.tool_results,
            )
            &&& user ==> m.last().str_at("role"@) == Some("user"@)
        }),
{
    lemma_names();
    let m = all_messages(system, r, records);
    let calls = r.assistant_tool_calls;
    let results = r.tool_results;
    let memories = r.contexts.filter(|c: Seq<char>| is_memory(c) == true);
    let others = r.contexts.filter(|c: Seq<char>| is_memory(c) == false);
    let h = history_messages(records);
    lemma_contexts(r.contexts, true);
    lemma_contexts(r.contexts, false);
    let a = context_messages(r.contexts, true);
    let b = context_messages(r.contexts, false);
    let first = seq![plain_message("system"@, system)];
    let middle = call_messages(calls, results);
    assert(m[0] == first[0]);
    assert forall|i: int, j: int|
        #![trigger memories[i], m[j]]
        0 <= i < memories.len() && j == 1 + i implies says(m[j], "assistant"@, memories[i]) by {
        assert(m[j] == a[i]);
    }
    assert(m.subrange(1 + memories.len() as int, (1 + memories.len() + h.len()) as int) =~= h);
    let k = (1 + memories.len() + h.len()) as int;
    assert forall|i: int, j: int|
        #![trigger others[i], m[j]]
        0 <= i < others.len() && j == k + i implies says(m[j], "assistant"@, others[i]) by {
        assert(m[j] == b[i]);
    }
    let at = k + others.len();
    if calls.len() > 0 && results.len() == calls.len() {
        assert(m[at] == middle[0]);
        calls_are_written_out(calls, calls[0], results[0]);
        assert forall|i: int, j: int|
            #![trigger calls[i], m[j]]
            0 <= i < calls.len() && j == at + 1 + i implies gives_result(
            m[j],
            calls[i],
            results[i],
        ) by {
            assert(m[j] == middle[1 + i]);
            assert(middle[1 + i] == result_message(calls[i], result_at(results, i)));
            calls_are_written_out(calls, calls[i], results[i]);
        }
    }
}

/// What the user says is sent as it was said where it comes alone.
pub proof fn words_are_sent_as_said(system: Seq<char>, r: ChatRequestView, records: Seq<RecordView>)
    requires
        r.message.len() > 0 || r.assistant_tool_calls.len() == 0,
        r.image_base64 is None,
        r.video_base64 is None || r.video_mime is None,
        r.file_base64 is None || r.file_name is None,
    ensures
        says(all_messages(system, r, records).last(), "user"@, r.message),
{
    lemma_names();
}

/// A picture is sent beside what the user says of it, and the picture goes before a film and a
/// file.
pub proof fn picture_is_sent(
    system: Seq<char>,
    r: ChatRequestView,
    records: Seq<RecordView>,
    picture: Seq<char>,
)
    requires
        r.message.len() > 0 || r.assistant_tool_calls.len() == 0,
        r.image_base64 == Some(picture),
    ensures
        ({
            let m = all_messages(system, r, records).last();
            &&& m.str_at("role"@) == Some("user"@)
            &&& m.at("content"@) matches JsonView::Arr(items) && {
                &&& items.len() == 2
                &&& items[0].str_at("type"@) == Some("text"@)
                &&& items[0].str_at("text"@) == Some(r.message)
                &&& items[1].str_at("type"@) == Some("image_url"@)
                &&& items[1].at("image_url"@).str_at("url"@) == Some(
                    "data:image/jpeg;base64,"@ + picture,
                )
            }
        }),
{
    lemma_names();
}

/// A film is sent, with its kind, beside what the user says of it.
pub proof fn film_is_sent(
    system: Seq<char>,
    r: ChatRequestView,
    records: Seq<RecordView>,
    film: Seq<char>,
    mime: Seq<char>,
)
    requires
        r.message.len() > 0 || r.assistant_tool_calls.len() == 0,
        r.image_base64 is None,
        r.video_base64 == Some(film),
        r.video_mime == Some(mime),
    ensures
        ({
            let m = all_messages(system, r, records).last();
            &&& m.str_at("role"@) == Some("user"@)
            &&& m.at("content"@) matches JsonView::Arr(items) && {
                &&& items.len() == 2
                &&& items[0].str_at("type"@) == Some("video_url"@)
                &&& items[0].at("video_url"@).str_at("url"@) == Some(
                    "data:"@ + mime + ";base64,"@ + film,
                )
                &&& items[0].at("fps"@) == JsonView::PosInt(2)
                &&& items[0].str_at("media_resolution"@) == Some("default"@)
                &&& items[1].str_at("type"@) == Some("text"@)
                &&& items[1].str_at("text"@) == Some(r.message)
            }
        }),
{
    lemma_names();
}

/// Of a file the model is told the name, behind what the user says of it.
pub proof fn file_is_named(
    system: Seq<char>,
    r: ChatRequestView,
    records: Seq<RecordView>,
    name: Seq<char>,
)
    requires
        r.message.len() > 0 || r.assistant_tool_calls.len() == 0,
        r.image_base64 is None,
        r.video_base64 is None || r.video_mime is None,
        r.file_base64 is Some,
        r.file_name == Some(name),
    ensures
        ({
            let m = all_messages(system, r, records).last();
            &&& m.str_at("role"@) == Some("user"@)
            &&& m.str_at("content"@) matches Some(t) && holds(t, name) && r.message.is_prefix_of(t)
        }),
{
    lemma_names();
    let t = user_content(r)->Str_0;
    if r.message.len() == 0 {
        lemma_holds("用户发送了一个文件："@, name, Seq::empty());
        assert("用户发送了一个文件："@ + name + Seq::<char>::empty() =~= t);
    } else {
        lemma_holds(r.message + "\n\n[用户发送了文件："@, name, "]"@);
        assert(r.message.is_prefix_of(t));
    }
    assert(r.message.is_prefix_of(t));
}

/// Whether a message is the one that a record stands for: what was stored, where that is JSON, else
/// its text in its role.
pub open spec fn tells(m: JsonView, r: RecordView) -> bool {
    match r.message_json {
        Some(t) if json_read(t) is Some => json_read(t) == Some(m),
        _ => says(m, r.role, r.content),
    }
}

/// Whether a record lists tool calls.
pub open spec fn has_calls(r: RecordView) -> bool {
    r.message_json matches Some(t) && (json_read(t) matches Some(v) && v.get("tool_calls"@) is Some)
}

/// Whether a record is the result of a tool call.
pub open spec fn is_result(r: RecordView) -> bool {
    r.role == "tool"@ || (r.message_json matches Some(t) && (json_read(t) matches Some(v)
        && v.str_at("role"@) == Some("tool"@)))
}

/// The history is told record by record, in order: each one that is no result of a tool call, and
/// each result that stands behind a message that lists calls. Other results are left out.
pub proof fn history_is_told(records: Seq<RecordView>, next: RecordView)
    ensures
        ({
            let before = history_messages(records);
            let after = history_messages(records.push(next));
            let listed = exists|i: int|
                0 <= i < records.len() && has_calls(#[trigger] records[i]) && !is_result(
                    records[i],
                );
            &&& history_messages(Seq::empty()).len() == 0
            &&& !is_result(next) || listed ==> {
                &&& after.len() == before.len() + 1
                &&& after.drop_last() == before
                &&& tells(after.last(), next)
            }
            &&& is_result(next) && (forall|i: int|
                0 <= i < records.len() ==> !has_calls(#[trigger] records[i])) ==> after == before
        }),
{
    lemma_names();
    assert(records.push(next).drop_last() =~= records);
    lemma_listed(records);
}

proof fn lemma_listed(records: Seq<RecordView>)
    ensures
        (exists|i: int|
            0 <= i < records.len() && has_calls(#[trigger] records[i]) && !is_result(records[i]))
            ==> calls_seen(records),
        (forall|i: int| 0 <= i < records.len() ==> !has_calls(#[trigger] records[i]))
            ==> !calls_seen(records),
    decreases records.len(),
{
    if records.len() > 0 {
        let before = records.drop_last();
        lemma_listed(before);
        if exists|i: int|
            0 <= i < records.len() && has_calls(#[trigger] records[i]) && !is_result(records[i]) {
            let i = choose|i: int|
                0 <= i < records.len() && has_calls(#[trigger] records[i]) && !is_result(
                    records[i],
                );
            if i < before.len() {
                assert(before[i] == records[i]);
            }
        }
        if forall|i: int| 0 <= i < records.len() ==> !has_calls(#[trigger] records[i]) {
            assert forall|i: int| 0 <= i < before.len() implies !has_calls(
                #[trigger] before[i],
            ) by {
                assert(before[i] == records[i]);
            }
            assert(!has_calls(records[records.len() - 1]));
        }
    }
}

/// The body of a call names the model it goes to and holds the messages, the tools and the limit;
/// a stream is asked for where one is wanted, and then only.
pub proof fn body_holds_the_request(
    s: ChatRunView,
    to: RouteView,
    messages: Seq<JsonView>,
    temperature: JsonView,
)
    ensures
        ({
            let c = call_of(s, to, messages, temperature);
            let b = c.body;
            &&& c.api_url == to.api_url
            &&& c.api_key == to.api_key
            &&& c.stream == s.request.stream
            &&& b.str_at("model"@) == Some(to.model)
            &&& b.at("messages"@) == JsonView::Arr(messages)
            &&& b.at("temperature"@) == temperature
            &&& b.at("max_tokens"@) == JsonView::PosInt(
                match s.request.max_tokens {
                    Some(n) => n as u64,
                    None => s.config.max_tokens as u64,
                },
            )
            &&& s.request.tools.len() > 0 ==> b.at("tools"@) == JsonView::Arr(s.request.tools)
                && b.str_at("tool_choice"@) == Some("auto"@)
            &&& s.request.tools.len() == 0 ==> b.get("tools"@) is None
            &&& b.at("thinking"@).str_at("type"@) == Some(
                if s.config.thinking {
                    "enabled"@
                } else {
                    "disabled"@
                },
            )
            &&& b.get("stream"@) == if s.request.stream {
                Some(JsonView::Bool(true))
            } else {
                None
            }
        }),
{
    lemma_names();
}

/// A film goes to the model for films, a picture to the one for pictures, and words to the one for
/// words; each has its own address and key.
pub proof fn each_goes_to_its_model(c: LlmConfigView, r: ChatRequestView)
    ensures
        ({
            let to = route(c, r);
            let (model, base, key) = if r.video_base64 is Some {
                (c.video_model, c.video_base_url, c.video_api_key)
            } else if r.image_base64 is Some {
                (c.image_model, c.image_base_url, c.image_api_key)
            } else {
                (c.model, c.base_url, c.api_key)
            };
            &&& to.model == model
            &&& to.api_key == key
            &&& base.len() > 0 && base.last() != '/' ==> to.api_url == base + "/chat/completions"@
        }),
{
    let base = if r.video_base64 is Some {
        c.video_base_url
    } else if r.image_base64 is Some {
        c.image_base_url
    } else {
        c.base_url
    };
    if base.len() > 0 && base.last() != '/' {
        crate::text::lemma_suffix_len(base, |x: char| x == '/', 0);
        assert(base.take(base.len() as int) =~= base);
    }
}

/// The instructions begin with the prompt that is configured. Behind it stands the extra prompt
/// that the request names.
pub proof fn instructions_hold_the_prompt(c: LlmConfigView, r: ChatRequestView, drawn: nat)
    ensures
        c.system_prompt.is_prefix_of(system_content(c, r, drawn)),
        r.tools.len() == 0 && r.jailbreak_index is None && r.image_base64 is None && r.video_base64
            is None && r.file_base64 is None ==> system_content(c, r, drawn) == c.system_prompt,
        r.jailbreak_index matches Some(i) ==> (i < c.jailbreak_prompts.len() ==> holds(
            system_content(c, r, drawn),
            c.jailbreak_prompts[i as int],
        )),
        r.tools.len() > 0 ==> crate::llm_text::tool_hint(r.tools).is_suffix_of(
            system_content(c, r, drawn),
        ),
{
    let t = system_content(c, r, drawn);
    let hint = crate::llm_text::tool_hint(r.tools);
    assert(c.system_prompt.is_prefix_of(t));
    if r.tools.len() > 0 {
        assert(hint.is_suffix_of(t));
    }
    if let Some(i) = r.jailbreak_index {
        if i < c.jailbreak_prompts.len() {
            let p = c.jailbreak_prompts[i as int];
            if r.tools.len() > 0 {
                lemma_holds(c.system_prompt + "\n\n"@, p, "\n\n"@ + hint);
                assert(c.system_prompt + "\n\n"@ + p + ("\n\n"@ + hint) =~= t);
            } else {
                lemma_holds(c.system_prompt + "\n\n"@, p, Seq::empty());
                assert(c.system_prompt + "\n\n"@ + p + Seq::<char>::empty() =~= t);
            }
        }
    }
}

/// The second try goes to the model for words with the same messages, but for the last one: its
/// content is text now, and still holds what the user has said.
pub proof fn second_try_keeps_the_words(
    s: ChatRunView,
    result: Result<LlmResponseView, Seq<char>>,
    temperature: JsonView,
)
    requires
        s.messages.len() > 0,
        s.messages.last() is Obj,
    ensures
        after_result(s, result, temperature).1 matches RunStepView::Call(c) ==> {
            &&& c.api_key == s.config.api_key
            &&& c.body.str_at("model"@) == Some(s.config.model)
            &&& c.body.at("messages"@) matches JsonView::Arr(m) && {
                &&& m.len() == s.messages.len()
                &&& m.drop_last() == s.messages.drop_last()
                &&& m.last().at("role"@) == s.messages.last().at("role"@)
                &&& m.last().str_at("content"@) matches Some(t) && holds(t, s.request.message)
            }
        },
{
    lemma_names();
    if let RunStepView::Call(c) = after_result(s, result, temperature).1 {
        let said = s.request.message;
        let t = if after_result(s, result, temperature).0.attempt
            == crate::llm_chat::Attempt::WithoutImage {
            crate::llm_chat::image_hint(said)
        } else {
            crate::llm_chat::video_hint(said)
        };
        let m = crate::llm_chat::with_last_content(s.messages, t);
        body_holds_the_request(s, crate::llm_chat::text_route(s.config), m, temperature);
        crate::json::get_after_set(s.messages.last(), "content"@, JsonView::Str(t), "role"@);
        assert(m.drop_last() =~= s.messages.drop_last());
        if said.len() == 0 {
            lemma_holds(t, said, Seq::empty());
            assert(t + said + Seq::<char>::empty() =~= t);
        } else {
            let front = "用户消息："@;
            let back = t.skip((front + said).len() as int);
            lemma_holds(front, said, back);
            assert(front + said + back =~= t);
        }
    }
}

/// What was said is remembered where the model has answered: the user's words (those that stand for
/// them, where there are such) and the answer, as long as it asks for no tools; each under its role
/// and for the peer.
pub proof fn talk_is_remembered(r: ChatRequestView, a: LlmResponseView)
    requires
        !r.skip_store,
    ensures
        ({
            let kept = stored(r, Ok(a));
            let user = match r.original_user_msg {
                Some(t) => t,
                None => r.message,
            };
            let answered = a.tool_calls.len() == 0 && !blank(a.content);
            &&& kept.len() == (if user.len() > 0 {
                1int
            } else {
                0int
            }) + (if answered {
                1int
            } else {
                0int
            })
            &&& user.len() > 0 ==> remembers(kept[0], r.peer_id, "user"@, user)
            &&& answered ==> remembers(kept.last(), r.peer_id, "assistant"@, a.content)
        }),
{
    lemma_names();
    crate::text::lemma_trim_blank(a.content);
    let user = match r.original_user_msg {
        Some(t) => t,
        None => r.message,
    };
    assert(is_text_of(json_written(plain_message("user"@, user)), plain_message("user"@, user)));
    assert(is_text_of(
        json_written(plain_message("assistant"@, a.content)),
        plain_message("assistant"@, a.content),
    ));
    assert(says(plain_message("user"@, user), "user"@, user));
    assert(says(plain_message("assistant"@, a.content), "assistant"@, a.content));
    let kept = stored(r, Ok(a));
    if user.len() > 0 {
        assert(kept[0] == store_effect(r.peer_id, plain_message("user"@, user)));
        assert(is_text_of(kept[0]->Store_message_json, plain_message("user"@, user)));
    }
    if a.tool_calls.len() == 0 && !blank(a.content) {
        assert(kept.last() == store_effect(r.peer_id, plain_message("assistant"@, a.content)));
        assert(is_text_of(
            kept.last()->Store_message_json,
            plain_message("assistant"@, a.content),
        ));
    }
}

/// Whether an effect puts something that was said in a peer's history.
pub open spec fn remembers(
    e: EffectView,
    peer_id: Seq<char>,
    role: Seq<char>,
    content: Seq<char>,
) -> bool {
    &&& e is Store
    &&& e->Store_peer_id == peer_id
    &&& exists|m: JsonView| #[trigger]
        is_text_of(e->Store_message_json, m) && says(m, role, content)
}

} // verus!
