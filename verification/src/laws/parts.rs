//! Texts inside texts, and names of members apart from one another.

use crate::text::join;
use vstd::prelude::*;

verus! {

broadcast use vstd::string::group_string_axioms;

/// A text between two others.
pub open spec fn around(a: Seq<char>, part: Seq<char>, b: Seq<char>) -> Seq<char> {
    a + part + b
}

/// Whether `part` stands in `text`.
pub open spec fn holds(text: Seq<char>, part: Seq<char>) -> bool {
    exists|a: Seq<char>, b: Seq<char>| #[trigger] around(a, part, b) == text
}

/// Whether the parts stand in `text` one behind the other.
pub open spec fn holds_in_order(text: Seq<char>, parts: Seq<Seq<char>>) -> bool
    decreases parts.len(),
{
    parts.len() > 0 ==> exists|a: Seq<char>, b: Seq<char>| #[trigger]
        around(a, parts.last(), b) == text && holds_in_order(a, parts.drop_last())
}

/// What stands between two texts stands in the whole.
pub proof fn lemma_holds(a: Seq<char>, part: Seq<char>, b: Seq<char>)
    ensures
        holds(a + part + b, part),
{
    assert(around(a, part, b) == a + part + b);
}

/// What stands in a part stands in the whole.
pub proof fn lemma_holds_within(text: Seq<char>, middle: Seq<char>, part: Seq<char>)
    requires
        holds(text, middle),
        holds(middle, part),
    ensures
        holds(text, part),
{
    let (a, b) = choose|a: Seq<char>, b: Seq<char>| #[trigger] around(a, middle, b) == text;
    let (c, d) = choose|c: Seq<char>, d: Seq<char>| #[trigger] around(c, part, d) == middle;
    assert(around(a + c, part, d + b) =~= text);
}

/// What stands in the front of a text in order stands in the whole in order.
pub proof fn lemma_order_in_front(front: Seq<char>, back: Seq<char>, parts: Seq<Seq<char>>)
    requires
        holds_in_order(front, parts),
    ensures
        holds_in_order(front + back, parts),
{
    if parts.len() > 0 {
        let (a, b) = choose|a: Seq<char>, b: Seq<char>| #[trigger]
            around(a, parts.last(), b) == front && holds_in_order(a, parts.drop_last());
        assert(around(a, parts.last(), b + back) =~= front + back);
    }
}

/// Parts that are joined stand in the whole one behind the other.
pub proof fn lemma_joined_in_order(
    front: Seq<char>,
    parts: Seq<Seq<char>>,
    sep: Seq<char>,
    back: Seq<char>,
)
    ensures
        holds_in_order(front + join(parts, sep) + back, parts),
    decreases parts.len(),
{
    if parts.len() == 1 {
        assert(around(front, parts.last(), back) == front + join(parts, sep) + back);
        assert(holds_in_order(front, parts.drop_last()));
    } else if parts.len() > 1 {
        let rest = parts.drop_last();
        lemma_joined_in_order(front, rest, sep, sep);
        let a = front + join(rest, sep) + sep;
        assert(around(a, parts.last(), back) =~= front + join(parts, sep) + back);
    }
}

/// Every one of the parts that stand in a text in order stands in it.
pub proof fn lemma_each_in_order(text: Seq<char>, parts: Seq<Seq<char>>, i: int)
    requires
        holds_in_order(text, parts),
        0 <= i < parts.len(),
    ensures
        holds(text, parts[i]),
    decreases parts.len(),
{
    let (a, b) = choose|a: Seq<char>, b: Seq<char>| #[trigger]
        around(a, parts.last(), b) == text && holds_in_order(a, parts.drop_last());
    if i < parts.len() - 1 {
        lemma_each_in_order(a, parts.drop_last(), i);
        assert(around(Seq::empty(), a, parts.last() + b) =~= text);
        lemma_holds_within(text, a, parts[i]);
    } else {
        assert(holds(text, parts.last()));
    }
}

/// Each of the parts that are joined stands in the whole.
pub proof fn lemma_joined(parts: Seq<Seq<char>>, sep: Seq<char>, i: int)
    requires
        0 <= i < parts.len(),
    ensures
        holds(join(parts, sep), parts[i]),
{
    lemma_joined_in_order(Seq::empty(), parts, sep, Seq::empty());
    assert(Seq::<char>::empty() + join(parts, sep) + Seq::<char>::empty() =~= join(parts, sep));
    lemma_each_in_order(join(parts, sep), parts, i);
}

/// Parts in order in one text and parts in order in the next are in order in both together.
pub proof fn lemma_order_behind(
    front: Seq<char>,
    before: Seq<Seq<char>>,
    text: Seq<char>,
    parts: Seq<Seq<char>>,
    back: Seq<char>,
)
    requires
        holds_in_order(front, before),
        holds_in_order(text, parts),
    ensures
        holds_in_order(front + text + back, before + parts),
    decreases parts.len(),
{
    if parts.len() == 0 {
        assert(before + parts =~= before);
        lemma_order_in_front(front, text + back, before);
        assert(front + (text + back) =~= front + text + back);
    } else {
        let (a, b) = choose|a: Seq<char>, b: Seq<char>| #[trigger]
            around(a, parts.last(), b) == text && holds_in_order(a, parts.drop_last());
        lemma_order_behind(front, before, a, parts.drop_last(), Seq::empty());
        assert(front + a + Seq::<char>::empty() =~= front + a);
        assert((before + parts).drop_last() =~= before + parts.drop_last());
        assert((before + parts).last() == parts.last());
        assert(around(front + a, (before + parts).last(), b + back) =~= front + text + back);
    }
}

/// A text stands in itself.
pub proof fn lemma_alone_in_order(part: Seq<char>)
    ensures
        holds_in_order(part, seq![part]),
{
    assert(holds_in_order(Seq::empty(), seq![part].drop_last()));
    assert(around(Seq::empty(), seq![part].last(), Seq::empty()) =~= part);
}

/// All the texts of several lists, one list behind the other.
pub open spec fn all_of_them(lists: Seq<Seq<Seq<char>>>) -> Seq<Seq<char>>
    decreases lists.len(),
{
    if lists.len() == 0 {
        Seq::empty()
    } else {
        all_of_them(lists.drop_last()) + lists.last()
    }
}

/// Texts that are joined, each of which holds parts in order, hold all the parts in order.
pub proof fn lemma_joined_lists(
    front: Seq<char>,
    texts: Seq<Seq<char>>,
    lists: Seq<Seq<Seq<char>>>,
    sep: Seq<char>,
    back: Seq<char>,
)
    requires
        texts.len() == lists.len(),
        forall|i: int| 0 <= i < texts.len() ==> holds_in_order(#[trigger] texts[i], lists[i]),
    ensures
        holds_in_order(front + join(texts, sep) + back, all_of_them(lists)),
    decreases texts.len(),
{
    if texts.len() > 0 {
        let n = texts.len() - 1;
        assert(holds_in_order(texts[n], lists[n]));
        let rest = texts.drop_last();
        let shorter = lists.drop_last();
        if n == 0 {
            assert(holds_in_order(front, all_of_them(shorter)));
            lemma_order_behind(front, all_of_them(shorter), texts[0], lists[0], back);
        } else {
            assert forall|i: int| 0 <= i < rest.len() implies holds_in_order(
                #[trigger] rest[i],
                shorter[i],
            ) by {
                assert(rest[i] == texts[i]);
                assert(shorter[i] == lists[i]);
            }
            lemma_joined_lists(front, rest, shorter, sep, sep);
            let a = front + join(rest, sep) + sep;
            lemma_order_behind(a, all_of_them(shorter), texts[n], lists[n], back);
            assert(a + texts[n] + back =~= front + join(texts, sep) + back);
        }
    }
}

/// How the names of members begin and how long they are: no two are the same.
pub proof fn lemma_names()
    ensures
        "status"@.len() == 6,
        "status"@[0] == 's',
        "status"@[1] == 't',
        "status"@[2] == 'a',
        "step"@.len() == 4,
        "step"@[0] == 's',
        "step"@[1] == 't',
        "sleep_seconds"@.len() == 13,
        "sleep_seconds"@[0] == 's',
        "sleep_seconds"@[1] == 'l',
        "data"@.len() == 4,
        "data"@[0] == 'd',
        "data"@[1] == 'a',
        "topic"@.len() == 5,
        "topic"@[0] == 't',
        "topic"@[1] == 'o',
        "topic"@[2] == 'p',
        "tool_choice"@.len() == 11,
        "tool_choice"@[0] == 't',
        "tool_choice"@[1] == 'o',
        "thinking"@.len() == 8,
        "thinking"@[0] == 't',
        "thinking"@[1] == 'h',
        "video_url"@.len() == 9,
        "video_url"@[0] == 'v',
        "video_url"@[1] == 'i',
        "fps"@.len() == 3,
        "fps"@[0] == 'f',
        "fps"@[1] == 'p',
        "media_resolution"@.len() == 16,
        "media_resolution"@[0] == 'm',
        "media_resolution"@[1] == 'e',
        "mode"@.len() == 4,
        "mode"@[0] == 'm',
        "mode"@[1] == 'o',
        "tool_count"@.len() == 10,
        "tool_count"@[0] == 't',
        "tool_count"@[1] == 'o',
        "tool_count"@[6] == 'o',
        "context_count"@.len() == 13,
        "context_count"@[0] == 'c',
        "context_count"@[1] == 'o',
        "accumulated_length"@.len() == 18,
        "accumulated_length"@[0] == 'a',
        "accumulated_length"@[1] == 'c',
        "error"@.len() == 5,
        "error"@[0] == 'e',
        "error"@[1] == 'r',
        "message"@.len() == 7,
        "message"@[0] == 'm',
        "message"@[1] == 'e',
        "choices"@.len() == 7,
        "choices"@[0] == 'c',
        "choices"@[1] == 'h',
        "choices"@[2] == 'o',
        "usage"@.len() == 5,
        "usage"@[0] == 'u',
        "usage"@[1] == 's',
        "delta"@.len() == 5,
        "delta"@[0] == 'd',
        "delta"@[1] == 'e',
        "prompt_tokens"@.len() == 13,
        "prompt_tokens"@[0] == 'p',
        "prompt_tokens"@[1] == 'r',
        "completion_tokens"@.len() == 17,
        "completion_tokens"@[0] == 'c',
        "completion_tokens"@[1] == 'o',
        "prompt_cache_hit_tokens"@.len() == 23,
        "prompt_cache_hit_tokens"@[0] == 'p',
        "prompt_cache_hit_tokens"@[1] == 'r',
        "prompt_cache_miss_tokens"@.len() == 24,
        "prompt_cache_miss_tokens"@[0] == 'p',
        "prompt_cache_miss_tokens"@[1] == 'r',
        "text"@.len() == 4,
        "text"@[0] == 't',
        "text"@[1] == 'e',
        "type"@.len() == 4,
        "type"@[0] == 't',
        "type"@[1] == 'y',
        "role"@.len() == 4,
        "role"@[0] == 'r',
        "role"@[1] == 'o',
        "name"@.len() == 4,
        "name"@[0] == 'n',
        "name"@[1] == 'a',
        "id"@.len() == 2,
        "id"@[0] == 'i',
        "id"@[1] == 'd',
        "source"@.len() == 6,
        "source"@[0] == 's',
        "source"@[1] == 'o',
        "silent"@.len() == 6,
        "silent"@[0] == 's',
        "silent"@[1] == 'i',
        "stream"@.len() == 6,
        "stream"@[0] == 's',
        "stream"@[1] == 't',
        "stream"@[2] == 'r',
        "peer_id"@.len() == 7,
        "peer_id"@[0] == 'p',
        "peer_id"@[1] == 'e',
        "chat_id"@.len() == 7,
        "chat_id"@[0] == 'c',
        "chat_id"@[1] == 'h',
        "chat_id"@[2] == 'a',
        "content"@.len() == 7,
        "content"@[0] == 'c',
        "content"@[1] == 'o',
        "tool_calls"@.len() == 10,
        "tool_calls"@[0] == 't',
        "tool_calls"@[1] == 'o',
        "tool_calls"@[6] == 'a',
        "tool_call_id"@.len() == 12,
        "tool_call_id"@[0] == 't',
        "tool_call_id"@[1] == 'o',
        "function"@.len() == 8,
        "function"@[0] == 'f',
        "function"@[1] == 'u',
        "arguments"@.len() == 9,
        "arguments"@[0] == 'a',
        "arguments"@[1] == 'r',
        "description"@.len() == 11,
        "description"@[0] == 'd',
        "description"@[1] == 'e',
        "parameters"@.len() == 10,
        "parameters"@[0] == 'p',
        "parameters"@[1] == 'a',
        "model"@.len() == 5,
        "model"@[0] == 'm',
        "model"@[1] == 'o',
        "messages"@.len() == 8,
        "messages"@[0] == 'm',
        "messages"@[1] == 'e',
        "temperature"@.len() == 11,
        "temperature"@[0] == 't',
        "temperature"@[1] == 'e',
        "max_tokens"@.len() == 10,
        "max_tokens"@[0] == 'm',
        "max_tokens"@[1] == 'a',
        "tools"@.len() == 5,
        "tools"@[0] == 't',
        "tools"@[1] == 'o',
        "tools"@[2] == 'o',
        "url"@.len() == 3,
        "url"@[0] == 'u',
        "url"@[1] == 'r',
        "image_url"@.len() == 9,
        "image_url"@[0] == 'i',
        "image_url"@[1] == 'm',
        "mime_type"@.len() == 9,
        "mime_type"@[0] == 'm',
        "mime_type"@[1] == 'i',
        "image_base64"@.len() == 12,
        "image_base64"@[0] == 'i',
        "image_base64"@[1] == 'm',
        "platform"@.len() == 8,
        "platform"@[0] == 'p',
        "platform"@[1] == 'l',
        "user_name"@.len() == 9,
        "user_name"@[0] == 'u',
        "user_name"@[1] == 's',
        "note"@.len() == 4,
        "note"@[0] == 'n',
        "note"@[1] == 'o',
        "reason"@.len() == 6,
        "reason"@[0] == 'r',
        "reason"@[1] == 'e',
{
    reveal_strlit("status");
    reveal_strlit("step");
    reveal_strlit("sleep_seconds");
    reveal_strlit("data");
    reveal_strlit("topic");
    reveal_strlit("tool_choice");
    reveal_strlit("thinking");
    reveal_strlit("video_url");
    reveal_strlit("fps");
    reveal_strlit("media_resolution");
    reveal_strlit("mode");
    reveal_strlit("tool_count");
    reveal_strlit("context_count");
    reveal_strlit("accumulated_length");
    reveal_strlit("error");
    reveal_strlit("message");
    reveal_strlit("choices");
    reveal_strlit("usage");
    reveal_strlit("delta");
    reveal_strlit("prompt_tokens");
    reveal_strlit("completion_tokens");
    reveal_strlit("prompt_cache_hit_tokens");
    reveal_strlit("prompt_cache_miss_tokens");
    reveal_strlit("text");
    reveal_strlit("type");
    reveal_strlit("role");
    reveal_strlit("name");
    reveal_strlit("id");
    reveal_strlit("source");
    reveal_strlit("silent");
    reveal_strlit("stream");
    reveal_strlit("peer_id");
    reveal_strlit("chat_id");
    reveal_strlit("content");
    reveal_strlit("tool_calls");
    reveal_strlit("tool_call_id");
    reveal_strlit("function");
    reveal_strlit("arguments");
    reveal_strlit("description");
    reveal_strlit("parameters");
    reveal_strlit("model");
    reveal_strlit("messages");
    reveal_strlit("temperature");
    reveal_strlit("max_tokens");
    reveal_strlit("tools");
    reveal_strlit("url");
    reveal_strlit("image_url");
    reveal_strlit("mime_type");
    reveal_strlit("image_base64");
    reveal_strlit("platform");
    reveal_strlit("user_name");
    reveal_strlit("note");
    reveal_strlit("reason");
}

/// The same of names that are met less often.
pub proof fn lemma_more_names()
    ensures
        "success"@.len() == 7,
        "success"@[0] == 's',
        "success"@[1] == 'u',
        "allowed"@.len() == 7,
        "allowed"@[0] == 'a',
        "allowed"@[1] == 'l',
        "exceeded_period"@.len() == 15,
        "exceeded_period"@[0] == 'e',
        "exceeded_period"@[1] == 'x',
        "used"@.len() == 4,
        "used"@[0] == 'u',
        "used"@[1] == 's',
        "limit"@.len() == 5,
        "limit"@[0] == 'l',
        "limit"@[1] == 'i',
        "version"@.len() == 7,
        "version"@[0] == 'v',
        "version"@[1] == 'e',
        "uptime_secs"@.len() == 11,
        "uptime_secs"@[0] == 'u',
        "uptime_secs"@[1] == 'p',
        "plugins_loaded"@.len() == 14,
        "plugins_loaded"@[0] == 'p',
        "plugins_loaded"@[1] == 'l',
        "agent_loops_total"@.len() == 17,
        "agent_loops_total"@[0] == 'a',
        "agent_loops_total"@[1] == 'g',
        "level"@.len() == 5,
        "level"@[0] == 'l',
        "level"@[1] == 'e',
        "plugin"@.len() == 6,
        "plugin"@[0] == 'p',
        "plugin"@[1] == 'l',
        "properties"@.len() == 10,
        "properties"@[0] == 'p',
        "properties"@[1] == 'r',
        "required"@.len() == 8,
        "required"@[0] == 'r',
        "required"@[1] == 'e',
        "path"@.len() == 4,
        "path"@[0] == 'p',
        "path"@[1] == 'a',
        "goal"@.len() == 4,
        "goal"@[0] == 'g',
        "goal"@[1] == 'o',
        "max_steps"@.len() == 9,
        "max_steps"@[0] == 'm',
        "max_steps"@[1] == 'a',
        "max_tool_rounds"@.len() == 15,
        "max_tool_rounds"@[0] == 'm',
        "max_tool_rounds"@[1] == 'a',
        "video_base64"@.len() == 12,
        "video_base64"@[0] == 'v',
        "video_base64"@[1] == 'i',
        "video_mime"@.len() == 10,
        "video_mime"@[0] == 'v',
        "video_mime"@[1] == 'i',
        "file_base64"@.len() == 11,
        "file_base64"@[0] == 'f',
        "file_base64"@[1] == 'i',
        "file_name"@.len() == 9,
        "file_name"@[0] == 'f',
        "file_name"@[1] == 'i',
        "from_user_id"@.len() == 12,
        "from_user_id"@[0] == 'f',
        "from_user_id"@[1] == 'r',
        "user_id"@.len() == 7,
        "user_id"@[0] == 'u',
        "user_id"@[1] == 's',
        "idle_secs"@.len() == 9,
        "idle_secs"@[0] == 'i',
        "idle_secs"@[1] == 'd',
        "content_preview"@.len() == 15,
        "content_preview"@[0] == 'c',
        "content_preview"@[1] == 'o',
        "tool_calls_count"@.len() == 16,
        "tool_calls_count"@[0] == 't',
        "tool_calls_count"@[1] == 'o',
        "chunk_count"@.len() == 11,
        "chunk_count"@[0] == 'c',
        "chunk_count"@[1] == 'h',
        "streamed"@.len() == 8,
        "streamed"@[0] == 's',
        "streamed"@[1] == 't',
{
    reveal_strlit("success");
    reveal_strlit("allowed");
    reveal_strlit("exceeded_period");
    reveal_strlit("used");
    reveal_strlit("limit");
    reveal_strlit("version");
    reveal_strlit("uptime_secs");
    reveal_strlit("plugins_loaded");
    reveal_strlit("agent_loops_total");
    reveal_strlit("level");
    reveal_strlit("plugin");
    reveal_strlit("properties");
    reveal_strlit("required");
    reveal_strlit("path");
    reveal_strlit("goal");
    reveal_strlit("max_steps");
    reveal_strlit("max_tool_rounds");
    reveal_strlit("video_base64");
    reveal_strlit("video_mime");
    reveal_strlit("file_base64");
    reveal_strlit("file_name");
    reveal_strlit("from_user_id");
    reveal_strlit("user_id");
    reveal_strlit("idle_secs");
    reveal_strlit("content_preview");
    reveal_strlit("tool_calls_count");
    reveal_strlit("chunk_count");
    reveal_strlit("streamed");
}

} // verus!
