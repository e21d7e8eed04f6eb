//! The titles and summaries of conversations.

use crate::text::{
    chars_of, is_white, is_white_char, join, join_strings, lemma_prefix_len,
    lemma_prefix_len_holds, prefix_len, same, string_range, trim_start, views, white,
};
use vstd::prelude::*;

verus! {

broadcast use vstd::string::group_string_axioms;

/// How long a title may be.
pub const CHAT_SESSION_TITLE_MAX_CHARS: usize = 60;

/// How long a summary may be.
pub const CHAT_SESSION_SUMMARY_MAX_CHARS: usize = 600;

/// Every character that is not white space, as a predicate.
pub open spec fn not_white() -> spec_fn(char) -> bool {
    |c: char| !is_white(c)
}

/// The words of a text: its longest runs without white space, in order.
pub open spec fn words(s: Seq<char>) -> Seq<Seq<char>>
    decreases s.len(),
    via words_decreases
{
    let t = trim_start(s);
    let n = prefix_len(t, not_white());
    if t.len() == 0 {
        Seq::empty()
    } else {
        seq![t.take(n as int)] + words(t.skip(n as int))
    }
}

#[via_fn]
proof fn words_decreases(s: Seq<char>) {
    lemma_word_front(s);
}

proof fn lemma_word_front(s: Seq<char>)
    ensures
        trim_start(s).len() <= s.len(),
        prefix_len(trim_start(s), not_white()) <= trim_start(s).len(),
        trim_start(s).len() > 0 ==> prefix_len(trim_start(s), not_white()) > 0,
{
    lemma_prefix_len_holds(s, white());
    let t = trim_start(s);
    lemma_prefix_len_holds(t, not_white());
    if t.len() > 0 {
        assert(t[0] == s[prefix_len(s, white()) as int]);
        assert(not_white()(t[0]));
        if prefix_len(t, not_white()) == 0 {
            assert(!not_white()(t[0]));
        }
    }
}

/// The words of a text with one space between each two.
pub open spec fn compact(s: Seq<char>) -> Seq<char> {
    join(words(s), " "@)
}

fn words_of(s: &str) -> (r: Vec<String>)
    ensures
        views(r@) == words(s@),
{
    let chars = chars_of(s);
    let mut out: Vec<String> = Vec::new();
    let mut at: usize = 0;
    proof {
        assert(chars@.skip(0) =~= s@);
        assert(views(out@) =~= Seq::empty());
        assert(Seq::<Seq<char>>::empty() + words(s@) =~= words(s@));
    }
    loop
        invariant
            at <= chars@.len(),
            chars@ == s@,
            views(out@) + words(chars@.skip(at as int)) == words(s@),
        decreases chars@.len() - at,
    {
        let ghost rest = chars@.skip(at as int);
        let mut a: usize = at;
        while a < chars.len() && is_white_char(chars[a])
            invariant
                at <= a <= chars@.len(),
                forall|i: int| at <= i < a ==> is_white(#[trigger] chars@[i]),
            decreases chars@.len() - a,
        {
            a = a + 1;
        }
        proof {
            assert forall|i: int| 0 <= i < a - at implies white()(#[trigger] rest[i]) by {
                assert(rest[i] == chars@[at + i]);
            }
            if a < chars@.len() {
                assert(rest[a - at] == chars@[a as int]);
            }
            lemma_prefix_len(rest, white(), (a - at) as nat);
            assert(trim_start(rest) =~= chars@.skip(a as int));
        }
        if a == chars.len() {
            assert(words(rest) =~= Seq::empty());
            assert(views(out@) + Seq::empty() =~= views(out@));
            return out;
        }
        let mut b: usize = a;
        while b < chars.len() && !is_white_char(chars[b])
            invariant
                a <= b <= chars@.len(),
                forall|i: int| a <= i < b ==> !is_white(#[trigger] chars@[i]),
            decreases chars@.len() - b,
        {
            b = b + 1;
        }
        let ghost t = chars@.skip(a as int);
        proof {
            assert forall|i: int| 0 <= i < b - a implies not_white()(#[trigger] t[i]) by {
                assert(t[i] == chars@[a + i]);
            }
            if b < chars@.len() {
                assert(t[b - a] == chars@[b as int]);
            }
            lemma_prefix_len(t, not_white(), (b - a) as nat);
        }
        let word = string_range(&chars, a, b);
        let ghost before = views(out@);
        let ghost old_out = out@;
        out.push(word);
        proof {
            assert(word@ =~= t.take(b - a));
            assert(t.skip(b - a) =~= chars@.skip(b as int));
            assert(views(old_out.push(word)) =~= before.push(word@));
            assert(before + (seq![word@] + words(chars@.skip(b as int))) =~= before.push(word@)
                + words(chars@.skip(b as int)));
            if b == a {
                assert(!is_white(chars@[a as int]));
            }
        }
        at = b;
    }
}

/// The words of a text with one space between each two.
pub fn compact_whitespace(input: &str) -> (r: String)
    ensures
        r@ == compact(input@),
{
    join_strings(&words_of(input), " ")
}

/// A text cut to `max` characters: one that is longer ends in three dots, where there is room for
/// them.
pub open spec fn truncated(s: Seq<char>, max: nat) -> Seq<char> {
    if s.len() <= max {
        s
    } else if max <= 3 {
        s.take(max as int)
    } else {
        s.take(max - 3) + "..."@
    }
}

/// A text cut to `max_chars` characters.
pub fn truncate_chars(input: &str, max_chars: usize) -> (r: String)
    ensures
        r@ == truncated(input@, max_chars as nat),
{
    let chars = chars_of(input);
    if chars.len() <= max_chars {
        return input.to_owned();
    }
    if max_chars <= 3 {
        let r = string_range(&chars, 0, max_chars);
        assert(r@ =~= input@.take(max_chars as int));
        return r;
    }
    let mut out = string_range(&chars, 0, max_chars - 3);
    assert(out@ =~= input@.take(max_chars - 3));
    out.append("...");
    out
}

/// A text that is cut is no longer than the limit, and a text within the limit stays as it is.
pub proof fn truncated_is_short(s: Seq<char>, max: nat)
    ensures
        truncated(s, max).len() <= max,
        s.len() <= max ==> truncated(s, max) == s,
        truncated(truncated(s, max), max) == truncated(s, max),
{
    reveal_strlit("...");
}

/// The title of a conversation: the user's first message, else the first message, else the peer,
/// with single spaces and cut.
pub open spec fn session_title(
    first_user: Option<Seq<char>>,
    fallback: Option<Seq<char>>,
    peer_id: Seq<char>,
) -> Seq<char> {
    let raw = match (first_user, fallback) {
        (Some(s), _) => s,
        (None, Some(s)) => s,
        (None, None) => peer_id,
    };
    truncated(
        if compact(raw).len() == 0 {
            peer_id
        } else {
            compact(raw)
        },
        CHAT_SESSION_TITLE_MAX_CHARS as nat,
    )
}

/// The title of a conversation.
pub fn derive_session_title(
    first_user: Option<&str>,
    fallback: Option<&str>,
    peer_id: &str,
) -> (r: String)
    ensures
        r@ == session_title(
            crate::numbers::opt_str(first_user),
            crate::numbers::opt_str(fallback),
            peer_id@,
        ),
{
    let raw = match first_user {
        Some(s) => s,
        None => match fallback {
            Some(s) => s,
            None => peer_id,
        },
    };
    let short = compact_whitespace(raw);
    if short.as_str().is_empty() {
        truncate_chars(peer_id, CHAT_SESSION_TITLE_MAX_CHARS)
    } else {
        truncate_chars(short.as_str(), CHAT_SESSION_TITLE_MAX_CHARS)
    }
}

/// What a role is called in a summary.
pub open spec fn role_name(role: Seq<char>) -> Seq<char> {
    if role == "user"@ {
        "用户"@
    } else if role == "assistant"@ {
        "助手"@
    } else if role == "tool"@ {
        "工具"@
    } else if role == "system"@ {
        "系统"@
    } else {
        "消息"@
    }
}

/// What a role is called in a summary.
pub fn role_label(role: &str) -> (r: &'static str)
    ensures
        r@ == role_name(role@),
{
    if same(role, "user") {
        "用户"
    } else if same(role, "assistant") {
        "助手"
    } else if same(role, "tool") {
        "工具"
    } else if same(role, "system") {
        "系统"
    } else {
        "消息"
    }
}

/// The lines of a summary: one for each message that holds words.
pub open spec fn summary_lines(records: Seq<(Seq<char>, Seq<char>)>) -> Seq<Seq<char>>
    decreases records.len(),
{
    if records.len() == 0 {
        Seq::empty()
    } else {
        let rest = summary_lines(records.drop_last());
        let short = compact(records.last().1);
        if short.len() == 0 {
            rest
        } else {
            rest.push(role_name(records.last().0) + "：" @ + short)
        }
    }
}

/// The summary of messages, each a role and a text.
pub open spec fn session_summary(records: Seq<(Seq<char>, Seq<char>)>, max: nat) -> Seq<char> {
    truncated(join(summary_lines(records), "\n"@), max)
}

/// The models of a list of roles and texts.
pub open spec fn pair_views(v: Seq<(String, String)>) -> Seq<(Seq<char>, Seq<char>)> {
    v.map_values(|p: (String, String)| (p.0@, p.1@))
}

/// The summary of messages, each a role and a text.
pub fn build_session_summary(records: &[(String, String)], max_chars: usize) -> (r: String)
    ensures
        r@ == session_summary(pair_views(records@), max_chars as nat),
{
    let ghost all = pair_views(records@);
    let mut lines: Vec<String> = Vec::new();
    let mut i: usize = 0;
    assert(all.take(0) =~= Seq::empty());
    assert(views(lines@) =~= Seq::empty());
    while i < records.len()
        invariant
            i <= records@.len(),
            all == pair_views(records@),
            views(lines@) == summary_lines(all.take(i as int)),
        decreases records@.len() - i,
    {
        proof {
            let t = all.take(i + 1);
            assert(t.drop_last() =~= all.take(i as int));
            assert(t.last() == (records@[i as int].0@, records@[i as int].1@));
        }
        let short = compact_whitespace(records[i].1.as_str());
        if !short.as_str().is_empty() {
            let mut line = role_label(records[i].0.as_str()).to_owned();
            line.append("：");
            line.append(short.as_str());
            let ghost before = lines@;
            lines.push(line);
            assert(views(before.push(line)) =~= views(before).push(line@));
        }
        i = i + 1;
    }
    assert(all.take(all.len() as int) =~= all);
    truncate_chars(join_strings(&lines, "\n").as_str(), max_chars)
}

} // verus!
