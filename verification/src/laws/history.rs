//! What is stored of a conversation, and what is shown of it.

use crate::chat_store::{
    after_prune, after_summary, all_of, asked_for, batch_rows, cutoff, first_n, first_time,
    holds_more_than_spaces, is_session_list, last_n, last_time, lemma_pick_from, lemma_pick_len,
    message_parts_given, owned, peers_of, pick, prune_keeps_the_latest, refreshed, refreshed_count,
    refreshed_each, refreshed_session, rising, said_of, session_of, with_row, QueryView, RoleQuery,
    RowView, SessionMap, SessionView, StoreView, CHAT_SESSION_SUMMARY_RECENT_LIMIT,
};
use crate::json::JsonView;
use crate::text::{join, trim};
use vstd::prelude::*;

verus! {

broadcast use vstd::string::group_string_axioms;

/// Whether a message is one of the peer's.
pub open spec fn is_of(peer: Seq<char>) -> spec_fn(RowView) -> bool {
    |r: RowView| r.peer_id == peer
}

/// Whether a query asks for a message.
pub open spec fn asks(q: QueryView) -> spec_fn(RowView) -> bool {
    |r: RowView| asked_for(q, r)
}

proof fn lemma_pick_is_filter(rows: Seq<RowView>, q: QueryView)
    ensures
        pick(rows, q) == rows.filter(asks(q)),
    decreases rows.len(),
{
    reveal(Seq::filter);
    if rows.len() > 0 {
        lemma_pick_is_filter(rows.drop_last(), q);
    }
}

proof fn lemma_filter_same<A>(s: Seq<A>, f: spec_fn(A) -> bool, g: spec_fn(A) -> bool)
    requires
        forall|a: A| #[trigger] f(a) == g(a),
    ensures
        s.filter(f) == s.filter(g),
    decreases s.len(),
{
    reveal(Seq::filter);
    if s.len() > 0 {
        lemma_filter_same(s.drop_last(), f, g);
    }
}

/// A peer reads its own messages, all of them and in the order in which they came; those that say
/// something are those with anything but spaces in their text.
pub proof fn peer_reads_its_own(rows: Seq<RowView>, peer: Seq<char>)
    ensures
        pick(rows, all_of(peer)) == rows.filter(is_of(peer)),
        pick(rows, said_of(peer)) == rows.filter(
            |r: RowView|
                r.peer_id == peer && exists|i: int|
                    0 <= i < r.content.len() && #[trigger] r.content[i] != ' ',
        ),
{
    lemma_pick_is_filter(rows, all_of(peer));
    lemma_pick_is_filter(rows, said_of(peer));
    lemma_filter_same(rows, asks(all_of(peer)), is_of(peer));
    let g = |r: RowView|
        r.peer_id == peer && exists|i: int|
            0 <= i < r.content.len() && #[trigger] r.content[i] != ' ';
    assert forall|r: RowView| #[trigger] asks(said_of(peer))(r) == g(r) by {
        assert(holds_more_than_spaces(r.content) == exists|i: int|
            0 <= i < r.content.len() && #[trigger] r.content[i] != ' ');
    }
    lemma_filter_same(rows, asks(said_of(peer)), g);
}

/// The latest of a list are its end, the first of it its front, and as many as asked for where
/// there are that many.
pub proof fn ends_of_a_list<T>(s: Seq<T>, n: nat)
    ensures
        last_n(s, n).len() == if n < s.len() {
            n
        } else {
            s.len()
        },
        first_n(s, n).len() == last_n(s, n).len(),
        forall|i: int|
            0 <= i < last_n(s, n).len() ==> #[trigger] last_n(s, n)[i] == s[s.len() - last_n(
                s,
                n,
            ).len() + i],
        forall|i: int| 0 <= i < first_n(s, n).len() ==> #[trigger] first_n(s, n)[i] == s[i],
{
}

proof fn lemma_span(rows: Seq<RowView>)
    requires
        rows.len() > 0,
    ensures
        exists|i: int| 0 <= i < rows.len() && (#[trigger] rows[i]).created_at == last_time(rows),
        exists|i: int| 0 <= i < rows.len() && (#[trigger] rows[i]).created_at == first_time(rows),
        forall|i: int|
            0 <= i < rows.len() ==> first_time(rows) <= (#[trigger] rows[i]).created_at
                <= last_time(rows),
    decreases rows.len(),
{
    if rows.len() == 1 {
        assert(rows[0].created_at == last_time(rows));
    } else {
        let rest = rows.drop_last();
        lemma_span(rest);
        let a = choose|i: int|
            0 <= i < rest.len() && (#[trigger] rest[i]).created_at == last_time(rest);
        let b = choose|i: int|
            0 <= i < rest.len() && (#[trigger] rest[i]).created_at == first_time(rest);
        assert(rows[a] == rest[a]);
        assert(rows[b] == rest[b]);
        let n = rows.len() - 1;
        assert(rows[n] == rows.last());
        assert forall|i: int| 0 <= i < rows.len() implies first_time(rows) <= (
        #[trigger] rows[i]).created_at <= last_time(rows) by {
            if i < n {
                assert(rest[i] == rows[i]);
            }
        }
    }
}

proof fn lemma_pick_has(rows: Seq<RowView>, q: QueryView, i: int)
    requires
        0 <= i < rows.len(),
        asked_for(q, rows[i]),
    ensures
        exists|k: int| 0 <= k < pick(rows, q).len() && #[trigger] pick(rows, q)[k] == rows[i],
    decreases rows.len(),
{
    let all = pick(rows, q);
    if i == rows.len() - 1 {
        assert(all[all.len() - 1] == rows[i]);
    } else {
        let rest = rows.drop_last();
        lemma_pick_has(rest, q, i);
        assert(rest[i] == rows[i]);
        let k = choose|k: int| 0 <= k < pick(rest, q).len() && #[trigger] pick(rest, q)[k] == rest[i];
        assert(all[k] == rows[i]);
    }
}

/// Whether `t` is the time of one of the peer's messages.
pub open spec fn is_time_of(rows: Seq<RowView>, peer: Seq<char>, t: u64) -> bool {
    exists|i: int|
        0 <= i < rows.len() && (#[trigger] rows[i]).peer_id == peer && rows[i].created_at == t
}

/// A conversation that has been brought up to date begins with the time of one of its messages and
/// ends with the time of one, none is earlier or later, and it counts its messages. It is there
/// where the peer has a message, and then only.
pub proof fn session_spans_its_messages(s: StoreView, peer_id: Seq<char>, now: u64, i: int)
    requires
        trim(peer_id).len() > 0,
        s.rows.len() <= usize::MAX,
        0 <= i < s.rows.len(),
        s.rows[i].peer_id == trim(peer_id),
    ensures
        ({
            let peer = trim(peer_id);
            let t = refreshed(s, peer_id, now);
            let v = t.sessions[peer];
            &&& t.sessions.dom().contains(peer)
            &&& refreshed_session(s, peer_id, now) == Some(v)
            &&& v.peer_id == peer
            &&& v.first_message_at <= s.rows[i].created_at <= v.last_message_at
            &&& is_time_of(s.rows, peer, v.first_message_at)
            &&& is_time_of(s.rows, peer, v.last_message_at)
            &&& v.message_count == s.rows.filter(is_of(peer)).len()
            &&& v.updated_at == now
            &&& t.rows == s.rows
            &&& t.owner == s.owner
            &&& t.next_id == s.next_id
        }),
{
    let peer = trim(peer_id);
    let mine = pick(s.rows, all_of(peer));
    lemma_pick_has(s.rows, all_of(peer), i);
    lemma_pick_from(s.rows, all_of(peer));
    lemma_pick_len(s.rows, all_of(peer));
    lemma_span(mine);
    peer_reads_its_own(s.rows, peer);
    let a = choose|k: int| 0 <= k < mine.len() && (#[trigger] mine[k]).created_at == last_time(mine);
    let b = choose|k: int| 0 <= k < mine.len() && (#[trigger] mine[k]).created_at == first_time(mine);
    assert(s.rows.contains(mine[a]));
    assert(s.rows.contains(mine[b]));
}

/// Bringing a conversation up to date does not touch any other; one without messages is gone.
pub proof fn refresh_is_local(s: StoreView, peer_id: Seq<char>, now: u64, other: Seq<char>)
    ensures
        other != trim(peer_id) ==> {
            &&& refreshed(s, peer_id, now).sessions.dom().contains(other)
                == s.sessions.dom().contains(other)
            &&& s.sessions.dom().contains(other) ==> refreshed(s, peer_id, now).sessions[other]
                == s.sessions[other]
        },
        trim(peer_id).len() > 0 && (forall|i: int|
            0 <= i < s.rows.len() ==> (#[trigger] s.rows[i]).peer_id != trim(peer_id))
            ==> !refreshed(s, peer_id, now).sessions.dom().contains(trim(peer_id)),
{
    let peer = trim(peer_id);
    lemma_pick_from(s.rows, all_of(peer));
    let mine = pick(s.rows, all_of(peer));
    if mine.len() > 0 {
        assert(s.rows.contains(mine[0]));
    }
}

/// Conversations are listed with the latest message first; each is listed, and once. Of two with
/// messages at the same time the one whose peer comes first in the alphabet does.
pub proof fn latest_conversation_is_first(m: SessionMap, list: Seq<SessionView>, i: int, j: int)
    requires
        is_session_list(m, list),
        0 <= i < j < list.len(),
    ensures
        list[i].last_message_at >= list[j].last_message_at,
        list[i].peer_id != list[j].peer_id,
        list[i].last_message_at == list[j].last_message_at ==> comes_first(
            list[i].peer_id,
            list[j].peer_id,
        ),
        m.dom().contains(list[i].peer_id) && m[list[i].peer_id] == list[i],
{
    assert(crate::chat_store::listed_before(list[i], list[j]));
    crate::chat_store::lemma_text_before_total(list[i].peer_id, list[j].peer_id);
    if list[i].last_message_at == list[j].last_message_at {
        lemma_text_before(list[i].peer_id, list[j].peer_id);
    } else {
        let (a, b) = (list[i].peer_id, list[j].peer_id);
        assert(m[a] == list[i] && m[b] == list[j]);
    }
}

/// Whether one text comes before another by the first character in which they differ, or is its
/// front.
pub open spec fn comes_first(a: Seq<char>, b: Seq<char>) -> bool {
    exists|k: int|
        {
            &&& 0 <= k <= a.len()
            &&& k < b.len()
            &&& #[trigger] a.take(k) == b.take(k)
            &&& k == a.len() || a[k] < b[k]
        }
}

proof fn lemma_text_before(a: Seq<char>, b: Seq<char>)
    requires
        crate::chat_store::text_before(a, b),
    ensures
        comes_first(a, b),
    decreases a.len(),
{
    if a.len() == 0 || a[0] != b[0] {
        assert(a.take(0) =~= b.take(0));
    } else {
        let p = a.skip(1);
        let q = b.skip(1);
        lemma_text_before(p, q);
        let k = choose|k: int|
            {
                &&& 0 <= k <= p.len()
                &&& k < q.len()
                &&& #[trigger] p.take(k) == q.take(k)
                &&& k == p.len() || p[k] < q[k]
            };
        assert(a.take(k + 1) =~= b.take(k + 1)) by {
            assert forall|i: int| 0 <= i < k + 1 implies a[i] == b[i] by {
                if i > 0 {
                    assert(p.take(k)[i - 1] == a[i]);
                    assert(q.take(k)[i - 1] == b[i]);
                }
            }
        }
        if k < p.len() {
            assert(p[k] == a[k + 1] && q[k] == b[k + 1]);
        }
    }
}

proof fn lemma_pick_rising(rows: Seq<RowView>, q: QueryView, next_id: i64)
    requires
        rising(rows, next_id),
    ensures
        rising(pick(rows, q), next_id),
    decreases rows.len(),
{
    if rows.len() > 0 {
        let rest = rows.drop_last();
        assert(rising(rest, next_id)) by {
            assert forall|i: int| 0 <= i < rest.len() implies 1 <= (#[trigger] rest[i]).id
                < next_id by {
                assert(rest[i] == rows[i]);
            }
            assert forall|i: int, j: int|
                #![trigger rest[i], rest[j]]
                0 <= i < j < rest.len() implies rest[i].id < rest[j].id by {
                assert(rest[i] == rows[i] && rest[j] == rows[j]);
            }
        }
        lemma_pick_rising(rest, q, next_id);
        let before = pick(rest, q);
        let after = pick(rows, q);
        lemma_pick_from(rest, q);
        let n = rows.len() - 1;
        assert(1 <= rows[n].id < next_id);
        assert forall|i: int| 0 <= i < after.len() implies 1 <= (#[trigger] after[i]).id
            < next_id by {
            if i < before.len() {
                assert(after[i] == before[i]);
            }
        }
        assert forall|i: int, j: int|
            #![trigger after[i], after[j]]
            0 <= i < j < after.len() implies after[i].id < after[j].id by {
            assert(after[i] == before[i]);
            if j < before.len() {
                assert(after[j] == before[j]);
            } else {
                assert(rest.contains(before[i]));
                let k = choose|k: int| 0 <= k < rest.len() && rest[k] == before[i];
                assert(rows[k].id < rows[n].id);
            }
        }
    }
}

/// Of a peer's messages the latest, as many as are kept out, lie at or behind the place up to which
/// they may be summarized, and all others before it.
pub proof fn latest_messages_are_kept_out(
    rows: Seq<RowView>,
    peer: Seq<char>,
    keep_recent: nat,
    next_id: i64,
    i: int,
)
    requires
        rising(rows, next_id),
        0 <= i < rows.filter(is_of(peer)).len(),
    ensures
        ({
            let mine = rows.filter(is_of(peer));
            cutoff(rows, peer, keep_recent) matches Some(end) && (mine[i].id >= end <==> mine.len()
                - i <= keep_recent)
        }),
{
    peer_reads_its_own(rows, peer);
    lemma_pick_rising(rows, all_of(peer), next_id);
    let mine = pick(rows, all_of(peer));
    let n = mine.len() - 1;
    assert(mine[n] == mine.last());
    if keep_recent == 0 {
        if i < n {
            assert(mine[i].id < mine[n].id);
        }
    } else {
        ends_of_a_list(mine, keep_recent);
        let first = last_n(mine, keep_recent)[0];
        let k = mine.len() - last_n(mine, keep_recent).len();
        assert(first == mine[k]);
        if i < k {
            assert(mine[i].id < mine[k].id);
        } else if i > k {
            assert(mine[k].id < mine[i].id);
        }
    }
}

/// Whether a message is to be summarized: the peer's, said by the user or the assistant, behind what
/// is summarized and before what is kept out.
pub open spec fn is_due(peer: Seq<char>, until: i64, end: int) -> spec_fn(RowView) -> bool {
    |r: RowView|
        r.peer_id == peer && (r.role == "user"@ || r.role == "assistant"@) && until < r.id && r.id
            < end && exists|i: int| 0 <= i < r.content.len() && #[trigger] r.content[i] != ' '
}

/// What is handed out to be summarized are the earliest messages that are due, as many as asked for
/// where there are that many.
pub proof fn due_messages_are_handed_out(
    rows: Seq<RowView>,
    peer: Seq<char>,
    until: i64,
    keep_recent: nat,
    batch_size: nat,
    next_id: i64,
)
    requires
        rising(rows, next_id),
    ensures
        cutoff(rows, peer, keep_recent) matches Some(end) ==> {
            let due = rows.filter(is_due(peer, until, end));
            let batch = batch_rows(rows, peer, until, keep_recent, batch_size);
            &&& batch.len() == if batch_size < due.len() {
                batch_size
            } else {
                due.len()
            }
            &&& forall|i: int| 0 <= i < batch.len() ==> #[trigger] batch[i] == due[i]
        },
        cutoff(rows, peer, keep_recent) is None ==> batch_rows(
            rows,
            peer,
            until,
            keep_recent,
            batch_size,
        ).len() == 0,
{
    if let Some(end) = cutoff(rows, peer, keep_recent) {
        let q = QueryView {
            peer_id: peer,
            said: true,
            role: RoleQuery::UserOrAssistant,
            after: Some(until),
            before: Some(end as i64),
        };
        assert(i64::MIN <= end <= i64::MAX) by {
            let mine = pick(rows, all_of(peer));
            lemma_pick_rising(rows, all_of(peer), next_id);
            if mine.len() > 0 {
                assert(mine[mine.len() - 1].id < next_id);
            }
        }
        let f = is_due(peer, until, end);
        assert forall|r: RowView| #[trigger] asks(q)(r) == f(r) by {
            assert(holds_more_than_spaces(r.content) == exists|i: int|
                0 <= i < r.content.len() && #[trigger] r.content[i] != ' ');
        }
        lemma_pick_is_filter(rows, q);
        lemma_filter_same(rows, asks(q), f);
        ends_of_a_list(pick(rows, q), batch_size);
    }
}

/// A summary that reaches no less far than the one there is takes its place; one that reaches less
/// far changes nothing of it. Without messages there is nothing to keep it for.
pub proof fn summary_is_kept(
    s: StoreView,
    peer_id: Seq<char>,
    summary: Seq<char>,
    until: i64,
    now: u64,
    i: int,
)
    requires
        trim(peer_id).len() > 0,
        until > 0,
        0 <= i < s.rows.len(),
        s.rows[i].peer_id == trim(peer_id),
    ensures
        ({
            let peer = trim(peer_id);
            let t = after_summary(s, peer_id, summary, until, now);
            let known = s.sessions.dom().contains(peer);
            let reached = if known {
                s.sessions[peer].summarized_until_id
            } else {
                0
            };
            &&& t.sessions.dom().contains(peer)
            &&& t.rows == s.rows
            &&& reached <= until ==> t.sessions[peer].long_summary == summary
                && t.sessions[peer].summarized_until_id == until
                && t.sessions[peer].long_summary_updated_at == Some(now)
            &&& reached > until ==> t.sessions[peer].long_summary == s.sessions[peer].long_summary
                && t.sessions[peer].summarized_until_id == reached
        }),
{
    let peer = trim(peer_id);
    crate::text::lemma_trim_idempotent(peer_id);
    lemma_pick_has(s.rows, all_of(peer), i);
}

/// A conversation is called by the first thing that the user said in it, with single spaces and cut.
pub proof fn conversation_is_called_by_its_first_words(
    s: StoreView,
    peer: Seq<char>,
    now: u64,
    i: int,
)
    requires
        0 <= i < s.rows.len(),
        s.rows[i].peer_id == peer,
        s.rows[i].role == "user"@,
        s.rows[i].content.len() > 0,
        forall|k: int|
            0 <= k < s.rows[i].content.len() ==> !crate::text::is_white(
                #[trigger] s.rows[i].content[k],
            ),
        forall|k: int|
            0 <= k < i ==> (#[trigger] s.rows[k]).peer_id != peer || s.rows[k].role != "user"@,
        s.rows[i].content.len() <= 60,
    ensures
        session_of(s, peer, now).title == s.rows[i].content,
{
    let q = QueryView { role: RoleQuery::User, ..said_of(peer) };
    let row = s.rows[i];
    assert(!crate::text::is_white(row.content[0]));
    assert(row.content[0] != ' ');
    assert(holds_more_than_spaces(row.content));
    lemma_pick_first(s.rows, q, i);
    crate::laws::words::single_word_is_itself(row.content);
}

proof fn lemma_pick_first(rows: Seq<RowView>, q: QueryView, i: int)
    requires
        0 <= i < rows.len(),
        asked_for(q, rows[i]),
        forall|k: int| 0 <= k < i ==> !asked_for(q, #[trigger] rows[k]),
    ensures
        pick(rows, q).len() > 0,
        pick(rows, q)[0] == rows[i],
    decreases rows.len(),
{
    let rest = rows.drop_last();
    if i == rows.len() - 1 {
        assert forall|k: int| 0 <= k < rest.len() implies !asked_for(q, #[trigger] rest[k]) by {
            assert(rest[k] == rows[k]);
        }
        lemma_pick_none(rest, q);
    } else {
        assert(rest[i] == rows[i]);
        assert forall|k: int| 0 <= k < i implies !asked_for(q, #[trigger] rest[k]) by {
            assert(rest[k] == rows[k]);
        }
        lemma_pick_first(rest, q, i);
    }
}

proof fn lemma_pick_none(rows: Seq<RowView>, q: QueryView)
    requires
        forall|k: int| 0 <= k < rows.len() ==> !asked_for(q, #[trigger] rows[k]),
    ensures
        pick(rows, q).len() == 0,
    decreases rows.len(),
{
    if rows.len() > 0 {
        let rest = rows.drop_last();
        assert forall|k: int| 0 <= k < rest.len() implies !asked_for(q, #[trigger] rest[k]) by {
            assert(rest[k] == rows[k]);
        }
        assert(!asked_for(q, rows[rows.len() - 1]));
        lemma_pick_none(rest, q);
    }
}

/// What is shown of a conversation holds the latest of what was said in it, in order, each with who
/// said it, as far as there is room.
pub proof fn summary_holds_the_latest(s: StoreView, peer: Seq<char>, now: u64)
    ensures
        session_of(s, peer, now).summary.len() <= 600,
        ({
            let said = pick(s.rows, said_of(peer));
            let lines = crate::session_text::summary_lines(
                crate::chat_store::talk(last_n(said, CHAT_SESSION_SUMMARY_RECENT_LIMIT as nat)),
            );
            join(lines, "\n"@).len() <= 600 ==> session_of(s, peer, now).summary == join(
                lines,
                "\n"@,
            )
        }),
{
    let said = pick(s.rows, said_of(peer));
    let lines = crate::session_text::summary_lines(
        crate::chat_store::talk(last_n(said, CHAT_SESSION_SUMMARY_RECENT_LIMIT as nat)),
    );
    crate::laws::words::cut_text_keeps_its_front(join(lines, "\n"@), 600);
}

/// Each thing that was said has its line in a summary, with who said it; what holds no words has
/// none.
pub proof fn line_for_each_message(
    records: Seq<(Seq<char>, Seq<char>)>,
    role: Seq<char>,
    content: Seq<char>,
)
    ensures
        ({
            let before = crate::session_text::summary_lines(records);
            let after = crate::session_text::summary_lines(records.push((role, content)));
            let words = crate::session_text::compact(content);
            &&& words.len() > 0 ==> after.len() == before.len() + 1 && after.drop_last() == before
                && words.is_suffix_of(after.last()) && crate::session_text::role_name(
                role,
            ).is_prefix_of(after.last())
            &&& words.len() == 0 ==> after == before
        }),
        crate::session_text::role_name("user"@) == "用户"@,
        crate::session_text::role_name("assistant"@) == "助手"@,
        crate::session_text::role_name("tool"@) == "工具"@,
{
    reveal_strlit("user");
    reveal_strlit("assistant");
    reveal_strlit("tool");
    assert("user"@[0] == 'u' && "tool"@[0] == 't' && "assistant"@.len() == 9);
    assert("user"@.len() == 4 && "tool"@.len() == 4);
    assert(records.push((role, content)).drop_last() =~= records);
    let words = crate::session_text::compact(content);
    if words.len() > 0 {
        let before = crate::session_text::summary_lines(records);
        let line = crate::session_text::role_name(role) + "："@ + words;
        assert(before.push(line).drop_last() =~= before);
        assert(words.is_suffix_of(line));
        assert(crate::session_text::role_name(role).is_prefix_of(line));
    }
}

/// A message in JSON is found under the role and the text it gives; what is not JSON under its own
/// text, as the user's.
pub proof fn stored_message_is_found(raw: Seq<char>, v: JsonView, role: Seq<char>, text: Seq<char>)
    ensures
        v.str_at("role"@) == Some(role) && v.str_at("content"@) == Some(text)
            ==> message_parts_given(raw, Some(v)) == (role, text),
        v.str_at("role"@) is None ==> message_parts_given(raw, Some(v)).0 == "user"@,
        v.str_at("content"@) is None ==> message_parts_given(raw, Some(v)).1.len() == 0,
        message_parts_given(raw, None) == ("user"@, raw),
{
    reveal_strlit("");
}

proof fn lemma_each_keeps_rows(s: StoreView, peers: Seq<Seq<char>>, now: u64)
    ensures
        refreshed_each(s, peers, now).rows == s.rows,
    decreases peers.len(),
{
    if peers.len() > 0 {
        lemma_each_keeps_rows(s, peers.drop_last(), now);
    }
}

/// When all conversations are brought up to date, every peer with messages whose name has no white
/// space around it has one that spans its messages.
pub proof fn every_conversation_is_rebuilt(s: StoreView, peer: Seq<char>, now: u64, i: int)
    requires
        s.rows.len() <= usize::MAX,
        0 <= i < s.rows.len(),
        s.rows[i].peer_id == peer,
        peer.len() > 0,
        trim(peer) == peer,
    ensures
        ({
            let t = refreshed_each(s, peers_of(s.rows), now);
            &&& t.sessions.dom().contains(peer)
            &&& t.sessions[peer].peer_id == peer
            &&& t.sessions[peer].first_message_at <= s.rows[i].created_at
                <= t.sessions[peer].last_message_at
            &&& is_time_of(s.rows, peer, t.sessions[peer].last_message_at)
            &&& t.rows == s.rows
        }),
{
    crate::text::lemma_trim_ends(peer);
    assert(peer[0] != ' ');
    assert(holds_more_than_spaces(peer));
    lemma_peers_have(s.rows, i);
    let peers = peers_of(s.rows);
    let k = choose|k: int| 0 <= k < peers.len() && peers[k] == peer;
    lemma_each_keeps_rows(s, peers, now);
    lemma_rebuilt(s, peers, k, now, i);
}

proof fn lemma_peers_have(rows: Seq<RowView>, i: int)
    requires
        0 <= i < rows.len(),
        holds_more_than_spaces(rows[i].peer_id),
    ensures
        peers_of(rows).contains(rows[i].peer_id),
    decreases rows.len(),
{
    let rest = rows.drop_last();
    let before = peers_of(rest);
    let after = peers_of(rows);
    if i < rest.len() {
        assert(rest[i] == rows[i]);
        lemma_peers_have(rest, i);
        let k = choose|k: int| 0 <= k < before.len() && before[k] == rows[i].peer_id;
        assert(after[k] == rows[i].peer_id);
    } else if !before.contains(rows[i].peer_id) {
        assert(after[after.len() - 1] == rows[i].peer_id);
    }
}

proof fn lemma_rebuilt(s: StoreView, peers: Seq<Seq<char>>, k: int, now: u64, i: int)
    requires
        0 <= k < peers.len(),
        s.rows.len() <= usize::MAX,
        0 <= i < s.rows.len(),
        s.rows[i].peer_id == peers[k],
        peers[k].len() > 0,
        trim(peers[k]) == peers[k],
    ensures
        ({
            let peer = peers[k];
            let t = refreshed_each(s, peers, now);
            &&& t.sessions.dom().contains(peer)
            &&& t.sessions[peer].peer_id == peer
            &&& t.sessions[peer].first_message_at <= s.rows[i].created_at
                <= t.sessions[peer].last_message_at
            &&& is_time_of(s.rows, peer, t.sessions[peer].last_message_at)
        }),
    decreases peers.len(),
{
    let rest = peers.drop_last();
    let u = refreshed_each(s, rest, now);
    lemma_each_keeps_rows(s, rest, now);
    let last = peers.last();
    if trim(last) == peers[k] {
        session_spans_its_messages(u, last, now, i);
    } else {
        lemma_rebuilt(s, rest, k, now, i);
        refresh_is_local(u, last, now, peers[k]);
    }
}

/// A peer's history is cut to its latest messages, in order; those of other peers, the conversations
/// and the owner stay. 0 cuts nothing.
pub proof fn history_is_cut(s: StoreView, peer: Seq<char>, keep: usize, other: Seq<char>)
    ensures
        ({
            let t = after_prune(s, peer, keep);
            &&& keep == 0 ==> t == s
            &&& keep > 0 ==> t.rows.filter(is_of(peer)) == last_n(
                s.rows.filter(is_of(peer)),
                keep as nat,
            )
            &&& other != peer ==> t.rows.filter(is_of(other)) == s.rows.filter(is_of(other))
            &&& t.sessions == s.sessions
            &&& t.owner == s.owner
            &&& t.next_id == s.next_id
        }),
{
    prune_keeps_the_latest(s.rows, peer, keep as nat, other);
    peer_reads_its_own(s.rows, peer);
    peer_reads_its_own(s.rows, other);
    peer_reads_its_own(after_prune(s, peer, keep).rows, peer);
    peer_reads_its_own(after_prune(s, peer, keep).rows, other);
}

/// A message is stored behind all others, as it was given, under an id that no other has.
pub proof fn message_gets_its_own_place(
    s: StoreView,
    role: Seq<char>,
    content: Seq<char>,
    peer_id: Seq<char>,
    message_json: Option<Seq<char>>,
    now: u64,
)
    requires
        forall|i: int| 0 <= i < s.rows.len() ==> (#[trigger] s.rows[i]).id < s.next_id,
        s.next_id < i64::MAX,
    ensures
        ({
            let t = with_row(s, role, content, peer_id, message_json, now);
            let row = t.rows.last();
            &&& t.rows.len() == s.rows.len() + 1
            &&& t.rows.drop_last() == s.rows
            &&& row.role == role
            &&& row.content == content
            &&& row.peer_id == peer_id
            &&& row.message_json == message_json
            &&& row.created_at == now
            &&& forall|i: int| 0 <= i < s.rows.len() ==> (#[trigger] s.rows[i]).id != row.id
            &&& forall|i: int| 0 <= i < t.rows.len() ==> (#[trigger] t.rows[i]).id < t.next_id
            &&& t.sessions == s.sessions
            &&& t.owner == s.owner
        }),
{
    let t = with_row(s, role, content, peer_id, message_json, now);
    assert(t.rows.drop_last() =~= s.rows);
    assert forall|i: int| 0 <= i < t.rows.len() implies (#[trigger] t.rows[i]).id < t.next_id by {
        if i < s.rows.len() {
            assert(t.rows[i] == s.rows[i]);
        }
    }
}

/// The first peer that comes forward is the owner, for good; the messages without a peer are the
/// owner's from then on.
pub proof fn first_peer_is_the_owner(s: StoreView, peer: Seq<char>, now: u64, i: int)
    requires
        trim(peer).len() > 0,
        s.owner is None,
        0 <= i < s.rows.len(),
    ensures
        ({
            let t = owned(s, peer, now);
            &&& t.owner == Some(peer)
            &&& t.rows.len() == s.rows.len()
            &&& t.rows[i].content == s.rows[i].content
            &&& t.rows[i].id == s.rows[i].id
            &&& t.rows[i].role == s.rows[i].role
            &&& t.rows[i].peer_id == if s.rows[i].peer_id.len() == 0 {
                peer
            } else {
                s.rows[i].peer_id
            }
        }),
{
}

/// A conversation that is brought up to date keeps its summary and how far that goes; a new one has
/// none yet.
pub proof fn summary_outlasts_a_refresh(s: StoreView, peer_id: Seq<char>, now: u64, i: int)
    requires
        trim(peer_id).len() > 0,
        0 <= i < s.rows.len(),
        s.rows[i].peer_id == trim(peer_id),
    ensures
        ({
            let peer = trim(peer_id);
            let v = refreshed(s, peer_id, now).sessions[peer];
            if s.sessions.dom().contains(peer) {
                &&& v.long_summary == s.sessions[peer].long_summary
                &&& v.summarized_until_id == s.sessions[peer].summarized_until_id
                &&& v.long_summary_updated_at == s.sessions[peer].long_summary_updated_at
            } else {
                &&& v.long_summary.len() == 0
                &&& v.summarized_until_id == 0
                &&& v.long_summary_updated_at is None
            }
        }),
{
    lemma_pick_has(s.rows, all_of(trim(peer_id)), i);
}

/// Whether a peer has messages.
pub open spec fn has_messages(rows: Seq<RowView>) -> spec_fn(Seq<char>) -> bool {
    |p: Seq<char>| trim(p).len() > 0 && rows.filter(is_of(trim(p))).len() > 0
}

proof fn lemma_rows_stay(s: StoreView, peers: Seq<Seq<char>>, now: u64)
    ensures
        refreshed_each(s, peers, now).rows == s.rows,
    decreases peers.len(),
{
    if peers.len() > 0 {
        lemma_rows_stay(s, peers.drop_last(), now);
    }
}

/// As many conversations are brought up to date as there are peers with messages among those named.
pub proof fn refreshed_conversations_are_counted(s: StoreView, peers: Seq<Seq<char>>, now: u64)
    ensures
        refreshed_count(s, peers, now) == peers.filter(has_messages(s.rows)).len(),
    decreases peers.len(),
{
    reveal(Seq::filter);
    if peers.len() > 0 {
        let rest = peers.drop_last();
        refreshed_conversations_are_counted(s, rest, now);
        lemma_rows_stay(s, rest, now);
        peer_reads_its_own(s.rows, trim(peers.last()));
    }
}

} // verus!
