//! The history of conversations: the messages of each peer, what is shown of each conversation, and
//! how far it has been summarized.

use crate::json::{json_read, Json, JsonView};
use crate::numbers::{opt_str, setting, setting_usize};
use crate::session_text::{
    build_session_summary, derive_session_title, pair_views, session_summary, session_title,
    CHAT_SESSION_SUMMARY_MAX_CHARS,
};
use crate::chat::clone_opt;
use crate::string_map::StringMap;
use crate::text::{chars_of, is_blank, same, trim, trimmed, views};
use crate::tool::opt_text;
use vstd::prelude::*;

verus! {

broadcast use vstd::string::group_string_axioms;

/// How many messages a summary is made from.
pub const CHAT_SESSION_SUMMARY_RECENT_LIMIT: usize = 12;

/// How many conversations are listed where no number is given.
pub const CHAT_SESSION_LIST_LIMIT_DEFAULT: usize = 100;

/// The most conversations that are listed.
pub const CHAT_SESSION_LIST_LIMIT_MAX: usize = 500;

/// A message of the history.
#[derive(Debug, PartialEq)]
pub struct HistoryRow {
    pub id: i64,
    pub role: String,
    pub content: String,
    /// The peer, empty for messages that belong to none.
    pub peer_id: String,
    /// The whole message as JSON text, where it was stored so.
    pub message_json: Option<String>,
    /// Seconds since the epoch.
    pub created_at: u64,
}

/// The model of a [`HistoryRow`].
pub ghost struct RowView {
    pub id: i64,
    pub role: Seq<char>,
    pub content: Seq<char>,
    pub peer_id: Seq<char>,
    pub message_json: Option<Seq<char>>,
    pub created_at: u64,
}

impl View for HistoryRow {
    type V = RowView;

    open spec fn view(&self) -> RowView {
        RowView {
            id: self.id,
            role: self.role@,
            content: self.content@,
            peer_id: self.peer_id@,
            message_json: opt_text(self.message_json),
            created_at: self.created_at,
        }
    }
}

impl Clone for HistoryRow {
    fn clone(&self) -> (r: Self)
        ensures
            r@ == self@,
    {
        HistoryRow {
            id: self.id,
            role: self.role.clone(),
            content: self.content.clone(),
            peer_id: self.peer_id.clone(),
            message_json: clone_opt(&self.message_json),
            created_at: self.created_at,
        }
    }
}

/// The models of a list of rows.
pub open spec fn row_views(v: Seq<HistoryRow>) -> Seq<RowView> {
    v.map_values(|r: HistoryRow| r@)
}

/// A message of the history, as the model is told it.
#[derive(Debug, PartialEq)]
pub struct Record {
    pub role: String,
    pub content: String,
    pub created_at: u64,
    /// The whole message as JSON text, where it was stored so.
    pub message_json: Option<String>,
}

/// The model of a [`Record`].
pub ghost struct RecordView {
    pub role: Seq<char>,
    pub content: Seq<char>,
    pub created_at: u64,
    pub message_json: Option<Seq<char>>,
}

impl View for Record {
    type V = RecordView;

    open spec fn view(&self) -> RecordView {
        RecordView {
            role: self.role@,
            content: self.content@,
            created_at: self.created_at,
            message_json: opt_text(self.message_json),
        }
    }
}

/// The models of a list of records.
pub open spec fn record_views(v: Seq<Record>) -> Seq<RecordView> {
    v.map_values(|r: Record| r@)
}

/// What is kept of a conversation.
#[derive(Debug, PartialEq)]
pub struct ChatSessionSummary {
    pub peer_id: String,
    pub title: String,
    pub summary: String,
    pub message_count: usize,
    pub first_message_at: u64,
    pub last_message_at: u64,
    pub updated_at: u64,
    pub long_summary: String,
    /// The last message that the long summary covers.
    pub summarized_until_id: i64,
    pub long_summary_updated_at: Option<u64>,
}

/// The model of a [`ChatSessionSummary`].
pub ghost struct SessionView {
    pub peer_id: Seq<char>,
    pub title: Seq<char>,
    pub summary: Seq<char>,
    pub message_count: usize,
    pub first_message_at: u64,
    pub last_message_at: u64,
    pub updated_at: u64,
    pub long_summary: Seq<char>,
    pub summarized_until_id: i64,
    pub long_summary_updated_at: Option<u64>,
}

impl View for ChatSessionSummary {
    type V = SessionView;

    open spec fn view(&self) -> SessionView {
        SessionView {
            peer_id: self.peer_id@,
            title: self.title@,
            summary: self.summary@,
            message_count: self.message_count,
            first_message_at: self.first_message_at,
            last_message_at: self.last_message_at,
            updated_at: self.updated_at,
            long_summary: self.long_summary@,
            summarized_until_id: self.summarized_until_id,
            long_summary_updated_at: self.long_summary_updated_at,
        }
    }
}

impl Clone for ChatSessionSummary {
    fn clone(&self) -> (r: Self)
        ensures
            r@ == self@,
    {
        ChatSessionSummary {
            peer_id: self.peer_id.clone(),
            title: self.title.clone(),
            summary: self.summary.clone(),
            message_count: self.message_count,
            first_message_at: self.first_message_at,
            last_message_at: self.last_message_at,
            updated_at: self.updated_at,
            long_summary: self.long_summary.clone(),
            summarized_until_id: self.summarized_until_id,
            long_summary_updated_at: self.long_summary_updated_at,
        }
    }
}

/// The conversations by their peers.
pub type SessionMap = Map<Seq<char>, SessionView>;

/// The model of a map of conversations.
pub open spec fn session_views(m: Map<Seq<char>, ChatSessionSummary>) -> SessionMap {
    Map::new(|p: Seq<char>| m.dom().contains(p), |p: Seq<char>| m[p]@)
}

/// Which messages a query asks for.
pub struct RowQuery<'a> {
    pub peer_id: &'a str,
    /// Only those whose text holds more than spaces.
    pub said: bool,
    pub role: RoleQuery,
    /// Only those with a greater id.
    pub after: Option<i64>,
    /// Only those with a smaller id.
    pub before: Option<i64>,
}

/// Which roles a query asks for.
#[derive(Debug, Clone, Copy, PartialEq, Eq, Structural)]
pub enum RoleQuery {
    Any,
    User,
    UserOrAssistant,
}

/// Whether a text holds anything but spaces.
pub open spec fn holds_more_than_spaces(s: Seq<char>) -> bool {
    exists|i: int| 0 <= i < s.len() && #[trigger] s[i] != ' '
}

fn is_said(s: &str) -> (r: bool)
    ensures
        r == holds_more_than_spaces(s@),
{
    let chars = chars_of(s);
    let mut i: usize = 0;
    while i < chars.len()
        invariant
            i <= chars@.len(),
            chars@ == s@,
            forall|k: int| 0 <= k < i ==> #[trigger] s@[k] == ' ',
        decreases chars@.len() - i,
    {
        if chars[i] != ' ' {
            assert(s@[i as int] != ' ');
            return true;
        }
        i = i + 1;
    }
    false
}

/// The model of a query.
pub ghost struct QueryView {
    pub peer_id: Seq<char>,
    pub said: bool,
    pub role: RoleQuery,
    pub after: Option<i64>,
    pub before: Option<i64>,
}

/// The messages of a peer.
pub open spec fn all_of(peer_id: Seq<char>) -> QueryView {
    QueryView { peer_id, said: false, role: RoleQuery::Any, after: None, before: None }
}

/// The messages of a peer that say something.
pub open spec fn said_of(peer_id: Seq<char>) -> QueryView {
    QueryView { said: true, ..all_of(peer_id) }
}

/// Whether a message is one that the query asks for.
pub open spec fn asked_for(q: QueryView, r: RowView) -> bool {
    &&& r.peer_id == q.peer_id
    &&& q.said ==> holds_more_than_spaces(r.content)
    &&& match q.role {
        RoleQuery::Any => true,
        RoleQuery::User => r.role == "user"@,
        RoleQuery::UserOrAssistant => r.role == "user"@ || r.role == "assistant"@,
    }
    &&& q.after matches Some(n) ==> r.id > n
    &&& q.before matches Some(n) ==> r.id < n
}

/// The messages that a query asks for, in order.
pub open spec fn pick(rows: Seq<RowView>, q: QueryView) -> Seq<RowView>
    decreases rows.len(),
{
    if rows.len() == 0 {
        Seq::empty()
    } else if asked_for(q, rows.last()) {
        pick(rows.drop_last(), q).push(rows.last())
    } else {
        pick(rows.drop_last(), q)
    }
}

/// The last `n` of a list, or all where there are fewer.
pub open spec fn last_n<T>(s: Seq<T>, n: nat) -> Seq<T> {
    if s.len() <= n {
        s
    } else {
        s.skip(s.len() - n)
    }
}

/// The first `n` of a list, or all where there are fewer.
pub open spec fn first_n<T>(s: Seq<T>, n: nat) -> Seq<T> {
    if s.len() <= n {
        s
    } else {
        s.take(n as int)
    }
}

impl<'a> RowQuery<'a> {
    /// The model of the query.
    pub open spec fn model(&self) -> QueryView {
        QueryView {
            peer_id: self.peer_id@,
            said: self.said,
            role: self.role,
            after: self.after,
            before: self.before,
        }
    }

    fn wants(&self, r: &HistoryRow) -> (b: bool)
        ensures
            b == asked_for(self.model(), r@),
    {
        if !same(r.peer_id.as_str(), self.peer_id) {
            return false;
        }
        if self.said && !is_said(r.content.as_str()) {
            return false;
        }
        let role = r.role.as_str();
        let fits = match self.role {
            RoleQuery::Any => true,
            RoleQuery::User => same(role, "user"),
            RoleQuery::UserOrAssistant => same(role, "user") || same(role, "assistant"),
        };
        if !fits {
            return false;
        }
        match self.after {
            Some(n) => {
                if r.id <= n {
                    return false;
                }
            },
            None => {},
        }
        match self.before {
            Some(n) => {
                if r.id >= n {
                    return false;
                }
            },
            None => {},
        }
        true
    }
}

fn push_row(list: &mut Vec<HistoryRow>, row: HistoryRow)
    ensures
        row_views(final(list)@) == row_views(old(list)@).push(row@),
{
    let ghost before = list@;
    list.push(row);
    assert(row_views(before.push(row)) =~= row_views(before).push(row@));
}

fn pick_rows(rows: &Vec<HistoryRow>, q: &RowQuery) -> (r: Vec<HistoryRow>)
    ensures
        row_views(r@) == pick(row_views(rows@), q.model()),
{
    let ghost all = row_views(rows@);
    let mut out: Vec<HistoryRow> = Vec::new();
    let mut i: usize = 0;
    assert(all.take(0) =~= Seq::empty());
    assert(row_views(out@) =~= Seq::empty());
    while i < rows.len()
        invariant
            i <= rows@.len(),
            all == row_views(rows@),
            row_views(out@) == pick(all.take(i as int), q.model()),
        decreases rows@.len() - i,
    {
        proof {
            let t = all.take(i + 1);
            assert(t.drop_last() =~= all.take(i as int));
            assert(t.last() == rows@[i as int]@);
        }
        if q.wants(&rows[i]) {
            push_row(&mut out, rows[i].clone());
        }
        i = i + 1;
    }
    assert(all.take(all.len() as int) =~= all);
    out
}

fn last_rows(rows: &Vec<HistoryRow>, n: usize) -> (r: Vec<HistoryRow>)
    ensures
        row_views(r@) == last_n(row_views(rows@), n as nat),
{
    let ghost all = row_views(rows@);
    let start: usize = if rows.len() <= n {
        0
    } else {
        rows.len() - n
    };
    let mut out: Vec<HistoryRow> = Vec::new();
    let mut i: usize = start;
    assert(row_views(out@) =~= all.subrange(start as int, start as int));
    while i < rows.len()
        invariant
            start <= i <= rows@.len(),
            all == row_views(rows@),
            row_views(out@) == all.subrange(start as int, i as int),
        decreases rows@.len() - i,
    {
        push_row(&mut out, rows[i].clone());
        assert(all.subrange(start as int, i as int).push(all[i as int]) =~= all.subrange(
            start as int,
            i + 1,
        ));
        i = i + 1;
    }
    assert(all.subrange(start as int, all.len() as int) =~= last_n(all, n as nat));
    out
}

/// The earliest time of a list of messages that is not empty.
pub open spec fn first_time(rows: Seq<RowView>) -> u64
    decreases rows.len(),
{
    if rows.len() <= 1 {
        rows[0].created_at
    } else {
        let rest = first_time(rows.drop_last());
        if rows.last().created_at < rest {
            rows.last().created_at
        } else {
            rest
        }
    }
}

/// The latest time of a list of messages that is not empty.
pub open spec fn last_time(rows: Seq<RowView>) -> u64
    decreases rows.len(),
{
    if rows.len() <= 1 {
        rows[0].created_at
    } else {
        let rest = last_time(rows.drop_last());
        if rows.last().created_at > rest {
            rows.last().created_at
        } else {
            rest
        }
    }
}

fn time_span(rows: &Vec<HistoryRow>) -> (r: (u64, u64))
    requires
        rows@.len() > 0,
    ensures
        r.0 == first_time(row_views(rows@)),
        r.1 == last_time(row_views(rows@)),
{
    let ghost all = row_views(rows@);
    let mut lo: u64 = rows[0].created_at;
    let mut hi: u64 = rows[0].created_at;
    let mut i: usize = 1;
    while i < rows.len()
        invariant
            1 <= i <= rows@.len(),
            all == row_views(rows@),
            lo == first_time(all.take(i as int)),
            hi == last_time(all.take(i as int)),
        decreases rows@.len() - i,
    {
        proof {
            let t = all.take(i + 1);
            assert(t.drop_last() =~= all.take(i as int));
            assert(t.last() == rows@[i as int]@);
        }
        let at = rows[i].created_at;
        if at < lo {
            lo = at;
        }
        if at > hi {
            hi = at;
        }
        i = i + 1;
    }
    assert(all.take(all.len() as int) =~= all);
    (lo, hi)
}

/// The history and what is kept beside it.
pub struct HistoryStore {
    rows: Vec<HistoryRow>,
    sessions: StringMap<ChatSessionSummary>,
    owner: Option<String>,
    next_id: i64,
}

/// The model of a [`HistoryStore`].
pub ghost struct StoreView {
    /// The messages, in the order in which they came.
    pub rows: Seq<RowView>,
    pub sessions: SessionMap,
    /// The peer that the program belongs to.
    pub owner: Option<Seq<char>>,
    /// The id of the next message.
    pub next_id: i64,
}

impl View for HistoryStore {
    type V = StoreView;

    closed spec fn view(&self) -> StoreView {
        StoreView {
            rows: row_views(self.rows@),
            sessions: session_views(self.sessions@),
            owner: opt_text(self.owner),
            next_id: self.next_id,
        }
    }
}

/// Whether ids rise from message to message and are all used up before the next one.
pub open spec fn rising(rows: Seq<RowView>, next_id: i64) -> bool {
    &&& 1 <= next_id
    &&& forall|i: int| 0 <= i < rows.len() ==> 1 <= (#[trigger] rows[i]).id < next_id
    &&& forall|i: int, j: int|
        #![trigger rows[i], rows[j]]
        0 <= i < j < rows.len() ==> rows[i].id < rows[j].id
}

/// What holds of a store at all times: ids rise, and every conversation stands under its peer, which
/// is not blank and has no white space around it.
pub open spec fn store_sound(s: StoreView) -> bool {
    &&& rising(s.rows, s.next_id)
    &&& forall|p: Seq<char>| #[trigger]
        s.sessions.dom().contains(p) ==> s.sessions[p].peer_id == p && p.len() > 0 && trim(p) == p
}

/// The roles and texts of messages.
pub open spec fn talk(rows: Seq<RowView>) -> Seq<(Seq<char>, Seq<char>)> {
    rows.map_values(|r: RowView| (r.role, r.content))
}

/// The text of the first message of a list.
pub open spec fn first_text(rows: Seq<RowView>) -> Option<Seq<char>> {
    if rows.len() == 0 {
        None
    } else {
        Some(rows[0].content)
    }
}

/// What is shown of a conversation with messages, what was kept of its long summary staying.
pub open spec fn session_of(s: StoreView, peer: Seq<char>, now: u64) -> SessionView {
    let mine = pick(s.rows, all_of(peer));
    let said = pick(s.rows, said_of(peer));
    let by_user = pick(s.rows, (QueryView { role: RoleQuery::User, ..said_of(peer) }));
    let kept = s.sessions.dom().contains(peer);
    SessionView {
        peer_id: peer,
        title: session_title(first_text(by_user), first_text(said), peer),
        summary: session_summary(
            talk(last_n(said, CHAT_SESSION_SUMMARY_RECENT_LIMIT as nat)),
            CHAT_SESSION_SUMMARY_MAX_CHARS as nat,
        ),
        message_count: mine.len() as usize,
        first_message_at: first_time(mine),
        last_message_at: last_time(mine),
        updated_at: now,
        long_summary: if kept {
            s.sessions[peer].long_summary
        } else {
            Seq::empty()
        },
        summarized_until_id: if kept {
            s.sessions[peer].summarized_until_id
        } else {
            0
        },
        long_summary_updated_at: if kept {
            s.sessions[peer].long_summary_updated_at
        } else {
            None
        },
    }
}

/// The store after a conversation has been brought up to date: it is dropped where it has no
/// messages.
pub open spec fn refreshed(s: StoreView, peer_id: Seq<char>, now: u64) -> StoreView {
    let peer = trim(peer_id);
    if peer.len() == 0 {
        s
    } else if pick(s.rows, all_of(peer)).len() == 0 {
        StoreView { sessions: s.sessions.remove(peer), ..s }
    } else {
        StoreView { sessions: s.sessions.insert(peer, session_of(s, peer, now)), ..s }
    }
}

/// What is shown of a conversation after it has been brought up to date.
pub open spec fn refreshed_session(s: StoreView, peer_id: Seq<char>, now: u64) -> Option<
    SessionView,
> {
    let peer = trim(peer_id);
    if peer.len() == 0 || pick(s.rows, all_of(peer)).len() == 0 {
        None
    } else {
        Some(session_of(s, peer, now))
    }
}

/// How many messages a peer has.
pub open spec fn count_of(rows: Seq<RowView>, peer: Seq<char>) -> nat
    decreases rows.len(),
{
    if rows.len() == 0 {
        0
    } else {
        (if rows[0].peer_id == peer {
            1nat
        } else {
            0nat
        }) + count_of(rows.skip(1), peer)
    }
}

/// The messages without those of the peer that have `keep` or more of the peer's behind them.
pub open spec fn pruned(rows: Seq<RowView>, peer: Seq<char>, keep: nat) -> Seq<RowView>
    decreases rows.len(),
{
    if rows.len() == 0 {
        Seq::empty()
    } else if rows[0].peer_id == peer && count_of(rows, peer) > keep {
        pruned(rows.skip(1), peer, keep)
    } else {
        seq![rows[0]] + pruned(rows.skip(1), peer, keep)
    }
}

/// The store after a peer's history has been cut to the latest `keep` messages; 0 cuts nothing.
pub open spec fn after_prune(s: StoreView, peer: Seq<char>, keep: usize) -> StoreView {
    if keep == 0 {
        s
    } else {
        StoreView { rows: pruned(s.rows, peer, keep as nat), ..s }
    }
}

/// The store with one more message.
pub open spec fn with_row(
    s: StoreView,
    role: Seq<char>,
    content: Seq<char>,
    peer_id: Seq<char>,
    message_json: Option<Seq<char>>,
    now: u64,
) -> StoreView {
    StoreView {
        rows: s.rows.push(
            RowView { id: s.next_id, role, content, peer_id, message_json, created_at: now },
        ),
        next_id: (s.next_id + 1) as i64,
        ..s
    }
}

/// The store after messages of a peer have been added: its history is cut and its conversation
/// brought up to date.
pub open spec fn settled(s: StoreView, peer_id: Seq<char>, keep: usize, now: u64) -> StoreView {
    refreshed(after_prune(s, peer_id, keep), peer_id, now)
}

/// How many messages of a peer are kept; 0 is no limit.
pub fn chat_history_max_per_peer(value: Option<&str>) -> (r: usize)
    ensures
        r == setting(opt_str(value), usize::MAX as nat, 1000),
{
    setting_usize(value, 1000)
}

/// The role and the text under which a message in JSON is found, given what it reads as: the user's
/// where it says no role, and the raw text where it is not JSON.
pub open spec fn message_parts_given(raw: Seq<char>, parsed: Option<JsonView>) -> (
    Seq<char>,
    Seq<char>,
) {
    match parsed {
        Some(v) => (
            match v.str_at("role"@) {
                Some(r) => r,
                None => "user"@,
            },
            match v.str_at("content"@) {
                Some(c) => c,
                None => ""@,
            },
        ),
        None => ("user"@, raw),
    }
}

/// The role and the text under which a message in JSON is found.
pub fn message_parts_from(raw: &str, parsed: &Option<Json>) -> (r: (String, String))
    ensures
        (r.0@, r.1@) == message_parts_given(raw@, crate::tool::opt_json(*parsed)),
{
    match parsed {
        Some(v) => {
            let role = match v.str_at("role") {
                Some(r) => r.to_owned(),
                None => "user".to_owned(),
            };
            let content = match v.str_at("content") {
                Some(c) => c.to_owned(),
                None => "".to_owned(),
            };
            (role, content)
        },
        None => ("user".to_owned(), raw.to_owned()),
    }
}

/// The messages with the peer given to those that have none.
pub open spec fn adopted(rows: Seq<RowView>, peer: Seq<char>) -> Seq<RowView> {
    rows.map_values(
        |r: RowView|
            if r.peer_id.len() == 0 {
                RowView { peer_id: peer, ..r }
            } else {
                r
            },
    )
}

/// The store after a peer has come forward as the owner: the first that is not blank is, for good,
/// and gets the messages that belong to none.
pub open spec fn owned(s: StoreView, peer_id: Seq<char>, now: u64) -> StoreView {
    if trim(peer_id).len() == 0 || s.owner is Some {
        s
    } else {
        refreshed(
            StoreView { owner: Some(peer_id), rows: adopted(s.rows, peer_id), ..s },
            peer_id,
            now,
        )
    }
}

/// The id before which messages may be summarized: that of the first of the latest `keep_recent`
/// messages, or one behind the last message where none are kept out.
pub open spec fn cutoff(rows: Seq<RowView>, peer: Seq<char>, keep_recent: nat) -> Option<int> {
    let mine = pick(rows, all_of(peer));
    if keep_recent == 0 {
        Some(
            if mine.len() == 0 {
                1
            } else {
                mine.last().id + 1
            },
        )
    } else if mine.len() == 0 {
        None
    } else {
        Some(last_n(mine, keep_recent)[0].id as int)
    }
}

/// The messages that are next to be summarized.
pub open spec fn batch_rows(
    rows: Seq<RowView>,
    peer: Seq<char>,
    until: i64,
    keep_recent: nat,
    batch_size: nat,
) -> Seq<RowView> {
    match cutoff(rows, peer, keep_recent) {
        Some(end) => first_n(
            pick(
                rows,
                QueryView {
                    peer_id: peer,
                    said: true,
                    role: RoleQuery::UserOrAssistant,
                    after: Some(until),
                    before: Some(end as i64),
                },
            ),
            batch_size,
        ),
        None => Seq::empty(),
    }
}

/// How far a conversation has been summarized.
#[derive(Debug, PartialEq)]
pub struct ChatLongSummary {
    pub summary: String,
    pub summarized_until_id: i64,
    pub updated_at: Option<u64>,
}

/// A message that is to be summarized.
pub type LongSummaryRecord = HistoryRow;

/// The messages that are next to be summarized, and what there is so far.
#[derive(Debug, PartialEq)]
pub struct LongSummaryBatch {
    pub peer_id: String,
    pub existing_summary: String,
    pub summarized_until_id: i64,
    pub records: Vec<LongSummaryRecord>,
}

/// A conversation with a new long summary, where that covers no less than the one it has.
pub open spec fn summarized(v: SessionView, summary: Seq<char>, until: i64, now: u64) -> SessionView {
    if v.summarized_until_id <= until {
        SessionView {
            long_summary: summary,
            summarized_until_id: until,
            long_summary_updated_at: Some(now),
            ..v
        }
    } else {
        v
    }
}

/// The store after a long summary has been handed in.
pub open spec fn after_summary(
    s: StoreView,
    peer_id: Seq<char>,
    summary: Seq<char>,
    until: i64,
    now: u64,
) -> StoreView {
    let peer = trim(peer_id);
    if peer.len() == 0 || until <= 0 {
        s
    } else {
        let t = refreshed(s, peer, now);
        if t.sessions.dom().contains(peer) {
            StoreView {
                sessions: t.sessions.insert(
                    peer,
                    summarized(t.sessions[peer], summary, until, now),
                ),
                ..t
            }
        } else {
            t
        }
    }
}

/// How many conversations are listed.
pub open spec fn list_limit(limit: usize) -> usize {
    if limit == 0 {
        CHAT_SESSION_LIST_LIMIT_DEFAULT
    } else if limit > CHAT_SESSION_LIST_LIMIT_MAX {
        CHAT_SESSION_LIST_LIMIT_MAX
    } else {
        limit
    }
}

/// How many conversations are listed.
pub fn normalize_session_list_limit(limit: usize) -> (r: usize)
    ensures
        r == list_limit(limit),
{
    if limit == 0 {
        CHAT_SESSION_LIST_LIMIT_DEFAULT
    } else if limit > CHAT_SESSION_LIST_LIMIT_MAX {
        CHAT_SESSION_LIST_LIMIT_MAX
    } else {
        limit
    }
}

/// The models of a list of conversations.
pub open spec fn session_list(v: Seq<ChatSessionSummary>) -> Seq<SessionView> {
    v.map_values(|s: ChatSessionSummary| s@)
}

/// Whether one text comes before another, character by character.
pub open spec fn text_before(a: Seq<char>, b: Seq<char>) -> bool
    decreases a.len(),
{
    if b.len() == 0 {
        false
    } else if a.len() == 0 {
        true
    } else if a[0] != b[0] {
        a[0] < b[0]
    } else {
        text_before(a.skip(1), b.skip(1))
    }
}

fn is_text_before(a: &str, b: &str) -> (r: bool)
    ensures
        r == text_before(a@, b@),
{
    let x = chars_of(a);
    let y = chars_of(b);
    let mut i: usize = 0;
    assert(x@.skip(0) =~= x@);
    assert(y@.skip(0) =~= y@);
    loop
        invariant
            i <= x@.len(),
            i <= y@.len(),
            text_before(a@, b@) == text_before(x@.skip(i as int), y@.skip(i as int)),
        decreases x@.len() - i,
    {
        if i == y.len() {
            return false;
        }
        if i == x.len() {
            return true;
        }
        proof {
            let p = x@.skip(i as int);
            let q = y@.skip(i as int);
            assert(p[0] == x@[i as int]);
            assert(q[0] == y@[i as int]);
            assert(p.skip(1) =~= x@.skip(i + 1));
            assert(q.skip(1) =~= y@.skip(i + 1));
        }
        if x[i] != y[i] {
            return x[i] < y[i];
        }
        i = i + 1;
    }
}

/// Of two texts that differ exactly one comes before the other.
pub proof fn lemma_text_before_total(a: Seq<char>, b: Seq<char>)
    ensures
        a == b || text_before(a, b) || text_before(b, a),
        !(text_before(a, b) && text_before(b, a)),
        !text_before(a, a),
    decreases a.len(),
{
    if a.len() > 0 {
        lemma_text_before_total(a.skip(1), a.skip(1));
    }
    if a.len() > 0 && b.len() > 0 && a[0] == b[0] {
        lemma_text_before_total(a.skip(1), b.skip(1));
        if a.skip(1) == b.skip(1) {
            assert(a =~= seq![a[0]] + a.skip(1));
            assert(b =~= seq![b[0]] + b.skip(1));
        }
    }
    if a.len() == 0 && b.len() == 0 {
        assert(a =~= b);
    }
}

proof fn lemma_text_before_trans(a: Seq<char>, b: Seq<char>, c: Seq<char>)
    requires
        text_before(a, b),
        text_before(b, c),
    ensures
        text_before(a, c),
    decreases a.len(),
{
    if a.len() > 0 && b.len() > 0 && c.len() > 0 && a[0] == b[0] && b[0] == c[0] {
        lemma_text_before_trans(a.skip(1), b.skip(1), c.skip(1));
    }
}

/// Whether one conversation is listed before another: the one with the later message, and of two
/// with the same time the one whose peer comes first.
pub open spec fn listed_before(a: SessionView, b: SessionView) -> bool {
    a.last_message_at > b.last_message_at || (a.last_message_at == b.last_message_at
        && text_before(a.peer_id, b.peer_id))
}

/// Whether `list` holds each conversation once, sorted. There is one such list.
pub open spec fn is_session_list(m: SessionMap, list: Seq<SessionView>) -> bool {
    &&& forall|i: int|
        0 <= i < list.len() ==> m.dom().contains((#[trigger] list[i]).peer_id)
            && m[list[i].peer_id] == list[i]
    &&& forall|p: Seq<char>| #[trigger]
        m.dom().contains(p) ==> exists|i: int| 0 <= i < list.len() && (#[trigger] list[i]).peer_id
            == p
    &&& sorted_list(list)
}

/// Whether a list of conversations is sorted.
pub open spec fn sorted_list(list: Seq<SessionView>) -> bool {
    forall|i: int, j: int|
        #![trigger list[i], list[j]]
        0 <= i < j < list.len() ==> listed_before(list[i], list[j])
}

proof fn lemma_pick_front(rows: Seq<RowView>, q: QueryView)
    requires
        rows.len() > 0,
    ensures
        pick(rows, q) == (if asked_for(q, rows[0]) {
            seq![rows[0]]
        } else {
            Seq::empty()
        }) + pick(rows.skip(1), q),
    decreases rows.len(),
{
    let front = if asked_for(q, rows[0]) {
        seq![rows[0]]
    } else {
        Seq::empty()
    };
    if rows.len() == 1 {
        assert(rows.skip(1) =~= Seq::empty());
        assert(rows.drop_last() =~= Seq::empty());
        assert(pick(rows.drop_last(), q) =~= Seq::empty());
        assert(pick(rows, q) =~= front + pick(rows.skip(1), q));
    } else {
        let shorter = rows.drop_last();
        lemma_pick_front(shorter, q);
        assert(shorter.skip(1) =~= rows.skip(1).drop_last());
        assert(rows.skip(1).last() == rows.last());
        assert(shorter[0] == rows[0]);
        assert(pick(rows, q) =~= front + pick(rows.skip(1), q));
    }
}

proof fn lemma_count_is_pick(rows: Seq<RowView>, peer: Seq<char>)
    ensures
        count_of(rows, peer) == pick(rows, all_of(peer)).len(),
    decreases rows.len(),
{
    if rows.len() > 0 {
        lemma_pick_front(rows, all_of(peer));
        lemma_count_is_pick(rows.skip(1), peer);
    }
}

proof fn lemma_pruned_from(rows: Seq<RowView>, peer: Seq<char>, keep: nat)
    ensures
        pruned(rows, peer, keep).len() <= rows.len(),
        forall|i: int|
            0 <= i < pruned(rows, peer, keep).len() ==> rows.contains(
                #[trigger] pruned(rows, peer, keep)[i],
            ),
    decreases rows.len(),
{
    if rows.len() > 0 {
        let rest = rows.skip(1);
        lemma_pruned_from(rest, peer, keep);
        let out = pruned(rows, peer, keep);
        let tail = pruned(rest, peer, keep);
        assert forall|i: int| 0 <= i < out.len() implies rows.contains(#[trigger] out[i]) by {
            let skipped = rows[0].peer_id == peer && count_of(rows, peer) > keep;
            if !skipped && i == 0 {
                assert(out[0] == rows[0]);
            } else {
                let k = if skipped {
                    i
                } else {
                    i - 1
                };
                assert(out[i] == tail[k]);
                let j = choose|j: int| 0 <= j < rest.len() && rest[j] == tail[k];
                assert(rows[j + 1] == out[i]);
            }
        }
    }
}

proof fn lemma_pruned_rising(rows: Seq<RowView>, peer: Seq<char>, keep: nat, next_id: i64)
    requires
        rising(rows, next_id),
    ensures
        rising(pruned(rows, peer, keep), next_id),
    decreases rows.len(),
{
    if rows.len() > 0 {
        let rest = rows.skip(1);
        assert(rising(rest, next_id)) by {
            assert forall|i: int| 0 <= i < rest.len() implies 1 <= (#[trigger] rest[i]).id
                < next_id by {
                assert(rest[i] == rows[i + 1]);
            }
            assert forall|i: int, j: int|
                #![trigger rest[i], rest[j]]
                0 <= i < j < rest.len() implies rest[i].id < rest[j].id by {
                assert(rest[i] == rows[i + 1]);
                assert(rest[j] == rows[j + 1]);
            }
        }
        lemma_pruned_rising(rest, peer, keep, next_id);
        lemma_pruned_from(rest, peer, keep);
        let out = pruned(rows, peer, keep);
        let tail = pruned(rest, peer, keep);
        if !(rows[0].peer_id == peer && count_of(rows, peer) > keep) {
            assert forall|i: int| 0 <= i < out.len() implies 1 <= (#[trigger] out[i]).id
                < next_id by {
                if i > 0 {
                    assert(out[i] == tail[i - 1]);
                }
            }
            assert forall|i: int, j: int|
                #![trigger out[i], out[j]]
                0 <= i < j < out.len() implies out[i].id < out[j].id by {
                assert(out[j] == tail[j - 1]);
                if i > 0 {
                    assert(out[i] == tail[i - 1]);
                } else {
                    let k = choose|k: int| 0 <= k < rest.len() && rest[k] == tail[j - 1];
                    assert(rows[k + 1] == out[j]);
                    assert(out[0] == rows[0]);
                }
            }
        }
    }
}

/// The peers that have messages, those whose name is made of spaces alone left out, in the order of
/// their first message.
pub open spec fn peers_of(rows: Seq<RowView>) -> Seq<Seq<char>>
    decreases rows.len(),
{
    if rows.len() == 0 {
        Seq::empty()
    } else {
        let rest = peers_of(rows.drop_last());
        let peer = rows.last().peer_id;
        if holds_more_than_spaces(peer) && !rest.contains(peer) {
            rest.push(peer)
        } else {
            rest
        }
    }
}

/// The store after several conversations have been brought up to date.
pub open spec fn refreshed_each(s: StoreView, peers: Seq<Seq<char>>, now: u64) -> StoreView
    decreases peers.len(),
{
    if peers.len() == 0 {
        s
    } else {
        refreshed(refreshed_each(s, peers.drop_last(), now), peers.last(), now)
    }
}

/// How many of the peers have a conversation to bring up to date.
pub open spec fn refreshed_count(s: StoreView, peers: Seq<Seq<char>>, now: u64) -> nat
    decreases peers.len(),
{
    if peers.len() == 0 {
        0
    } else {
        refreshed_count(s, peers.drop_last(), now) + if refreshed_session(
            refreshed_each(s, peers.drop_last(), now),
            peers.last(),
            now,
        ) is Some {
            1nat
        } else {
            0nat
        }
    }
}

impl HistoryStore {
    /// A store without messages.
    pub fn new() -> (r: Self)
        ensures
            r@ == (StoreView {
                rows: Seq::empty(),
                sessions: Map::empty(),
                owner: None,
                next_id: 1,
            }),
            store_sound(r@),
    {
        let r = HistoryStore {
            rows: Vec::new(),
            sessions: StringMap::new(),
            owner: None,
            next_id: 1,
        };
        proof {
            assert(r@.rows =~= Seq::empty());
            assert(r@.sessions =~= Map::empty());
        }
        r
    }

    /// A store with messages that were kept. None where their ids do not rise, or reach the next
    /// one.
    pub fn load(rows: Vec<HistoryRow>, owner: Option<String>, next_id: i64) -> (r: Option<Self>)
        ensures
            r is Some == rising(row_views(rows@), next_id),
            r matches Some(s) ==> store_sound(s@) && s@ == (StoreView {
                rows: row_views(rows@),
                sessions: Map::empty(),
                owner: opt_text(owner),
                next_id,
            }),
    {
        let ghost all = row_views(rows@);
        if next_id < 1 {
            return None;
        }
        let mut i: usize = 0;
        while i < rows.len()
            invariant
                i <= rows@.len(),
                all == row_views(rows@),
                1 <= next_id,
                forall|k: int| 0 <= k < i ==> 1 <= (#[trigger] all[k]).id < next_id,
                forall|a: int, b: int|
                    #![trigger all[a], all[b]]
                    0 <= a < b < i ==> all[a].id < all[b].id,
            decreases rows@.len() - i,
        {
            assert(all[i as int] == rows@[i as int]@);
            if rows[i].id < 1 || rows[i].id >= next_id {
                assert(!(1 <= all[i as int].id < next_id));
                return None;
            }
            if i > 0 && rows[i].id <= rows[i - 1].id {
                assert(!(all[i - 1].id < all[i as int].id));
                return None;
            }
            i = i + 1;
        }
        let r = HistoryStore { rows, sessions: StringMap::new(), owner, next_id };
        assert(r@.sessions =~= Map::empty());
        Some(r)
    }

    /// Takes in a conversation that was kept. False where its peer is blank or has white space
    /// around it.
    pub fn load_session(&mut self, session: ChatSessionSummary) -> (r: bool)
        requires
            store_sound(old(self)@),
        ensures
            r == (session@.peer_id.len() > 0 && trim(session@.peer_id) == session@.peer_id),
            final(self)@ == if r {
                StoreView {
                    sessions: old(self)@.sessions.insert(session@.peer_id, session@),
                    ..old(self)@
                }
            } else {
                old(self)@
            },
            store_sound(final(self)@),
    {
        let t = trimmed(session.peer_id.as_str());
        if t.as_str().is_empty() || !same(t.as_str(), session.peer_id.as_str()) {
            proof {
                crate::text::lemma_trim_ends(session.peer_id@);
            }
            return false;
        }
        let ghost before = self.sessions@;
        let peer = session.peer_id.clone();
        self.sessions.insert(peer.as_str(), session);
        assert(self@.sessions =~= session_views(before).insert(peer@, session@));
        true
    }

    /// Tells whether there are ids left for `n` more messages.
    pub fn has_room(&self, n: i64) -> (r: bool)
        requires
            0 <= n,
        ensures
            r == (self@.next_id <= i64::MAX - n),
    {
        self.next_id <= i64::MAX - n
    }

    /// All messages of the store.
    pub fn rows(&self) -> (r: &Vec<HistoryRow>)
        ensures
            row_views(r@) == self@.rows,
    {
        &self.rows
    }

    /// The id that the next message will have.
    pub fn next_id(&self) -> (r: i64)
        ensures
            r == self@.next_id,
    {
        self.next_id
    }

    /// The latest `limit` messages of a peer, or of all peers where none is named, oldest first.
    pub fn fetch_recent(&self, limit: usize, peer_id: &str) -> (r: Vec<HistoryRow>)
        ensures
            row_views(r@) == last_n(
                if peer_id@.len() == 0 {
                    self@.rows
                } else {
                    pick(self@.rows, all_of(peer_id@))
                },
                limit as nat,
            ),
    {
        if peer_id.is_empty() {
            last_rows(&self.rows, limit)
        } else {
            let q = RowQuery {
                peer_id,
                said: false,
                role: RoleQuery::Any,
                after: None,
                before: None,
            };
            let mine = pick_rows(&self.rows, &q);
            last_rows(&mine, limit)
        }
    }

    fn add_row(
        &mut self,
        role: &str,
        content: &str,
        peer_id: &str,
        message_json: Option<String>,
        now: u64,
    )
        requires
            store_sound(old(self)@),
            old(self)@.next_id < i64::MAX,
        ensures
            final(self)@ == with_row(
                old(self)@,
                role@,
                content@,
                peer_id@,
                opt_text(message_json),
                now,
            ),
            store_sound(final(self)@),
    {
        let row = HistoryRow {
            id: self.next_id,
            role: role.to_owned(),
            content: content.to_owned(),
            peer_id: peer_id.to_owned(),
            message_json,
            created_at: now,
        };
        self.next_id = self.next_id + 1;
        push_row(&mut self.rows, row);
    }

    /// Cuts a peer's history to the latest `keep` messages; 0 cuts nothing. Returns how many are
    /// gone.
    pub fn prune_peer_history(&mut self, peer_id: &str, keep: usize) -> (r: usize)
        requires
            store_sound(old(self)@),
        ensures
            final(self)@ == after_prune(old(self)@, peer_id@, keep),
            r == old(self)@.rows.len() - final(self)@.rows.len(),
            store_sound(final(self)@),
    {
        if keep == 0 {
            return 0;
        }
        let ghost all = row_views(self.rows@);
        let mut left: usize = 0;
        let mut i: usize = self.rows.len();
        assert(all.skip(all.len() as int) =~= Seq::empty());
        while i > 0
            invariant
                i <= self.rows@.len(),
                all == row_views(self.rows@),
                left == count_of(all.skip(i as int), peer_id@),
                left + i <= self.rows.len(),
            decreases i,
        {
            i = i - 1;
            proof {
                let t = all.skip(i as int);
                assert(t[0] == self.rows@[i as int]@);
                assert(t.skip(1) =~= all.skip(i + 1));
            }
            if same(self.rows[i].peer_id.as_str(), peer_id) {
                left = left + 1;
            }
        }
        assert(all.skip(0) =~= all);
        let mut out: Vec<HistoryRow> = Vec::new();
        let mut removed: usize = 0;
        let mut k: usize = 0;
        proof {
            assert(row_views(out@) =~= Seq::empty());
            assert(Seq::<RowView>::empty() + pruned(all, peer_id@, keep as nat) =~= pruned(
                all,
                peer_id@,
                keep as nat,
            ));
        }
        while k < self.rows.len()
            invariant
                k <= self.rows@.len(),
                all == row_views(self.rows@),
                left == count_of(all.skip(k as int), peer_id@),
                removed + out@.len() == k,
                row_views(out@) + pruned(all.skip(k as int), peer_id@, keep as nat) == pruned(
                    all,
                    peer_id@,
                    keep as nat,
                ),
            decreases self.rows@.len() - k,
        {
            let ghost t = all.skip(k as int);
            let ghost kept = row_views(out@);
            proof {
                assert(t[0] == self.rows@[k as int]@);
                assert(t.skip(1) =~= all.skip(k + 1));
            }
            let mine = same(self.rows[k].peer_id.as_str(), peer_id);
            if mine && left > keep {
                removed = removed + 1;
            } else {
                push_row(&mut out, self.rows[k].clone());
                assert(kept + (seq![t[0]] + pruned(t.skip(1), peer_id@, keep as nat)) =~= kept.push(
                    t[0],
                ) + pruned(t.skip(1), peer_id@, keep as nat));
            }
            if mine {
                left = left - 1;
            }
            k = k + 1;
        }
        proof {
            assert(all.skip(all.len() as int) =~= Seq::empty());
            assert(row_views(out@) + Seq::empty() =~= row_views(out@));
            lemma_pruned_rising(all, peer_id@, keep as nat, self.next_id);
        }
        self.rows = out;
        removed
    }

    /// Brings a conversation up to date, and returns it where it has messages.
    pub fn refresh_session_metadata(&mut self, peer_id: &str, now: u64) -> (r: Option<ChatSessionSummary>)
        requires
            store_sound(old(self)@),
        ensures
            final(self)@ == refreshed(old(self)@, peer_id@, now),
            match r {
                Some(v) => refreshed_session(old(self)@, peer_id@, now) == Some(v@),
                None => refreshed_session(old(self)@, peer_id@, now) is None,
            },
            store_sound(final(self)@),
    {
        let ghost s = self@;
        let ghost before = self.sessions@;
        let peer = trimmed(peer_id);
        if peer.as_str().is_empty() {
            return None;
        }
        let all = RowQuery {
            peer_id: peer.as_str(),
            said: false,
            role: RoleQuery::Any,
            after: None,
            before: None,
        };
        let mine = pick_rows(&self.rows, &all);
        if mine.len() == 0 {
            let _ = self.sessions.remove(peer.as_str());
            assert(self@.sessions =~= s.sessions.remove(peer@));
            return None;
        }
        let said_query = RowQuery {
            peer_id: peer.as_str(),
            said: true,
            role: RoleQuery::Any,
            after: None,
            before: None,
        };
        let said = pick_rows(&self.rows, &said_query);
        let user_query = RowQuery {
            peer_id: peer.as_str(),
            said: true,
            role: RoleQuery::User,
            after: None,
            before: None,
        };
        let by_user = pick_rows(&self.rows, &user_query);
        let first_user = if by_user.len() > 0 {
            Some(by_user[0].content.as_str())
        } else {
            None
        };
        let fallback = if said.len() > 0 {
            Some(said[0].content.as_str())
        } else {
            None
        };
        let title = derive_session_title(first_user, fallback, peer.as_str());
        let recent = last_rows(&said, CHAT_SESSION_SUMMARY_RECENT_LIMIT);
        let mut snippets: Vec<(String, String)> = Vec::new();
        let mut i: usize = 0;
        while i < recent.len()
            invariant
                i <= recent@.len(),
                snippets@.len() == i,
                forall|k: int|
                    0 <= k < i ==> (#[trigger] snippets@[k]).0@ == recent@[k].role@
                        && snippets@[k].1@ == recent@[k].content@,
            decreases recent@.len() - i,
        {
            snippets.push((recent[i].role.clone(), recent[i].content.clone()));
            i = i + 1;
        }
        assert(pair_views(snippets@) =~= talk(row_views(recent@)));
        let summary = build_session_summary(
            snippets.as_slice(),
            CHAT_SESSION_SUMMARY_MAX_CHARS,
        );
        let (first_message_at, last_message_at) = time_span(&mine);
        let (long_summary, summarized_until_id, long_summary_updated_at) = match self.sessions.get(
            peer.as_str(),
        ) {
            Some(v) => (
                v.long_summary.clone(),
                v.summarized_until_id,
                v.long_summary_updated_at,
            ),
            None => (String::new(), 0i64, None),
        };
        let session = ChatSessionSummary {
            peer_id: peer.clone(),
            title,
            summary,
            message_count: mine.len(),
            first_message_at,
            last_message_at,
            updated_at: now,
            long_summary,
            summarized_until_id,
            long_summary_updated_at,
        };
        assert(session@ == session_of(s, peer@, now));
        let shown = session.clone();
        self.sessions.insert(peer.as_str(), session);
        proof {
            assert(self@.sessions =~= s.sessions.insert(peer@, session@));
            crate::text::lemma_trim_idempotent(peer_id@);
        }
        Some(shown)
    }

    /// Cuts a peer's history and brings its conversation up to date. Returns how many messages are
    /// gone.
    pub fn prune_and_refresh_peer(&mut self, peer_id: &str, keep: usize, now: u64) -> (r: usize)
        requires
            store_sound(old(self)@),
        ensures
            final(self)@ == settled(old(self)@, peer_id@, keep, now),
            r == old(self)@.rows.len() - final(self)@.rows.len(),
            store_sound(final(self)@),
    {
        let removed = self.prune_peer_history(peer_id, keep);
        let _ = self.refresh_session_metadata(peer_id, now);
        removed
    }

    /// Adds a message. Returns how many older ones of the peer are gone for it.
    pub fn append_record(
        &mut self,
        role: &str,
        content: &str,
        peer_id: &str,
        keep: usize,
        now: u64,
    ) -> (r: usize)
        requires
            store_sound(old(self)@),
            old(self)@.next_id < i64::MAX,
        ensures
            final(self)@ == settled(
                with_row(old(self)@, role@, content@, peer_id@, None, now),
                peer_id@,
                keep,
                now,
            ),
            r == old(self)@.rows.len() + 1 - final(self)@.rows.len(),
            store_sound(final(self)@),
    {
        self.add_row(role, content, peer_id, None, now);
        self.prune_and_refresh_peer(peer_id, keep, now)
    }

    /// Adds what the user said and what was answered. Returns how many older messages are gone.
    pub fn append_pair(
        &mut self,
        user_msg: &str,
        assistant_msg: &str,
        peer_id: &str,
        keep: usize,
        now: u64,
    ) -> (r: usize)
        requires
            store_sound(old(self)@),
            old(self)@.next_id < i64::MAX - 1,
        ensures
            final(self)@ == settled(
                with_row(
                    with_row(old(self)@, "user"@, user_msg@, peer_id@, None, now),
                    "assistant"@,
                    assistant_msg@,
                    peer_id@,
                    None,
                    now,
                ),
                peer_id@,
                keep,
                now,
            ),
            r == old(self)@.rows.len() + 2 - final(self)@.rows.len(),
            store_sound(final(self)@),
    {
        self.add_row("user", user_msg, peer_id, None, now);
        self.add_row("assistant", assistant_msg, peer_id, None, now);
        self.prune_and_refresh_peer(peer_id, keep, now)
    }

    /// Adds a message in JSON. Returns how many older ones of the peer are gone for it.
    pub fn append_json_message(
        &mut self,
        message_json: &str,
        peer_id: &str,
        keep: usize,
        now: u64,
    ) -> (r: usize)
        requires
            store_sound(old(self)@),
            old(self)@.next_id < i64::MAX,
        ensures
            ({
                let parts = message_parts_given(message_json@, json_read(message_json@));
                final(self)@ == settled(
                    with_row(
                        old(self)@,
                        parts.0,
                        parts.1,
                        peer_id@,
                        Some(message_json@),
                        now,
                    ),
                    peer_id@,
                    keep,
                    now,
                )
            }),
            r == old(self)@.rows.len() + 1 - final(self)@.rows.len(),
            store_sound(final(self)@),
    {
        let parsed = Json::parse(message_json);
        let (role, content) = message_parts_from(message_json, &parsed);
        self.add_row(
            role.as_str(),
            content.as_str(),
            peer_id,
            Some(message_json.to_owned()),
            now,
        );
        self.prune_and_refresh_peer(peer_id, keep, now)
    }

    /// Deletes all messages and conversations. Returns how many messages there were.
    pub fn clear_all(&mut self) -> (r: usize)
        requires
            store_sound(old(self)@),
        ensures
            r == old(self)@.rows.len(),
            final(self)@ == (StoreView {
                rows: Seq::empty(),
                sessions: Map::empty(),
                ..old(self)@
            }),
            store_sound(final(self)@),
    {
        let n = self.rows.len();
        self.rows = Vec::new();
        self.sessions.clear();
        assert(self@.rows =~= Seq::empty());
        assert(self@.sessions =~= Map::empty());
        n
    }

    /// Makes the peer the owner where there is none yet. Returns the owner, none where the peer is
    /// blank.
    pub fn ensure_owner_peer(&mut self, peer_id: &str, now: u64) -> (r: Option<String>)
        requires
            store_sound(old(self)@),
        ensures
            final(self)@ == owned(old(self)@, peer_id@, now),
            opt_text(r) == if trim(peer_id@).len() == 0 {
                None
            } else {
                final(self)@.owner
            },
            store_sound(final(self)@),
    {
        if is_blank(peer_id) {
            return None;
        }
        if self.owner.is_some() {
            return clone_opt(&self.owner);
        }
        let ghost s = self@;
        self.owner = Some(peer_id.to_owned());
        let mut i: usize = 0;
        let ghost target = adopted(s.rows, peer_id@);
        while i < self.rows.len()
            invariant
                i <= self.rows@.len(),
                self.rows@.len() == s.rows.len(),
                target == adopted(s.rows, peer_id@),
                forall|k: int| 0 <= k < i ==> (#[trigger] self.rows@[k])@ == target[k],
                forall|k: int|
                    i <= k < self.rows@.len() ==> (#[trigger] self.rows@[k])@ == s.rows[k],
                self.sessions@ == old(self).sessions@,
                self.next_id == s.next_id,
                self.owner matches Some(o) && o@ == peer_id@,
            decreases self.rows@.len() - i,
        {
            if self.rows[i].peer_id.as_str().is_empty() {
                let mut row = self.rows[i].clone();
                row.peer_id = peer_id.to_owned();
                self.rows.set(i, row);
            }
            i = i + 1;
        }
        proof {
            assert(row_views(self.rows@) =~= target);
            assert(rising(target, s.next_id)) by {
                assert forall|i: int| 0 <= i < target.len() implies 1 <= (#[trigger] target[i]).id
                    < s.next_id by {
                    assert(target[i].id == s.rows[i].id);
                }
                assert forall|i: int, j: int|
                    #![trigger target[i], target[j]]
                    0 <= i < j < target.len() implies target[i].id < target[j].id by {
                    assert(target[i].id == s.rows[i].id);
                    assert(target[j].id == s.rows[j].id);
                }
            }
        }
        let _ = self.refresh_session_metadata(peer_id, now);
        clone_opt(&self.owner)
    }

    fn named_peers(&self) -> (r: Vec<String>)
        ensures
            views(r@) == peers_of(self@.rows),
    {
        let ghost rows = self@.rows;
        let mut peers: Vec<String> = Vec::new();
        let mut i: usize = 0;
        assert(rows.take(0) =~= Seq::empty());
        assert(views(peers@) =~= Seq::empty());
        while i < self.rows.len()
            invariant
                i <= self.rows@.len(),
                rows == row_views(self.rows@),
                views(peers@) == peers_of(rows.take(i as int)),
            decreases self.rows@.len() - i,
        {
            proof {
                let t = rows.take(i + 1);
                assert(t.drop_last() =~= rows.take(i as int));
                assert(t.last() == self.rows@[i as int]@);
            }
            let peer = self.rows[i].peer_id.as_str();
            if is_said(peer) && !crate::agent_loop::is_listed(peer, peers.as_slice()) {
                let ghost before = peers@;
                let name = peer.to_owned();
                peers.push(name);
                assert(views(before.push(name)) =~= views(before).push(name@));
            }
            i = i + 1;
        }
        assert(rows.take(rows.len() as int) =~= rows);
        peers
    }

    /// Brings the conversations of all peers up to date. Returns how many there are.
    pub fn rebuild_all_session_metadata(&mut self, now: u64) -> (r: usize)
        requires
            store_sound(old(self)@),
        ensures
            final(self)@ == refreshed_each(old(self)@, peers_of(old(self)@.rows), now),
            r == refreshed_count(old(self)@, peers_of(old(self)@.rows), now),
            store_sound(final(self)@),
    {
        let peers = self.named_peers();
        let ghost s = self@;
        let ghost all = views(peers@);
        let mut count: usize = 0;
        let mut k: usize = 0;
        assert(all.take(0) =~= Seq::empty());
        while k < peers.len()
            invariant
                k <= peers@.len(),
                all == views(peers@),
                store_sound(self@),
                self@ == refreshed_each(s, all.take(k as int), now),
                count == refreshed_count(s, all.take(k as int), now),
                count <= k,
            decreases peers@.len() - k,
        {
            proof {
                let t = all.take(k + 1);
                assert(t.drop_last() =~= all.take(k as int));
                assert(t.last() == peers@[k as int]@);
            }
            let session = self.refresh_session_metadata(peers[k].as_str(), now);
            if session.is_some() {
                count = count + 1;
            }
            k = k + 1;
        }
        assert(all.take(all.len() as int) =~= all);
        count
    }

    /// What is kept of a conversation.
    pub fn fetch_session_summary(&self, peer_id: &str) -> (r: Option<ChatSessionSummary>)
        ensures
            match r {
                Some(v) => self@.sessions.dom().contains(peer_id@) && v@
                    == self@.sessions[peer_id@],
                None => !self@.sessions.dom().contains(peer_id@),
            },
    {
        match self.sessions.get(peer_id) {
            Some(v) => Some(v.clone()),
            None => None,
        }
    }

    fn sorted_sessions(&self) -> (r: Vec<ChatSessionSummary>)
        requires
            store_sound(self@),
        ensures
            is_session_list(self@.sessions, session_list(r@)),
    {
        let n = self.sessions.len();
        let ghost keys = self.sessions.keys();
        let ghost m = self@.sessions;
        let mut out: Vec<ChatSessionSummary> = Vec::new();
        let mut i: usize = 0;
        while i < n
            invariant
                i <= n,
                n == keys.len(),
                keys == self.sessions.keys(),
                keys.no_duplicates(),
                m == self@.sessions,
                store_sound(self@),
                forall|k: int| 0 <= k < n ==> self.sessions@.dom().contains(#[trigger] keys[k]),
                out@.len() == i,
                forall|k: int|
                    0 <= k < i ==> m.dom().contains((#[trigger] out@[k])@.peer_id)
                        && m[out@[k]@.peer_id] == out@[k]@ && keys.take(i as int).contains(
                        out@[k]@.peer_id,
                    ),
                forall|j: int|
                    0 <= j < i ==> exists|k: int|
                        0 <= k < i && (#[trigger] out@[k])@.peer_id == #[trigger] keys[j],
                sorted_list(session_list(out@)),
            decreases n - i,
        {
            let session = self.sessions.value_at(i).clone();
            let ghost peer = keys[i as int];
            proof {
                assert(m.dom().contains(peer));
                assert(session@ == m[peer]);
                assert(session@.peer_id == peer);
            }
            let mut at: usize = out.len();
            while at > 0 && later(&session, &out[at - 1])
                invariant
                    at <= out@.len(),
                    sorted_list(session_list(out@)),
                    forall|k: int|
                        at <= k < out@.len() ==> listed_before(session@, (#[trigger] out@[k])@),
                decreases at,
            {
                at = at - 1;
            }
            let ghost before = out@;
            out.insert(at, session);
            proof {
                let list = session_list(out@);
                let old_list = session_list(before);
                assert forall|k: int| 0 <= k < out@.len() implies m.dom().contains(
                    (#[trigger] out@[k])@.peer_id,
                ) && m[out@[k]@.peer_id] == out@[k]@ && keys.take(i + 1).contains(
                    out@[k]@.peer_id,
                ) by {
                    if k == at {
                        assert(keys.take(i + 1)[i as int] == peer);
                    } else {
                        let b = if k < at {
                            k
                        } else {
                            k - 1
                        };
                        assert(out@[k] == before[b]);
                        let j = choose|j: int|
                            0 <= j < i && keys.take(i as int)[j] == before[b]@.peer_id;
                        assert(keys.take(i + 1)[j] == before[b]@.peer_id);
                    }
                }
                assert forall|j: int| 0 <= j < i + 1 implies exists|k: int|
                    0 <= k < i + 1 && (#[trigger] out@[k])@.peer_id == #[trigger] keys[j] by {
                    if j == i {
                        assert(out@[at as int]@.peer_id == keys[j]);
                    } else {
                        let k = choose|k: int|
                            0 <= k < i && (#[trigger] before[k])@.peer_id == keys[j];
                        let a = if k < at {
                            k
                        } else {
                            k + 1
                        };
                        assert(out@[a] == before[k]);
                    }
                }
                // No session that is listed already belongs to the same peer.
                assert forall|k: int| 0 <= k < before.len() implies (#[trigger] before[k])@.peer_id
                    != peer by {
                    let j = choose|j: int|
                        0 <= j < i && keys.take(i as int)[j] == before[k]@.peer_id;
                    assert(keys[j] == before[k]@.peer_id);
                }
                assert forall|a: int, b: int|
                    #![trigger list[a], list[b]]
                    0 <= a < b < list.len() implies listed_before(list[a], list[b]) by {
                    let x = if a < at {
                        a
                    } else {
                        a - 1
                    };
                    let y = if b < at {
                        b
                    } else {
                        b - 1
                    };
                    if a != at {
                        assert(list[a] == old_list[x]);
                    }
                    if b != at {
                        assert(list[b] == old_list[y]);
                    }
                    if a == at {
                        assert(listed_before(session@, before[y]@));
                    } else if b == at {
                        let near = old_list[at - 1];
                        assert(near == before[at - 1]@);
                        assert(!listed_before(session@, near));
                        lemma_text_before_total(session@.peer_id, near.peer_id);
                        assert(listed_before(near, session@));
                        if x < at - 1 {
                            assert(listed_before(old_list[x], near));
                            if old_list[x].last_message_at == near.last_message_at
                                && near.last_message_at == session@.last_message_at {
                                lemma_text_before_trans(
                                    old_list[x].peer_id,
                                    near.peer_id,
                                    session@.peer_id,
                                );
                            }
                        }
                    } else {
                        assert(listed_before(old_list[x], old_list[y]));
                    }
                }
            }
            i = i + 1;
        }
        proof {
            let list = session_list(out@);
            assert forall|p: Seq<char>| #[trigger] m.dom().contains(p) implies exists|i: int|
                0 <= i < list.len() && (#[trigger] list[i]).peer_id == p by {
                assert(keys.contains(p));
                let j = choose|j: int| 0 <= j < keys.len() && keys[j] == p;
                let k = choose|k: int| 0 <= k < n && (#[trigger] out@[k])@.peer_id == keys[j];
                assert(list[k].peer_id == p);
            }
            assert forall|i: int| 0 <= i < list.len() implies m.dom().contains(
                (#[trigger] list[i]).peer_id,
            ) && m[list[i].peer_id] == list[i] by {
                assert(list[i] == out@[i]@);
            }
        }
        out
    }

    /// The conversation with the peer where one is named, else all, the one with the latest message
    /// first, up to the limit.
    pub fn list_session_summaries(&self, peer_id: Option<&str>, limit: usize) -> (r: Vec<
        ChatSessionSummary,
    >)
        requires
            store_sound(self@),
        ensures
            ({
                let named = match peer_id {
                    Some(p) => trim(p@),
                    None => Seq::empty(),
                };
                if named.len() > 0 {
                    session_list(r@) == if self@.sessions.dom().contains(named) {
                        seq![self@.sessions[named]]
                    } else {
                        Seq::empty()
                    }
                } else {
                    exists|all: Seq<SessionView>| #[trigger]
                        is_session_list(self@.sessions, all) && session_list(r@) == first_n(
                            all,
                            list_limit(limit) as nat,
                        )
                }
            }),
    {
        match peer_id {
            Some(p) => {
                let peer = trimmed(p);
                if !peer.as_str().is_empty() {
                    let mut out: Vec<ChatSessionSummary> = Vec::new();
                    match self.fetch_session_summary(peer.as_str()) {
                        Some(v) => {
                            out.push(v);
                            assert(session_list(out@) =~= seq![v@]);
                        },
                        None => {
                            assert(session_list(out@) =~= Seq::empty());
                        },
                    }
                    return out;
                }
            },
            None => {},
        }
        let mut out = self.sorted_sessions();
        let ghost all = session_list(out@);
        let most = normalize_session_list_limit(limit);
        if out.len() > most {
            out.truncate(most);
        }
        assert(session_list(out@) =~= first_n(all, most as nat));
        out
    }

    /// How far a conversation has been summarized.
    pub fn fetch_chat_long_summary(&self, peer_id: &str) -> (r: Option<ChatLongSummary>)
        ensures
            r is Some == self@.sessions.dom().contains(peer_id@),
            r matches Some(v) ==> v.summary@ == self@.sessions[peer_id@].long_summary
                && v.summarized_until_id == self@.sessions[peer_id@].summarized_until_id
                && v.updated_at == self@.sessions[peer_id@].long_summary_updated_at,
    {
        match self.sessions.get(peer_id) {
            Some(v) => Some(
                ChatLongSummary {
                    summary: v.long_summary.clone(),
                    summarized_until_id: v.summarized_until_id,
                    updated_at: v.long_summary_updated_at,
                },
            ),
            None => None,
        }
    }

    /// The id before which messages may be summarized.
    pub fn long_summary_cutoff_id(&self, peer_id: &str, keep_recent: usize) -> (r: Option<i64>)
        requires
            store_sound(self@),
        ensures
            match r {
                Some(n) => cutoff(self@.rows, peer_id@, keep_recent as nat) == Some(n as int),
                None => cutoff(self@.rows, peer_id@, keep_recent as nat) is None,
            },
    {
        let q = RowQuery { peer_id, said: false, role: RoleQuery::Any, after: None, before: None };
        let mine = pick_rows(&self.rows, &q);
        proof {
            lemma_pick_from(self@.rows, q.model());
        }
        if keep_recent == 0 {
            if mine.len() == 0 {
                return Some(1);
            }
            let last = &mine[mine.len() - 1];
            proof {
                let views = row_views(mine@);
                assert(views[views.len() - 1] == last@);
                assert(self@.rows.contains(views[views.len() - 1]));
                let k = choose|k: int|
                    0 <= k < self@.rows.len() && self@.rows[k] == views[views.len() - 1];
                assert(self@.rows[k].id < self@.next_id);
            }
            return Some(last.id + 1);
        }
        let recent = last_rows(&mine, keep_recent);
        if recent.len() == 0 {
            assert(row_views(recent@).len() == 0);
            assert(row_views(mine@).len() == 0);
            return None;
        }
        assert(row_views(recent@)[0] == recent@[0]@);
        Some(recent[0].id)
    }

    /// The messages of a peer that are next to be summarized, at most `batch_size`: what the user
    /// and the assistant have said behind the last summarized message and before the latest
    /// `keep_recent`. None where there are none. The conversation is brought up to date first.
    pub fn fetch_long_summary_batch(
        &mut self,
        peer_id: &str,
        keep_recent: usize,
        batch_size: usize,
        now: u64,
    ) -> (r: Option<LongSummaryBatch>)
        requires
            store_sound(old(self)@),
        ensures
            store_sound(final(self)@),
            ({
                let peer = trim(peer_id@);
                if peer.len() == 0 || batch_size == 0 {
                    r is None && final(self)@ == old(self)@
                } else {
                    let s = refreshed(old(self)@, peer, now);
                    let kept = s.sessions.dom().contains(peer);
                    let until = if kept {
                        s.sessions[peer].summarized_until_id
                    } else {
                        0
                    };
                    let rows = batch_rows(
                        s.rows,
                        peer,
                        until,
                        keep_recent as nat,
                        batch_size as nat,
                    );
                    &&& final(self)@ == s
                    &&& r is Some == (rows.len() > 0)
                    &&& r matches Some(b) ==> {
                        &&& b.peer_id@ == peer
                        &&& b.existing_summary@ == if kept {
                            s.sessions[peer].long_summary
                        } else {
                            Seq::empty()
                        }
                        &&& b.summarized_until_id == until
                        &&& row_views(b.records@) == rows
                    }
                }
            }),
    {
        let peer = trimmed(peer_id);
        if peer.as_str().is_empty() || batch_size == 0 {
            return None;
        }
        proof {
            crate::text::lemma_trim_idempotent(peer_id@);
        }
        let _ = self.refresh_session_metadata(peer.as_str(), now);
        let (existing_summary, until) = match self.fetch_chat_long_summary(peer.as_str()) {
            Some(v) => (v.summary, v.summarized_until_id),
            None => (String::new(), 0i64),
        };
        let end = match self.long_summary_cutoff_id(peer.as_str(), keep_recent) {
            Some(n) => n,
            None => return None,
        };
        let q = RowQuery {
            peer_id: peer.as_str(),
            said: true,
            role: RoleQuery::UserOrAssistant,
            after: Some(until),
            before: Some(end),
        };
        let mut records = pick_rows(&self.rows, &q);
        let ghost all = row_views(records@);
        if records.len() > batch_size {
            records.truncate(batch_size);
        }
        assert(row_views(records@) =~= first_n(all, batch_size as nat));
        if records.len() == 0 {
            return None;
        }
        Some(
            LongSummaryBatch {
                peer_id: peer,
                existing_summary,
                summarized_until_id: until,
                records,
            },
        )
    }

    /// Hands in a long summary of a conversation up to a message. It is taken where it covers no
    /// less than the one there is. Returns the one there is then.
    pub fn update_chat_long_summary(
        &mut self,
        peer_id: &str,
        summary: &str,
        summarized_until_id: i64,
        now: u64,
    ) -> (r: Option<ChatLongSummary>)
        requires
            store_sound(old(self)@),
        ensures
            store_sound(final(self)@),
            final(self)@ == after_summary(
                old(self)@,
                peer_id@,
                summary@,
                summarized_until_id,
                now,
            ),
            ({
                let peer = trim(peer_id@);
                let s = final(self)@;
                if peer.len() == 0 || summarized_until_id <= 0 {
                    r is None
                } else {
                    &&& r is Some == s.sessions.dom().contains(peer)
                    &&& r matches Some(v) ==> v.summary@ == s.sessions[peer].long_summary
                        && v.summarized_until_id == s.sessions[peer].summarized_until_id
                        && v.updated_at == s.sessions[peer].long_summary_updated_at
                }
            }),
    {
        let peer = trimmed(peer_id);
        if peer.as_str().is_empty() || summarized_until_id <= 0 {
            return None;
        }
        proof {
            crate::text::lemma_trim_idempotent(peer_id@);
        }
        let _ = self.refresh_session_metadata(peer.as_str(), now);
        let ghost t = self@;
        match self.sessions.remove(peer.as_str()) {
            Some(v) => {
                let mut v = v;
                let ghost old_view = v@;
                if v.summarized_until_id <= summarized_until_id {
                    v.long_summary = summary.to_owned();
                    v.summarized_until_id = summarized_until_id;
                    v.long_summary_updated_at = Some(now);
                }
                assert(v@ == summarized(old_view, summary@, summarized_until_id, now));
                self.sessions.insert(peer.as_str(), v);
                assert(self@.sessions =~= t.sessions.insert(peer@, v@));
            },
            None => {
                assert(self@.sessions =~= t.sessions);
            },
        }
        self.fetch_chat_long_summary(peer.as_str())
    }
}

fn later(a: &ChatSessionSummary, b: &ChatSessionSummary) -> (r: bool)
    ensures
        r == listed_before(a@, b@),
{
    a.last_message_at > b.last_message_at || (a.last_message_at == b.last_message_at
        && is_text_before(a.peer_id.as_str(), b.peer_id.as_str()))
}

/// The messages of the history as they are handed to the model.
pub fn to_records(rows: &Vec<HistoryRow>) -> (r: Vec<Record>)
    ensures
        record_views(r@) == row_views(rows@).map_values(
            |v: RowView|
                RecordView {
                    role: v.role,
                    content: v.content,
                    created_at: v.created_at,
                    message_json: v.message_json,
                },
        ),
{
    let mut out: Vec<Record> = Vec::new();
    let mut i: usize = 0;
    while i < rows.len()
        invariant
            i <= rows@.len(),
            out@.len() == i,
            forall|k: int|
                0 <= k < i ==> (#[trigger] out@[k])@ == (RecordView {
                    role: rows@[k].role@,
                    content: rows@[k].content@,
                    created_at: rows@[k].created_at,
                    message_json: opt_text(rows@[k].message_json),
                }),
        decreases rows@.len() - i,
    {
        out.push(
            Record {
                role: rows[i].role.clone(),
                content: rows[i].content.clone(),
                created_at: rows[i].created_at,
                message_json: clone_opt(&rows[i].message_json),
            },
        );
        i = i + 1;
    }
    assert(record_views(out@) =~= row_views(rows@).map_values(
        |v: RowView|
            RecordView {
                role: v.role,
                content: v.content,
                created_at: v.created_at,
                message_json: v.message_json,
            },
    ));
    out
}

/// What a query finds is there and is asked for.
pub proof fn lemma_pick_from(rows: Seq<RowView>, q: QueryView)
    ensures
        forall|i: int|
            0 <= i < pick(rows, q).len() ==> rows.contains(#[trigger] pick(rows, q)[i])
                && asked_for(q, pick(rows, q)[i]),
    decreases rows.len(),
{
    if rows.len() > 0 {
        let rest = rows.drop_last();
        lemma_pick_from(rest, q);
        assert forall|i: int| 0 <= i < pick(rows, q).len() implies rows.contains(
            #[trigger] pick(rows, q)[i],
        ) && asked_for(q, pick(rows, q)[i]) by {
            if i < pick(rest, q).len() {
                assert(pick(rows, q)[i] == pick(rest, q)[i]);
                let j = choose|j: int| 0 <= j < rest.len() && rest[j] == pick(rest, q)[i];
                assert(rows[j] == pick(rows, q)[i]);
            } else {
                assert(rows[rows.len() - 1] == pick(rows, q)[i]);
            }
        }
    }
}

/// Cutting a peer's history leaves its latest messages, in order, and does not touch those of any
/// other peer.
pub proof fn prune_keeps_the_latest(rows: Seq<RowView>, peer: Seq<char>, keep: nat, other: Seq<char>)
    ensures
        pick(pruned(rows, peer, keep), all_of(peer)) == last_n(pick(rows, all_of(peer)), keep),
        other != peer ==> pick(pruned(rows, peer, keep), all_of(other)) == pick(
            rows,
            all_of(other),
        ),
    decreases rows.len(),
{
    if rows.len() > 0 {
        let rest = rows.skip(1);
        prune_keeps_the_latest(rest, peer, keep, other);
        lemma_pick_front(rows, all_of(peer));
        lemma_pick_front(rows, all_of(other));
        lemma_count_is_pick(rows, peer);
        let out = pruned(rows, peer, keep);
        let mine = pick(rows, all_of(peer));
        let mine_rest = pick(rest, all_of(peer));
        if rows[0].peer_id == peer && count_of(rows, peer) > keep {
            assert(mine.skip(1) =~= mine_rest);
            assert(last_n(mine, keep) =~= last_n(mine_rest, keep));
            assert(pick(rows, all_of(other)) =~= pick(rest, all_of(other)) || other == peer);
        } else {
            lemma_pick_front(out, all_of(peer));
            lemma_pick_front(out, all_of(other));
            assert(out.skip(1) =~= pruned(rest, peer, keep));
            if rows[0].peer_id == peer {
                assert(last_n(mine_rest, keep) =~= mine_rest);
                assert(last_n(mine, keep) =~= mine);
            } else {
                assert(mine =~= mine_rest);
                assert(pick(out, all_of(peer)) =~= pick(out.skip(1), all_of(peer)));
            }
        }
    } else {
        assert(pick(pruned(rows, peer, keep), all_of(peer)) =~= last_n(
            pick(rows, all_of(peer)),
            keep,
        ));
    }
}

/// What has been added is read back: the latest message of the peer is the one that was added last,
/// behind the peer's earlier messages as far as they are kept; other peers read what they read
/// before.
pub proof fn added_message_is_read_back(
    s: StoreView,
    role: Seq<char>,
    content: Seq<char>,
    peer: Seq<char>,
    json: Option<Seq<char>>,
    keep: usize,
    now: u64,
    other: Seq<char>,
)
    requires
        other != peer,
    ensures
        ({
            let row = RowView {
                id: s.next_id,
                role,
                content,
                peer_id: peer,
                message_json: json,
                created_at: now,
            };
            let t = settled(with_row(s, role, content, peer, json, now), peer, keep, now);
            let all = pick(s.rows, all_of(peer)).push(row);
            &&& pick(t.rows, all_of(peer)) == if keep == 0 {
                all
            } else {
                last_n(all, keep as nat)
            }
            &&& pick(t.rows, all_of(peer)).last() == row
            &&& pick(t.rows, all_of(other)) == pick(s.rows, all_of(other))
        }),
{
    let u = with_row(s, role, content, peer, json, now);
    assert(u.rows.drop_last() =~= s.rows);
    if keep > 0 {
        prune_keeps_the_latest(u.rows, peer, keep as nat, other);
    }
}

/// A conversation is up to date after a message has been added: it counts the messages there are.
pub proof fn added_message_is_counted(
    s: StoreView,
    role: Seq<char>,
    content: Seq<char>,
    peer: Seq<char>,
    json: Option<Seq<char>>,
    keep: usize,
    now: u64,
)
    requires
        trim(peer) == peer,
        peer.len() > 0,
        s.rows.len() < usize::MAX,
    ensures
        ({
            let t = settled(with_row(s, role, content, peer, json, now), peer, keep, now);
            &&& t.sessions.dom().contains(peer)
            &&& t.sessions[peer].message_count == pick(t.rows, all_of(peer)).len()
            &&& keep > 0 ==> t.sessions[peer].message_count <= keep
        }),
{
    let u = with_row(s, role, content, peer, json, now);
    let t = settled(u, peer, keep, now);
    added_message_is_read_back(s, role, content, peer, json, keep, now, peer.push(' '));
    if keep > 0 {
        prune_keeps_the_latest(u.rows, peer, keep as nat, peer.push(' '));
        lemma_pruned_from(u.rows, peer, keep as nat);
    }
    lemma_pick_len(t.rows, all_of(peer));
}

/// A query finds no more messages than there are.
pub proof fn lemma_pick_len(rows: Seq<RowView>, q: QueryView)
    ensures
        pick(rows, q).len() <= rows.len(),
    decreases rows.len(),
{
    if rows.len() > 0 {
        lemma_pick_len(rows.drop_last(), q);
    }
}

/// How far a conversation has been summarized never goes back, as long as the conversation is
/// there; and bringing it up to date does not touch its long summary.
pub proof fn summaries_never_go_back(
    s: StoreView,
    peer_id: Seq<char>,
    summary: Seq<char>,
    until: i64,
    now: u64,
    peer: Seq<char>,
)
    requires
        s.sessions.dom().contains(peer),
    ensures
        refreshed(s, peer_id, now).sessions.dom().contains(peer) ==> refreshed(
            s,
            peer_id,
            now,
        ).sessions[peer].summarized_until_id == s.sessions[peer].summarized_until_id && refreshed(
            s,
            peer_id,
            now,
        ).sessions[peer].long_summary == s.sessions[peer].long_summary,
        after_summary(s, peer_id, summary, until, now).sessions.dom().contains(peer)
            ==> after_summary(s, peer_id, summary, until, now).sessions[peer].summarized_until_id
            >= s.sessions[peer].summarized_until_id,
{
    crate::text::lemma_trim_idempotent(peer_id);
}

/// Messages that are handed out to be summarized lie behind those that are and before the latest
/// ones; they are the peer's, said by the user or the assistant; there are no more than asked for.
pub proof fn batches_are_fresh(
    rows: Seq<RowView>,
    peer: Seq<char>,
    until: i64,
    keep_recent: nat,
    batch_size: nat,
    next_id: i64,
    i: int,
)
    requires
        rising(rows, next_id),
        0 <= i < batch_rows(rows, peer, until, keep_recent, batch_size).len(),
    ensures
        ({
            let batch = batch_rows(rows, peer, until, keep_recent, batch_size);
            &&& batch.len() <= batch_size
            &&& rows.contains(batch[i])
            &&& batch[i].peer_id == peer
            &&& batch[i].id > until
            &&& batch[i].id < cutoff(rows, peer, keep_recent)->0
            &&& batch[i].role == "user"@ || batch[i].role == "assistant"@
        }),
{
    let end = cutoff(rows, peer, keep_recent)->0;
    let q = QueryView {
        peer_id: peer,
        said: true,
        role: RoleQuery::UserOrAssistant,
        after: Some(until),
        before: Some(end as i64),
    };
    lemma_pick_from(rows, q);
    let all = pick(rows, q);
    let batch = batch_rows(rows, peer, until, keep_recent, batch_size);
    assert(batch[i] == all[i]);
    assert(i64::MIN <= end <= i64::MAX) by {
        let mine = pick(rows, all_of(peer));
        lemma_pick_from(rows, all_of(peer));
        if mine.len() > 0 {
            assert(rows.contains(mine[mine.len() - 1]));
            let k = choose|k: int| 0 <= k < rows.len() && rows[k] == mine[mine.len() - 1];
            assert(rows[k].id < next_id);
        }
    }
}

/// A message that a summary covers is not handed out again.
pub proof fn summarized_messages_are_not_repeated(
    rows: Seq<RowView>,
    peer: Seq<char>,
    until: i64,
    keep_recent: nat,
    batch_size: nat,
    next_id: i64,
    row: RowView,
)
    requires
        rising(rows, next_id),
        row.id <= until,
    ensures
        !batch_rows(rows, peer, until, keep_recent, batch_size).contains(row),
{
    let batch = batch_rows(rows, peer, until, keep_recent, batch_size);
    if batch.contains(row) {
        let i = choose|i: int| 0 <= i < batch.len() && batch[i] == row;
        batches_are_fresh(rows, peer, until, keep_recent, batch_size, next_id, i);
    }
}

/// The first owner stays the owner.
pub proof fn owner_is_for_good(s: StoreView, peer_id: Seq<char>, now: u64)
    ensures
        s.owner is Some ==> owned(s, peer_id, now) == s,
        trim(peer_id).len() > 0 ==> owned(s, peer_id, now).owner is Some,
        s.owner is None && trim(peer_id).len() > 0 ==> owned(s, peer_id, now).owner == Some(
            peer_id,
        ),
{
}

/// Once there is an owner, no message belongs to nobody of those that were there.
pub proof fn owner_gets_stray_messages(rows: Seq<RowView>, peer: Seq<char>, i: int)
    requires
        peer.len() > 0,
        0 <= i < rows.len(),
    ensures
        adopted(rows, peer).len() == rows.len(),
        adopted(rows, peer)[i].peer_id.len() > 0,
        rows[i].peer_id.len() > 0 ==> adopted(rows, peer)[i] == rows[i],
        rows[i].peer_id.len() == 0 ==> adopted(rows, peer)[i] == (RowView {
            peer_id: peer,
            ..rows[i]
        }),
{
}

/// No more conversations are listed than the most, and at least one may be.
pub proof fn list_limit_is_bounded(limit: usize)
    ensures
        1 <= list_limit(limit) <= CHAT_SESSION_LIST_LIMIT_MAX,
{
}

} // verus!
