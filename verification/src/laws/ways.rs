//! Where a message comes from, what is made of it, and which way an answer takes.

use crate::event::EventView;
use crate::inbound::{event_job, plain_job, proactive_job, proactive_prompt, user_job};
use crate::json::JsonView;
use crate::laws::parts::{holds, lemma_holds, lemma_names};
use crate::numbers::{decimal, parsed_i64, signed_decimal};
use crate::peer::{chat_id_of_peer, derived_peer, peer_id_round_trip};
use crate::router::{
    is_routed, noted, route_payload, routed, under_own_sources, ChannelMap, ChannelView,
};
use crate::text::{blank, lemma_trim_blank, trim};
use vstd::prelude::*;

verus! {

broadcast use {vstd::string::group_string_axioms, crate::json::member_after_with};

/// Whether a text has no colon.
pub open spec fn has_no_colon(s: Seq<char>) -> bool {
    forall|i: int| 0 <= i < s.len() ==> #[trigger] s[i] != ':'
}

/// The channel that a user's message came from is known from then on, with its chat and its peer and
/// the time; no other changes.
pub proof fn channel_is_noted(
    m: ChannelMap,
    data: JsonView,
    source: Seq<char>,
    chat: Seq<char>,
    peer: Seq<char>,
    now: u64,
    other: Seq<char>,
)
    requires
        data.str_at("source"@) == Some(source),
        source.len() > 0,
        data.str_at("chat_id"@) == Some(chat),
        data.str_at("peer_id"@) == Some(peer),
        !blank(peer),
    ensures
        ({
            let after = noted(m, data, now);
            &&& after.dom().contains(source)
            &&& after[source] == (ChannelView {
                source,
                chat_id: Some(chat),
                peer_id: Some(trim(peer)),
                updated_at: now,
            })
            &&& other != source ==> after.dom().contains(other) == m.dom().contains(other)
            &&& other != source && m.dom().contains(other) ==> after[other] == m[other]
        }),
{
    lemma_trim_blank(peer);
}

/// A chat may be given as a number; a message that names no peer comes from the chat or, without
/// one, from the user it names; one that names no source comes from its platform, and one without
/// either is not noted.
pub proof fn channel_is_found_otherwise(
    m: ChannelMap,
    data: JsonView,
    source: Seq<char>,
    n: i64,
    user: Seq<char>,
    now: u64,
)
    requires
        source.len() > 0,
        data.str_at("peer_id"@) is None,
    ensures
        data.str_at("source"@) == Some(source) && data.at("chat_id"@) == JsonView::integer(n as int)
            ==> noted(m, data, now)[source].chat_id == Some(signed_decimal(n as int)),
        data.str_at("source"@) == Some(source) && data.get("chat_id"@) is None && data.str_at(
            "from_user_id"@,
        ) == Some(user) && !blank(user) ==> noted(m, data, now)[source].peer_id == Some(
            source + ":"@ + trim(user),
        ),
        data.str_at("source"@) == Some(source) && data.str_at("chat_id"@) == Some(user) && !blank(
            user,
        ) ==> noted(m, data, now)[source].peer_id == Some(source + ":"@ + trim(user)),
        data.str_at("source"@) is None && data.str_at("platform"@) == Some(source) ==> noted(
            m,
            data,
            now,
        ).dom().contains(source) && noted(m, data, now)[source].source == source,
        data.str_at("source"@) is None && data.str_at("platform"@) is None ==> noted(m, data, now)
            == m,
{
    lemma_names();
    lemma_trim_blank(user);
}

/// What is sent to a channel holds the text, the channel's source, and the chat and the peer where
/// they are known; a chat that is a number is one there.
pub proof fn channel_is_addressed(
    text: Seq<char>,
    source: Seq<char>,
    chat: Option<Seq<char>>,
    peer: Option<Seq<char>>,
    n: i64,
)
    ensures
        ({
            let p = route_payload(text, source, chat, peer);
            &&& p.str_at("text"@) == Some(text)
            &&& p.str_at("source"@) == Some(source)
            &&& p.str_at("peer_id"@) == peer
            &&& chat is None ==> p.get("chat_id"@) is None
            &&& chat matches Some(c) ==> (parsed_i64(c) is None ==> p.str_at("chat_id"@) == Some(c))
            &&& chat == Some(signed_decimal(n as int)) ==> p.at("chat_id"@) == JsonView::integer(
                n as int,
            )
        }),
{
    lemma_names();
    crate::numbers::parse_inverts_decimal(n, 0);
}

/// What a message says of its chat and its peer goes before what is known of the channel; what it
/// does not say is taken from the channel.
pub proof fn channel_fills_in(
    text: Seq<char>,
    t: ChannelView,
    chat: Option<Seq<char>>,
    peer: Option<Seq<char>>,
)
    ensures
        ({
            let e = routed(text, t, chat, peer);
            &&& e.topic == "assistant.message"@
            &&& e.data.str_at("text"@) == Some(text)
            &&& e.data.str_at("source"@) == Some(t.source)
            &&& e.data.str_at("peer_id"@) == if peer is Some {
                peer
            } else {
                t.peer_id
            }
            &&& chat is None && t.chat_id is None ==> e.data.get("chat_id"@) is None
            &&& chat is Some ==> e.data == routed(
                text,
                (ChannelView { chat_id: None, ..t }),
                chat,
                peer,
            ).data
            &&& chat is None ==> e.data == routed(
                text,
                (ChannelView { chat_id: None, ..t }),
                t.chat_id,
                peer,
            ).data
        }),
{
    let c = if chat is Some {
        chat
    } else {
        t.chat_id
    };
    let p = if peer is Some {
        peer
    } else {
        t.peer_id
    };
    channel_is_addressed(text, t.source, c, p, 0);
}

/// Whether an event is for a channel.
pub open spec fn is_to(e: EventView, source: Seq<char>) -> bool {
    e.data.str_at("source"@) == Some(source)
}

/// A message that names no source is sent to every channel that is known, once each, with its text.
pub proof fn message_without_source_goes_to_all(
    m: ChannelMap,
    data: JsonView,
    text: Seq<char>,
    now: u64,
    events: Seq<EventView>,
    source: Seq<char>,
    i: int,
    j: int,
)
    requires
        data.str_at("text"@) == Some(text),
        !blank(text),
        data.str_at("source"@) is None,
        under_own_sources(m),
        is_routed(m, data, now, events),
    ensures
        m.dom().contains(source) ==> exists|k: int|
            0 <= k < events.len() && is_to(#[trigger] events[k], source),
        0 <= i < events.len() ==> events[i].data.str_at("text"@) == Some(text),
        0 <= i < events.len() ==> exists|s: Seq<char>| #[trigger]
            m.dom().contains(s) && is_to(events[i], s),
        0 <= i < j < events.len() && is_to(events[i], source) ==> !is_to(events[j], source),
{
    reveal_strlit("");
    lemma_names();
    lemma_trim_blank(text);
    let chat = crate::router::named_chat(data);
    let peer = crate::router::named_peer(data);
    let targets = choose|targets: Seq<ChannelView>| #[trigger]
        crate::router::are_targets(m, ""@, chat, peer, now, targets) && events
            == targets.map_values(|t: ChannelView| routed(text, t, chat, peer));
    if m.dom().contains(source) {
        let k = choose|k: int| 0 <= k < targets.len() && (#[trigger] targets[k]).source == source;
        assert(events[k] == routed(text, targets[k], chat, peer));
        channel_fills_in(text, targets[k], chat, peer);
        assert(is_to(events[k], source));
    }
    if 0 <= i < events.len() {
        assert(events[i] == routed(text, targets[i], chat, peer));
        channel_fills_in(text, targets[i], chat, peer);
        assert(m.dom().contains(targets[i].source));
        assert(is_to(events[i], targets[i].source));
    }
    if 0 <= i < j < events.len() {
        assert(events[j] == routed(text, targets[j], chat, peer));
        channel_fills_in(text, targets[j], chat, peer);
        assert(targets[i].source != targets[j].source);
    }
}

/// A message without text is not sent.
pub proof fn message_without_text_is_not_sent(
    m: ChannelMap,
    data: JsonView,
    now: u64,
    events: Seq<EventView>,
)
    requires
        data.str_at("text"@) matches Some(t) ==> blank(t),
        is_routed(m, data, now, events),
    ensures
        events.len() == 0,
{
    if let Some(t) = data.str_at("text"@) {
        lemma_trim_blank(t);
    }
}

/// Where no channel is known, a message goes to the source it names.
pub proof fn first_message_goes_to_its_source(
    m: ChannelMap,
    data: JsonView,
    text: Seq<char>,
    source: Seq<char>,
    now: u64,
    events: Seq<EventView>,
)
    requires
        data.str_at("text"@) == Some(text),
        !blank(text),
        data.str_at("source"@) == Some(source),
        source.len() > 0,
        source != "unknown"@,
        m == Map::<Seq<char>, ChannelView>::empty(),
        is_routed(m, data, now, events),
    ensures
        events.len() == 1,
        events[0].data.str_at("text"@) == Some(text),
        is_to(events[0], source),
{
    lemma_trim_blank(text);
    let chat = crate::router::named_chat(data);
    let peer = crate::router::named_peer(data);
    let t = ChannelView { source, chat_id: chat, peer_id: peer, updated_at: now };
    channel_fills_in(text, t, chat, peer);
    assert(events[0] == routed(text, t, chat, peer));
}

/// The peer that is made for a message leads back to the id that the message carries, within its own
/// source and in no other.
pub proof fn peer_leads_back(data: JsonView, source: Seq<char>, id: Seq<char>, other: Seq<char>)
    requires
        source.len() > 0,
        has_no_colon(source),
        data.str_at("chat_id"@) == Some(id),
        !blank(id),
        other.len() > 0,
        other != source,
    ensures
        derived_peer(data, source) matches Some(p) && chat_id_of_peer(p, source) == Some(trim(id))
            && chat_id_of_peer(p, other) is None,
{
    reveal_strlit(":");
    lemma_trim_blank(id);
    assert(":"@ =~= seq![':']);
    let p = source + ":"@ + trim(id);
    peer_id_round_trip(source, trim(id));
    let f = crate::text::other_than(':');
    assert forall|i: int| 0 <= i < source.len() implies f(#[trigger] p[i]) by {
        assert(p[i] == source[i]);
    }
    assert(p[source.len() as int] == ':');
    crate::text::lemma_prefix_len(p, f, source.len());
    assert(p.take(source.len() as int) =~= source);
}

/// The peer of a message is made of its chat, as text or as a number, else of the one who sent it.
pub proof fn peer_is_made_of_what_is_there(
    data: JsonView,
    source: Seq<char>,
    n: i64,
    from: Seq<char>,
)
    requires
        source.len() > 0,
        !blank(from),
    ensures
        data.at("chat_id"@) == JsonView::integer(n as int) && !blank(signed_decimal(n as int))
            ==> derived_peer(data, source) == Some(
            source + ":"@ + trim(signed_decimal(n as int)),
        ),
        data.get("chat_id"@) is None && data.str_at("from_user_id"@) == Some(from) ==> derived_peer(
            data,
            source,
        ) == Some(source + ":"@ + trim(from)),
        data.get("chat_id"@) is None && data.str_at("from_user_id"@) is None && data.str_at(
            "user_id"@,
        ) == Some(from) ==> derived_peer(data, source) == Some(source + ":"@ + trim(from)),
        data.get("chat_id"@) is None && data.str_at("from_user_id"@) is None && data.str_at(
            "user_id"@,
        ) is None ==> derived_peer(data, source) is None,
{
    lemma_trim_blank(from);
    lemma_trim_blank(signed_decimal(n as int));
}

/// A user's message is answered as it came: its text, where it came from, who sent it and what came
/// with it; it may call tools, and is remembered.
pub proof fn user_message_is_answered(
    e: EventView,
    text: Seq<char>,
    source: Seq<char>,
    peer: Seq<char>,
)
    requires
        e.topic == "user.message"@,
        e.data.str_at("text"@) == Some(text),
        e.data.str_at("source"@) == Some(source),
        e.data.str_at("peer_id"@) == Some(peer),
    ensures
        text.len() > 0 ==> event_job(e) is Some,
        event_job(e) matches Some(j) ==> {
            &&& j.text == text
            &&& j.source == source
            &&& j.peer_id == peer
            &&& e.data.str_at("user_name"@) matches Some(u) ==> j.user_name == u
            &&& j.image_base64 == e.data.str_at("image_base64"@)
            &&& j.video_base64 == e.data.str_at("video_base64"@)
            &&& j.video_mime == e.data.str_at("video_mime"@)
            &&& j.file_base64 == e.data.str_at("file_base64"@)
            &&& j.file_name == e.data.str_at("file_name"@)
            &&& j.original_user_msg is None
            &&& j.allow_tools
            &&& !j.defer_store
            &&& j.drop_reply_marker is None
        },
        text.len() == 0 && e.data.str_at("image_base64"@) is None && e.data.str_at(
            "video_base64"@,
        ) is None && e.data.str_at("file_base64"@) is None ==> event_job(e) is None,
        e.data.str_at("image_base64"@) is Some || e.data.str_at("video_base64"@) is Some
            || e.data.str_at("file_base64"@) is Some ==> event_job(e) is Some,
{
    reveal_strlit("");
    reveal_strlit("user.message");
    reveal_strlit("proactive.trigger");
    assert("user.message"@.len() != "proactive.trigger"@.len());
    assert(""@ =~= Seq::empty());
}

/// A message that names no peer has the one that is made of its source and its id, and without an
/// id an unnamed one of its source.
pub proof fn unnamed_message_has_a_peer(data: JsonView, source: Seq<char>, chat: Seq<char>)
    requires
        data.str_at("source"@) == Some(source),
        source.len() > 0,
        data.str_at("peer_id"@) is None,
    ensures
        data.str_at("chat_id"@) == Some(chat) && !blank(chat) ==> user_job(data).peer_id == source
            + ":"@ + trim(chat),
        data.get("chat_id"@) is None && data.get("from_user_id"@) is None && data.get("user_id"@)
            is None ==> user_job(data).peer_id == source + ":"@ + "anonymous"@ && proactive_job(
            data,
        ).peer_id == source + ":"@ + "proactive"@,
{
    reveal_strlit("");
    assert(""@ =~= Seq::empty());
    lemma_trim_blank(chat);
}

/// An event of any other kind asks for no answer.
pub proof fn other_events_are_not_answered(e: EventView)
    requires
        e.topic != "user.message"@,
        e.topic != "proactive.trigger"@,
    ensures
        event_job(e) is None,
{
}

/// A trigger lets the model speak to the peer and the source it names, with the note that is due;
/// without tools, unremembered but for the answer, and only of its own accord may it keep silent.
pub proof fn trigger_lets_the_model_speak(
    e: EventView,
    source: Seq<char>,
    peer: Seq<char>,
    note: Seq<char>,
    reason: Seq<char>,
)
    requires
        e.topic == "proactive.trigger"@,
        e.data.str_at("source"@) == Some(source),
        e.data.str_at("peer_id"@) == Some(peer),
        e.data.str_at("note"@) == Some(note),
        e.data.str_at("reason"@) == Some(reason),
    ensures
        event_job(e) matches Some(j) && {
            &&& j.source == source
            &&& j.peer_id == peer
            &&& !j.allow_tools
            &&& j.defer_store
            &&& j.original_user_msg == Some(Seq::<char>::empty())
            &&& reason == "autonomous_idle"@ ==> j.drop_reply_marker == Some("[NO_PROACTIVE]"@)
                && holds(j.text, "[NO_PROACTIVE]"@)
            &&& reason != "autonomous_idle"@ ==> j.drop_reply_marker is None
            &&& reason != "autonomous_idle"@ && !blank(note) ==> holds(j.text, trim(note))
            &&& reason == "autonomous_idle"@ ==> (e.data.at(
                "idle_secs"@,
            ) matches JsonView::PosInt(n) ==> holds(j.text, decimal(n as nat)))
        },
{
    lemma_trim_blank(note);
    let idle = e.data.at("idle_secs"@).as_u64();
    let t = proactive_prompt(note, reason, idle);
    let part = crate::inbound::idle_part(idle);
    let marker = "[NO_PROACTIVE]"@;
    if reason == "autonomous_idle"@ {
        let lead = "[系统·自主主动] "@;
        let middle =
            "现在你可以自主决定是否自然地找用户说一句话。如果上下文里用户刚结束话题、明确不想被打扰、或没有合适切入点，严格只输出 "@;
        let tail =
            "。如果适合开口，就延续最近的话题、关心用户状态，或轻轻开启一个新话题。直接输出要发送给用户的文本；不要解释你的决策，不要提及系统提示、沉默时间或主动插件。"@;
        lemma_holds(lead + part + middle, marker, tail);
        assert(lead + part + middle + marker + tail =~= t);
        if let Some(n) = idle {
            let d = decimal(n as nat);
            lemma_holds(lead + "用户已经沉默约 "@, d, " 秒。"@ + middle + marker + tail);
            assert(lead + "用户已经沉默约 "@ + d + (" 秒。"@ + middle + marker + tail) =~= t);
        }
    } else if trim(note).len() > 0 {
        let lead = "[系统·定时提醒] 你之前安排了一条到期主动消息，备注/任务："@;
        let back = t.skip((lead + trim(note)).len() as int);
        lemma_holds(lead, trim(note), back);
        assert(lead + trim(note) + back =~= t);
    }
}

/// A text from a named user is answered as it is.
pub proof fn plain_text_is_answered(
    text: Seq<char>,
    source: Seq<char>,
    user_name: Seq<char>,
    peer_id: Seq<char>,
)
    ensures
        ({
            let j = plain_job(text, source, user_name, peer_id);
            &&& j.text == text
            &&& j.source == source
            &&& j.user_name == user_name
            &&& j.peer_id == peer_id
            &&& j.image_base64 is None
            &&& j.original_user_msg is None
            &&& j.allow_tools
            &&& !j.defer_store
            &&& j.drop_reply_marker is None
        }),
{
}

} // verus!
