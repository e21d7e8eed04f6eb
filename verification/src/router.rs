//! The router: which channels a message goes to.

use crate::chat::clone_opt;
use crate::event::{str_or, text_at, text_or, Event, EventView};
use crate::json::{Json, JsonView};
use crate::llm_stream::event_views;
use crate::numbers::{parse_i64, parsed_i64};
use crate::peer::{decimal_at, first_some, int_at, or_text, raw_id};
use crate::string_map::StringMap;
use crate::text::{is_blank, same, trim, trimmed};
use crate::tool::opt_text;
use vstd::prelude::*;

verus! {

broadcast use vstd::string::group_string_axioms;

/// A channel that messages have come from.
#[derive(Debug, PartialEq)]
pub struct ChannelState {
    pub source: String,
    pub chat_id: Option<String>,
    pub peer_id: Option<String>,
    /// When the last message came, in milliseconds.
    pub updated_at: u64,
}

/// The model of a [`ChannelState`].
pub ghost struct ChannelView {
    pub source: Seq<char>,
    pub chat_id: Option<Seq<char>>,
    pub peer_id: Option<Seq<char>>,
    pub updated_at: u64,
}

impl View for ChannelState {
    type V = ChannelView;

    open spec fn view(&self) -> ChannelView {
        ChannelView {
            source: self.source@,
            chat_id: opt_text(self.chat_id),
            peer_id: opt_text(self.peer_id),
            updated_at: self.updated_at,
        }
    }
}

impl Clone for ChannelState {
    fn clone(&self) -> (r: Self)
        ensures
            r@ == self@,
    {
        ChannelState {
            source: self.source.clone(),
            chat_id: clone_opt(&self.chat_id),
            peer_id: clone_opt(&self.peer_id),
            updated_at: self.updated_at,
        }
    }
}

/// The models of a list of channels.
pub open spec fn channel_views(v: Seq<ChannelState>) -> Seq<ChannelView> {
    v.map_values(|c: ChannelState| c@)
}

/// The channels by their sources.
pub type ChannelMap = Map<Seq<char>, ChannelView>;

/// The channels that are known, by source.
pub struct MessageRouter {
    channels: StringMap<ChannelState>,
}

/// The model of a map of channels.
pub open spec fn channel_map(m: Map<Seq<char>, ChannelState>) -> ChannelMap {
    Map::new(|s: Seq<char>| m.dom().contains(s), |s: Seq<char>| m[s]@)
}

impl View for MessageRouter {
    type V = ChannelMap;

    closed spec fn view(&self) -> ChannelMap {
        channel_map(self.channels@)
    }
}

/// Whether every channel stands under its own source.
pub open spec fn under_own_sources(m: ChannelMap) -> bool {
    forall|s: Seq<char>| #[trigger] m.dom().contains(s) ==> m[s].source == s
}

/// The chat that a payload names, as text or as a number.
pub open spec fn named_chat(data: JsonView) -> Option<Seq<char>> {
    first_some(data.str_at("chat_id"@), int_at(data, "chat_id"@))
}

/// The peer that a payload names, where it is not blank.
pub open spec fn named_peer(data: JsonView) -> Option<Seq<char>> {
    match data.str_at("peer_id"@) {
        Some(p) => if trim(p).len() > 0 {
            Some(trim(p))
        } else {
            None
        },
        None => None,
    }
}

/// The peer that a payload from a source gives: the one it names, else one made of the source and
/// the id it carries.
pub open spec fn channel_peer(data: JsonView, source: Seq<char>) -> Option<Seq<char>> {
    match named_peer(data) {
        Some(p) => Some(p),
        None => match raw_id(data) {
            Some(id) => if source.len() > 0 && trim(id).len() > 0 {
                Some(source + ":"@ + trim(id))
            } else {
                None
            },
            None => None,
        },
    }
}

/// The source that a payload names: its source, else its platform.
pub open spec fn named_source(data: JsonView) -> Option<Seq<char>> {
    match first_some(data.str_at("source"@), data.str_at("platform"@)) {
        Some(s) => if s.len() > 0 {
            Some(s)
        } else {
            None
        },
        None => None,
    }
}

/// The channels after a user's message: the channel it came from is known, with what the message
/// says of it.
pub open spec fn noted(m: ChannelMap, data: JsonView, now: u64) -> ChannelMap {
    match named_source(data) {
        Some(source) => m.insert(
            source,
            ChannelView {
                source,
                chat_id: named_chat(data),
                peer_id: channel_peer(data, source),
                updated_at: now,
            },
        ),
        None => m,
    }
}

fn chat_of(data: &Json) -> (r: Option<String>)
    ensures
        opt_text(r) == named_chat(data@),
{
    or_text(text_at(data, "chat_id"), decimal_at(data, "chat_id"))
}

fn peer_named(data: &Json) -> (r: Option<String>)
    ensures
        opt_text(r) == named_peer(data@),
{
    match data.str_at("peer_id") {
        Some(p) => {
            let t = trimmed(p);
            if t.as_str().is_empty() {
                None
            } else {
                Some(t)
            }
        },
        None => None,
    }
}

/// The peer that a payload from a source gives.
pub fn peer_id_from_data(data: &Json, source: &str) -> (r: Option<String>)
    ensures
        opt_text(r) == channel_peer(data@, source@),
{
    match peer_named(data) {
        Some(p) => return Some(p),
        None => {},
    }
    let chat = chat_of(data);
    let user = or_text(text_at(data, "from_user_id"), text_at(data, "user_id"));
    match or_text(chat, user) {
        Some(id) => {
            let id = trimmed(id.as_str());
            if source.is_empty() || id.as_str().is_empty() {
                None
            } else {
                let mut out = source.to_owned();
                out.append(":");
                out.append(id.as_str());
                Some(out)
            }
        },
        None => None,
    }
}

/// Whether `targets` are all known channels, each once. Their order is not fixed.
pub open spec fn all_channels(m: ChannelMap, targets: Seq<ChannelView>) -> bool {
    &&& forall|i: int|
        0 <= i < targets.len() ==> m.dom().contains((#[trigger] targets[i]).source)
            && m[targets[i].source] == targets[i]
    &&& forall|s: Seq<char>| #[trigger]
        m.dom().contains(s) ==> exists|i: int| 0 <= i < targets.len() && (
        #[trigger] targets[i]).source == s
    &&& forall|i: int, j: int|
        #![trigger targets[i], targets[j]]
        0 <= i < j < targets.len() ==> targets[i].source != targets[j].source
}

/// Whether `targets` are where a message for a source goes: to all channels where no source is
/// asked for, or one that is not known; to the one asked for where it is known; and, where no
/// channel is known, to the one asked for with what the message says of it.
pub open spec fn are_targets(
    m: ChannelMap,
    source: Seq<char>,
    chat_id: Option<Seq<char>>,
    peer_id: Option<Seq<char>>,
    now: u64,
    targets: Seq<ChannelView>,
) -> bool {
    if source.len() == 0 || source == "unknown"@ {
        all_channels(m, targets)
    } else if m.dom().contains(source) {
        targets == seq![m[source]]
    } else if m != Map::<Seq<char>, ChannelView>::empty() {
        all_channels(m, targets)
    } else {
        targets == seq![ChannelView { source, chat_id, peer_id, updated_at: now }]
    }
}

/// The payload of a message for a channel. A chat that is a number is written as one.
pub open spec fn route_payload(
    text: Seq<char>,
    source: Seq<char>,
    chat_id: Option<Seq<char>>,
    peer_id: Option<Seq<char>>,
) -> JsonView {
    let base = JsonView::object().with("text"@, JsonView::Str(text)).with(
        "source"@,
        JsonView::Str(source),
    );
    let with_peer = match peer_id {
        Some(p) => base.with("peer_id"@, JsonView::Str(p)),
        None => base,
    };
    match chat_id {
        Some(c) => with_peer.with(
            "chat_id"@,
            match parsed_i64(c) {
                Some(n) => JsonView::integer(n as int),
                None => JsonView::Str(c),
            },
        ),
        None => with_peer,
    }
}

/// The payload of a message for a channel.
pub fn build_route_payload(
    text: &str,
    target_source: &str,
    chat_id: &Option<String>,
    peer_id: &Option<String>,
) -> (r: Json)
    ensures
        r@ == route_payload(text@, target_source@, opt_text(*chat_id), opt_text(*peer_id)),
{
    let mut out = Json::object().with("text", Json::str(text)).with(
        "source",
        Json::str(target_source),
    );
    match peer_id {
        Some(p) => {
            out = out.with("peer_id", Json::str(p.as_str()));
        },
        None => {},
    }
    match chat_id {
        Some(c) => {
            let value = match parse_i64(c.as_str()) {
                Some(n) => Json::integer(n),
                None => Json::str(c.as_str()),
            };
            out = out.with("chat_id", value);
        },
        None => {},
    }
    out
}

/// The event that sends a text to a channel.
pub open spec fn routed(
    text: Seq<char>,
    target: ChannelView,
    chat_id: Option<Seq<char>>,
    peer_id: Option<Seq<char>>,
) -> EventView {
    EventView::fresh(
        "assistant.message"@,
        route_payload(
            text,
            target.source,
            first_some(chat_id, target.chat_id),
            first_some(peer_id, target.peer_id),
        ),
        "message-router"@,
    )
}

/// Whether `events` are what a message to be routed is sent as: nothing where it has no text, else
/// one event for each target.
pub open spec fn is_routed(m: ChannelMap, data: JsonView, now: u64, events: Seq<EventView>) -> bool {
    match data.str_at("text"@) {
        Some(text) if trim(text).len() > 0 => exists|targets: Seq<ChannelView>| #[trigger]
            are_targets(
                m,
                str_or(data, "source"@, ""@),
                named_chat(data),
                named_peer(data),
                now,
                targets,
            ) && events == targets.map_values(
                |t: ChannelView| routed(text, t, named_chat(data), named_peer(data)),
            ),
        _ => events.len() == 0,
    }
}

impl MessageRouter {
    /// A router that knows no channels.
    pub fn new() -> (r: Self)
        ensures
            r@ == Map::<Seq<char>, ChannelView>::empty(),
    {
        let r = MessageRouter { channels: StringMap::new() };
        assert(r@ =~= Map::empty());
        r
    }

    /// Makes a channel known.
    pub fn insert(&mut self, channel: ChannelState)
        ensures
            final(self)@ == old(self)@.insert(channel@.source, channel@),
    {
        let ghost before = self.channels@;
        let source = channel.source.clone();
        self.channels.insert(source.as_str(), channel);
        assert(self@ =~= channel_map(before).insert(source@, channel@));
    }

    /// Takes note of the channel that a user's message came from.
    pub fn on_user_message(&mut self, data: &Json, now: u64)
        requires
            under_own_sources(old(self)@),
        ensures
            final(self)@ == noted(old(self)@, data@, now),
            under_own_sources(final(self)@),
    {
        let source = match or_text(text_at(data, "source"), text_at(data, "platform")) {
            Some(s) => s,
            None => return,
        };
        if source.as_str().is_empty() {
            return;
        }
        let channel = ChannelState {
            chat_id: chat_of(data),
            peer_id: peer_id_from_data(data, source.as_str()),
            source,
            updated_at: now,
        };
        self.insert(channel);
    }

    fn every_channel(&self) -> (r: Vec<ChannelState>)
        requires
            under_own_sources(self@),
        ensures
            all_channels(self@, channel_views(r@)),
    {
        let n = self.channels.len();
        let ghost keys = self.channels.keys();
        let mut out: Vec<ChannelState> = Vec::new();
        let mut i: usize = 0;
        while i < n
            invariant
                i <= n,
                n == keys.len(),
                keys == self.channels.keys(),
                forall|k: int| 0 <= k < n ==> self.channels@.dom().contains(#[trigger] keys[k]),
                out@.len() == i,
                forall|k: int| 0 <= k < i ==> (#[trigger] out@[k])@ == self@[keys[k]],
            decreases n - i,
        {
            out.push(self.channels.value_at(i).clone());
            i = i + 1;
        }
        proof {
            let m = self@;
            let targets = channel_views(out@);
            assert forall|i: int| 0 <= i < targets.len() implies m.dom().contains(
                (#[trigger] targets[i]).source,
            ) && m[targets[i].source] == targets[i] by {
                assert(m.dom().contains(keys[i]));
                assert(out@[i]@ == m[keys[i]]);
            }
            assert forall|s: Seq<char>| #[trigger] m.dom().contains(s) implies exists|i: int|
                0 <= i < targets.len() && (#[trigger] targets[i]).source == s by {
                assert(keys.contains(s));
                let k = choose|k: int| 0 <= k < keys.len() && keys[k] == s;
                assert(out@[k]@ == m[keys[k]]);
                assert(targets[k].source == s);
            }
            assert forall|i: int, j: int|
                #![trigger targets[i], targets[j]]
                0 <= i < j < targets.len() implies targets[i].source != targets[j].source by {
                assert(m.dom().contains(keys[i]));
                assert(m.dom().contains(keys[j]));
                assert(out@[i]@ == m[keys[i]]);
                assert(out@[j]@ == m[keys[j]]);
            }
        }
        out
    }

    /// Where a message for a source goes.
    pub fn resolve_targets(
        &self,
        requested_source: &str,
        requested_chat_id: &Option<String>,
        requested_peer_id: &Option<String>,
        now: u64,
    ) -> (r: Vec<ChannelState>)
        requires
            under_own_sources(self@),
        ensures
            are_targets(
                self@,
                requested_source@,
                opt_text(*requested_chat_id),
                opt_text(*requested_peer_id),
                now,
                channel_views(r@),
            ),
    {
        if requested_source.is_empty() || same(requested_source, "unknown") {
            return self.every_channel();
        }
        let mut out: Vec<ChannelState> = Vec::new();
        match self.channels.get(requested_source) {
            Some(c) => {
                out.push(c.clone());
                assert(channel_views(out@) =~= seq![self@[requested_source@]]);
                return out;
            },
            None => {},
        }
        if self.channels.len() > 0 {
            proof {
                let keys = self.channels.keys();
                assert(self.channels@.dom().contains(keys[0]));
                assert(self@.dom().contains(keys[0]));
            }
            return self.every_channel();
        }
        let channel = ChannelState {
            source: requested_source.to_owned(),
            chat_id: clone_opt(requested_chat_id),
            peer_id: clone_opt(requested_peer_id),
            updated_at: now,
        };
        out.push(channel);
        assert(channel_views(out@) =~= seq![channel@]);
        assert(self@ =~= Map::empty());
        out
    }

    /// Routes a message: the events that send it.
    pub fn on_route_message(&self, data: &Json, now: u64) -> (r: Vec<Event>)
        requires
            under_own_sources(self@),
        ensures
            is_routed(self@, data@, now, event_views(r@)),
    {
        let mut out: Vec<Event> = Vec::new();
        let text = match data.str_at("text") {
            Some(t) => t,
            None => return out,
        };
        if is_blank(text) {
            return out;
        }
        let source = text_or(data, "source", "");
        let chat_id = chat_of(data);
        let peer_id = peer_named(data);
        let targets = self.resolve_targets(source.as_str(), &chat_id, &peer_id, now);
        let ghost ts = channel_views(targets@);
        let mut i: usize = 0;
        while i < targets.len()
            invariant
                i <= targets@.len(),
                ts == channel_views(targets@),
                opt_text(chat_id) == named_chat(data@),
                opt_text(peer_id) == named_peer(data@),
                out@.len() == i,
                forall|k: int|
                    0 <= k < i ==> (#[trigger] out@[k])@ == routed(
                        text@,
                        ts[k],
                        named_chat(data@),
                        named_peer(data@),
                    ),
            decreases targets@.len() - i,
        {
            let chat = or_text(clone_opt(&chat_id), clone_opt(&targets[i].chat_id));
            let peer = or_text(clone_opt(&peer_id), clone_opt(&targets[i].peer_id));
            let payload = build_route_payload(text, targets[i].source.as_str(), &chat, &peer);
            out.push(Event::new("assistant.message", payload, "message-router"));
            i = i + 1;
        }
        assert(event_views(out@) =~= ts.map_values(
            |t: ChannelView| routed(text@, t, named_chat(data@), named_peer(data@)),
        ));
        out
    }

    /// Takes an event: notes where a user's message came from, and routes what is to be routed.
    pub fn on_event(&mut self, event: &Event, now: u64) -> (r: Vec<Event>)
        requires
            under_own_sources(old(self)@),
        ensures
            under_own_sources(final(self)@),
            if event@.topic == "user.message"@ {
                final(self)@ == noted(old(self)@, event@.data, now) && r@.len() == 0
            } else if event@.topic == "route.message"@ || event@.topic == "proactive.message"@ {
                final(self)@ == old(self)@ && is_routed(
                    old(self)@,
                    event@.data,
                    now,
                    event_views(r@),
                )
            } else {
                final(self)@ == old(self)@ && r@.len() == 0
            },
    {
        if same(event.topic.as_str(), "user.message") {
            self.on_user_message(&event.data, now);
            return Vec::new();
        }
        if same(event.topic.as_str(), "route.message") || same(
            event.topic.as_str(),
            "proactive.message",
        ) {
            return self.on_route_message(&event.data, now);
        }
        Vec::new()
    }
}

/// A message for a source that is known goes there alone.
pub proof fn known_source_gets_it_alone(
    m: ChannelMap,
    source: Seq<char>,
    chat_id: Option<Seq<char>>,
    peer_id: Option<Seq<char>>,
    now: u64,
    targets: Seq<ChannelView>,
)
    requires
        are_targets(m, source, chat_id, peer_id, now, targets),
        m.dom().contains(source),
        source.len() > 0,
        source != "unknown"@,
    ensures
        targets.len() == 1,
        targets[0] == m[source],
{
}

/// A message is lost only where it names no source and no channel is known.
pub proof fn routed_message_has_a_target(
    m: ChannelMap,
    source: Seq<char>,
    chat_id: Option<Seq<char>>,
    peer_id: Option<Seq<char>>,
    now: u64,
    targets: Seq<ChannelView>,
)
    requires
        are_targets(m, source, chat_id, peer_id, now, targets),
    ensures
        targets.len() == 0 ==> (source.len() == 0 || source == "unknown"@) && m == Map::<
            Seq<char>,
            ChannelView,
        >::empty(),
{
    if targets.len() == 0 {
        if m != Map::<Seq<char>, ChannelView>::empty() {
            assert(exists|s: Seq<char>| m.dom().contains(s)) by {
                if forall|s: Seq<char>| !m.dom().contains(s) {
                    assert(m =~= Map::empty());
                }
            }
            let s = choose|s: Seq<char>| m.dom().contains(s);
            if !(source.len() > 0 && source != "unknown"@ && m.dom().contains(source)) {
                assert(all_channels(m, targets));
            }
        }
    }
}

/// What a payload says of its chat and peer goes before what is known of the channel.
pub proof fn payload_goes_before_channel(
    text: Seq<char>,
    target: ChannelView,
    chat_id: Seq<char>,
    peer_id: Seq<char>,
)
    ensures
        routed(text, target, Some(chat_id), Some(peer_id)).data == route_payload(
            text,
            target.source,
            Some(chat_id),
            Some(peer_id),
        ),
        routed(text, target, None, None).data == route_payload(
            text,
            target.source,
            target.chat_id,
            target.peer_id,
        ),
{
}

} // verus!
