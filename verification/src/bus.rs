//! Who hears of an event.

use crate::event::{Event, EventView};
use crate::string_map::StringMap;
use crate::text::same;
use vstd::prelude::*;

verus! {

broadcast use vstd::string::group_string_axioms;

/// The recipients by the topics they have asked for. The topic `*` stands for all topics.
pub struct EventBus<R> {
    subscribers: StringMap<Vec<R>>,
}

/// The model of an [`EventBus`].
pub type Topics<R> = Map<Seq<char>, Seq<R>>;

/// The model of the lists of recipients.
pub open spec fn topic_views<R>(m: Map<Seq<char>, Vec<R>>) -> Topics<R> {
    m.map_values(|v: Vec<R>| v@)
}

impl<R> View for EventBus<R> {
    type V = Topics<R>;

    closed spec fn view(&self) -> Topics<R> {
        topic_views(self.subscribers@)
    }
}

/// The recipients of a topic.
pub open spec fn listeners<R>(m: Topics<R>, topic: Seq<char>) -> Seq<R> {
    if m.dom().contains(topic) {
        m[topic]
    } else {
        Seq::empty()
    }
}

/// The recipients of an event: those of its topic, then those of all topics.
pub open spec fn addressed<R>(m: Topics<R>, topic: Seq<char>) -> Seq<R> {
    if topic == "*"@ {
        listeners(m, topic)
    } else {
        listeners(m, topic) + listeners(m, "*"@)
    }
}

/// The recipients that `flags` marks, in order.
pub open spec fn kept<R>(all: Seq<R>, flags: Seq<bool>) -> Seq<R>
    decreases all.len(),
{
    if all.len() == 0 || flags.len() != all.len() {
        Seq::empty()
    } else {
        let before = kept(all.drop_last(), flags.drop_last());
        if flags.last() {
            before.push(all.last())
        } else {
            before
        }
    }
}

/// Whether `after` is `all` without those of which `connected` says no.
pub open spec fn pruned<R, F: Fn(&R) -> bool>(all: Seq<R>, connected: F, after: Seq<R>) -> bool {
    exists|flags: Seq<bool>|
        flags.len() == all.len() && after == #[trigger] kept(all, flags) && forall|i: int|
            0 <= i < all.len() ==> call_ensures(connected, (&all[i],), #[trigger] flags[i])
}

fn add_all<'a, R>(out: &mut Vec<&'a R>, list: &'a Vec<R>)
    ensures
        final(out)@.len() == old(out)@.len() + list@.len(),
        forall|i: int|
            0 <= i < final(out)@.len() ==> *(#[trigger] final(out)@[i]) == if i < old(out)@.len() {
                *old(out)@[i]
            } else {
                list@[i - old(out)@.len()]
            },
{
    let ghost before = out@;
    let mut i: usize = 0;
    while i < list.len()
        invariant
            i <= list@.len(),
            out@.len() == before.len() + i,
            forall|k: int|
                0 <= k < out@.len() ==> *(#[trigger] out@[k]) == if k < before.len() {
                    *before[k]
                } else {
                    list@[k - before.len()]
                },
        decreases list@.len() - i,
    {
        out.push(&list[i]);
        i = i + 1;
    }
}

impl<R> EventBus<R> {
    /// A bus without recipients.
    pub fn new() -> (r: Self)
        ensures
            r@ == Map::<Seq<char>, Seq<R>>::empty(),
    {
        let r = EventBus { subscribers: StringMap::new() };
        assert(r@ =~= Map::empty());
        r
    }

    /// Adds a recipient to a topic, behind those that it has.
    pub fn subscribe(&mut self, topic: &str, recipient: R)
        ensures
            final(self)@ == old(self)@.insert(topic@, listeners(old(self)@, topic@).push(recipient)),
    {
        let ghost before = self.subscribers@;
        let mut list = match self.subscribers.remove(topic) {
            Some(v) => v,
            None => Vec::new(),
        };
        let ghost was = list@;
        list.push(recipient);
        self.subscribers.insert(topic, list);
        assert(was =~= listeners(topic_views(before), topic@));
        assert(self@ =~= topic_views(before).insert(topic@, was.push(recipient)));
    }

    /// Takes the recipients of a topic out that are no longer connected.
    pub fn unsubscribe<F: Fn(&R) -> bool>(&mut self, topic: &str, connected: F)
        requires
            forall|r: &R| call_requires(connected, (r,)),
        ensures
            if old(self)@.dom().contains(topic@) {
                &&& final(self)@ == old(self)@.insert(topic@, final(self)@[topic@])
                &&& pruned(old(self)@[topic@], connected, final(self)@[topic@])
            } else {
                final(self)@ == old(self)@
            },
    {
        let ghost before = self.subscribers@;
        let mut rest = match self.subscribers.remove(topic) {
            Some(v) => v,
            None => {
                assert(self@ =~= topic_views(before));
                return;
            },
        };
        let ghost all = rest@;
        let ghost mut flags: Seq<bool> = Seq::empty();
        let mut out: Vec<R> = Vec::new();
        assert(all.skip(0) =~= all);
        while rest.len() > 0
            invariant
                forall|r: &R| call_requires(connected, (r,)),
                flags.len() + rest@.len() == all.len(),
                rest@ == all.skip(flags.len() as int),
                out@ == kept(all.take(flags.len() as int), flags),
                forall|i: int|
                    0 <= i < flags.len() ==> call_ensures(
                        connected,
                        (&all[i],),
                        #[trigger] flags[i],
                    ),
            decreases rest@.len(),
        {
            let ghost n = flags.len() as int;
            let r = rest.remove(0);
            let keep = connected(&r);
            proof {
                assert(all.take(n + 1).drop_last() =~= all.take(n));
                assert(flags.push(keep).drop_last() =~= flags);
                assert(all.skip(n)[0] == all[n]);
                assert(all.skip(n).remove(0) =~= all.skip(n + 1));
                flags = flags.push(keep);
            }
            if keep {
                out.push(r);
            }
        }
        assert(all.take(all.len() as int) =~= all);
        self.subscribers.insert(topic, out);
        assert(self@[topic@] == kept(all, flags));
        assert(self@ =~= topic_views(before).insert(topic@, out@));
    }

    /// The recipients of an event of a topic, in the order in which they hear of it.
    pub fn recipients(&self, topic: &str) -> (r: Vec<&R>)
        ensures
            r@.len() == addressed(self@, topic@).len(),
            forall|i: int| 0 <= i < r@.len() ==> *(#[trigger] r@[i]) == addressed(self@, topic@)[i],
    {
        let mut out: Vec<&R> = Vec::new();
        match self.subscribers.get(topic) {
            Some(list) => add_all(&mut out, list),
            None => {},
        }
        if !same(topic, "*") {
            match self.subscribers.get("*") {
                Some(list) => add_all(&mut out, list),
                None => {},
            }
        }
        out
    }
}

/// The event as it is handed out: with the time, in milliseconds.
pub fn stamped(event: Event, now: u64) -> (r: Event)
    ensures
        r@ == (EventView { timestamp: now, ..event@ }),
{
    Event { topic: event.topic, data: event.data, source: event.source, timestamp: now }
}

/// Hands an event to listeners `0` to `count - 1` in order, until one says no, and returns how many
/// have heard of it.
pub fn propagate<F: Fn(usize) -> bool>(count: usize, listener: F) -> (r: usize)
    requires
        forall|i: usize| i < count ==> call_requires(listener, (i,)),
    ensures
        r <= count,
        forall|i: usize| i + 1 < r ==> #[trigger] call_ensures(listener, (i,), true),
        r < count ==> r > 0 && call_ensures(listener, ((r - 1) as usize,), false),
        r == count && r > 0 ==> call_ensures(listener, ((r - 1) as usize,), true)
            || call_ensures(listener, ((r - 1) as usize,), false),
{
    let mut i: usize = 0;
    while i < count
        invariant
            i <= count,
            forall|k: usize| k < count ==> call_requires(listener, (k,)),
            forall|k: usize| k < i ==> #[trigger] call_ensures(listener, (k,), true),
        decreases count - i,
    {
        let go_on = listener(i);
        i = i + 1;
        if !go_on {
            return i;
        }
    }
    count
}

/// A recipient hears of the events of the topic it asked for, also of all topics.
pub proof fn subscriber_is_addressed<R>(m: Topics<R>, topic: Seq<char>, recipient: R)
    ensures
        ({
            let after = m.insert(topic, listeners(m, topic).push(recipient));
            &&& addressed(after, topic).contains(recipient)
            &&& topic == "*"@ ==> forall|t: Seq<char>| #[trigger]
                addressed(after, t).contains(recipient)
        }),
{
    let after = m.insert(topic, listeners(m, topic).push(recipient));
    let list = listeners(after, topic);
    assert(list[list.len() - 1] == recipient);
    let all = addressed(after, topic);
    assert(all[list.len() - 1] == recipient);
    if topic == "*"@ {
        assert forall|t: Seq<char>| #[trigger] addressed(after, t).contains(recipient) by {
            let a = addressed(after, t);
            assert(a[a.len() - 1] == recipient);
        }
    }
}

/// A recipient of one topic does not hear of another.
pub proof fn other_topics_are_not_heard<R>(
    m: Topics<R>,
    topic: Seq<char>,
    recipient: R,
    other: Seq<char>,
)
    requires
        topic != "*"@,
        other != topic,
    ensures
        addressed(m.insert(topic, listeners(m, topic).push(recipient)), other) == addressed(
            m,
            other,
        ),
{
}

/// Taking out the disconnected keeps the order of the others and adds none.
pub proof fn pruning_adds_none<R>(all: Seq<R>, flags: Seq<bool>)
    ensures
        kept(all, flags).len() <= all.len(),
        forall|i: int| 0 <= i < kept(all, flags).len() ==> all.contains(#[trigger] kept(all, flags)[i]),
    decreases all.len(),
{
    if all.len() > 0 && flags.len() == all.len() {
        pruning_adds_none(all.drop_last(), flags.drop_last());
        let before = kept(all.drop_last(), flags.drop_last());
        let now = kept(all, flags);
        assert forall|i: int| 0 <= i < now.len() implies all.contains(#[trigger] now[i]) by {
            if i < before.len() {
                assert(now[i] == before[i]);
                let k = choose|k: int|
                    0 <= k < all.drop_last().len() && all.drop_last()[k] == before[i];
                assert(all[k] == before[i]);
            } else {
                assert(now[i] == all[all.len() - 1]);
            }
        }
    }
}

} // verus!
