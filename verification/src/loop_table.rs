//! The table of agent loops: starting, stopping, pausing, and what is kept of them.

use crate::agent_loop::{
    active_count, active_loop_count, are_pruned, can_start_new_loop, is_active, is_terminal,
    prune_views, reconcile_restored_status, reconciled, step_views, terminal_ids_to_prune,
    AgentLoopSnapshot, AgentLoopStatus, AgentLoopStep, LoopStepView, PruneItem, SnapshotView,
    DEFAULT_MAX_STEPS, DEFAULT_MAX_TOOL_ROUNDS, MAX_STEPS_CAP, MAX_TOOL_ROUNDS_CAP,
};
use crate::event::{str_or, text_at, text_or, Event, EventView};
use crate::ids::{is_random_id, random_id};
use crate::json::{Json, JsonView};
use crate::numbers::{decimal, push_decimal};
use crate::order::{comes_before, is_order, order_lists_every_place, sort_places};
use crate::string_map::StringMap;
use crate::text::{is_blank, same, trim, trimmed, views};
use crate::tool::opt_text;
use vstd::prelude::*;

verus! {

broadcast use vstd::string::group_string_axioms;

/// A loop and what its runner is asked to do.
pub struct LoopState {
    pub snapshot: AgentLoopSnapshot,
    /// The runner is to stop.
    pub stop: bool,
    /// The runner is to wait.
    pub pause: bool,
}

/// The model of a [`LoopState`].
pub ghost struct LoopStateView {
    pub snapshot: SnapshotView,
    pub stop: bool,
    pub pause: bool,
}

impl View for LoopState {
    type V = LoopStateView;

    open spec fn view(&self) -> LoopStateView {
        LoopStateView { snapshot: self.snapshot@, stop: self.stop, pause: self.pause }
    }
}

/// The loops, by id.
pub struct AgentLoopTable {
    loops: StringMap<LoopState>,
}

/// The loops of a table by their models.
pub type LoopMap = Map<Seq<char>, LoopStateView>;

/// The model of a map of loops.
pub open spec fn state_views(m: Map<Seq<char>, LoopState>) -> LoopMap {
    Map::new(|id: Seq<char>| m.dom().contains(id), |id: Seq<char>| m[id]@)
}

impl View for AgentLoopTable {
    type V = LoopMap;

    closed spec fn view(&self) -> LoopMap {
        state_views(self.loops@)
    }
}

/// Whether every loop stands under its own id.
pub open spec fn under_own_ids(m: LoopMap) -> bool {
    forall|id: Seq<char>| #[trigger] m.dom().contains(id) ==> m[id].snapshot.id == id
}

/// How many loops of the table have not ended.
pub open spec fn active_in(m: LoopMap) -> nat {
    m.dom().filter(|id: Seq<char>| is_active(m[id].snapshot.status)).len()
}

/// What a loop is asked to be.
#[derive(Debug, PartialEq)]
pub struct LoopRequest {
    pub goal: String,
    pub peer_id: Option<String>,
    pub max_steps: Option<usize>,
    pub max_tool_rounds: Option<usize>,
}

/// The model of a [`LoopRequest`].
pub ghost struct LoopRequestView {
    pub goal: Seq<char>,
    pub peer_id: Option<Seq<char>>,
    pub max_steps: Option<usize>,
    pub max_tool_rounds: Option<usize>,
}

impl View for LoopRequest {
    type V = LoopRequestView;

    open spec fn view(&self) -> LoopRequestView {
        LoopRequestView {
            goal: self.goal@,
            peer_id: opt_text(self.peer_id),
            max_steps: self.max_steps,
            max_tool_rounds: self.max_tool_rounds,
        }
    }
}

/// `n` brought between `low` and `high`.
pub open spec fn clamped(n: usize, low: usize, high: usize) -> usize {
    if n < low {
        low
    } else if n > high {
        high
    } else {
        n
    }
}

fn clamp(n: usize, low: usize, high: usize) -> (r: usize)
    ensures
        r == clamped(n, low, high),
{
    if n < low {
        low
    } else if n > high {
        high
    } else {
        n
    }
}

/// A loop that has just been started.
pub open spec fn new_loop(r: LoopRequestView, id: Seq<char>, now: u64) -> SnapshotView {
    SnapshotView {
        id,
        goal: trim(r.goal),
        peer_id: match r.peer_id {
            Some(p) => p,
            None => "agent-loop:default"@,
        },
        status: AgentLoopStatus::Running,
        max_steps: clamped(
            match r.max_steps {
                Some(n) => n,
                None => DEFAULT_MAX_STEPS,
            },
            1,
            MAX_STEPS_CAP,
        ),
        max_tool_rounds: clamped(
            match r.max_tool_rounds {
                Some(n) => n,
                None => DEFAULT_MAX_TOOL_ROUNDS,
            },
            0,
            MAX_TOOL_ROUNDS_CAP,
        ),
        steps_taken: 0,
        observations: Seq::empty(),
        error: None,
        created_at_ms: now,
        updated_at_ms: now,
    }
}

/// Why a loop is not started: it has no goal, or too many are at work.
pub open spec fn start_refusal(m: LoopMap, r: LoopRequestView, max_concurrent: usize) -> Option<
    Seq<char>,
> {
    if trim(r.goal).len() == 0 {
        Some("goal is required"@)
    } else if max_concurrent > 0 && active_in(m) >= max_concurrent {
        Some(
            "max concurrent agent loops reached ("@ + decimal(active_in(m)) + "/"@ + decimal(
                max_concurrent as nat,
            ) + ")"@,
        )
    } else {
        None
    }
}

/// The table with a loop that has just been started.
pub open spec fn with_new_loop(
    m: LoopMap,
    r: LoopRequestView,
    id: Seq<char>,
    now: u64,
) -> LoopMap {
    m.insert(
        id,
        LoopStateView { snapshot: new_loop(r, id, now), stop: false, pause: false },
    )
}

/// Whether `items` lists each loop of the table once.
pub open spec fn lists(m: LoopMap, items: Seq<PruneItem>) -> bool {
    &&& forall|i: int|
        0 <= i < items.len() ==> m.dom().contains((#[trigger] items[i]).id)
            && m[items[i].id].snapshot.status == items[i].status
            && m[items[i].id].snapshot.updated_at_ms == items[i].updated_at_ms
    &&& forall|i: int, j: int|
        #![trigger items[i], items[j]]
        0 <= i < j < items.len() ==> items[i].id != items[j].id
    &&& forall|id: Seq<char>| #[trigger]
        m.dom().contains(id) ==> exists|i: int| 0 <= i < items.len() && (#[trigger] items[i]).id
            == id
}

/// Whether `after` is the table without the loops `ids`, which are those to be pruned. Which of two
/// loops with the same time of change goes first is left open.
pub open spec fn is_pruned(before: LoopMap, keep: nat, ids: Seq<Seq<char>>, after: LoopMap) -> bool {
    &&& exists|items: Seq<PruneItem>| #[trigger] lists(before, items) && are_pruned(
        items,
        keep,
        ids,
    )
    &&& after == before.remove_keys(ids.to_set())
}

/// Asked to stop: the runner is told so, and a loop at work is stopping.
pub open spec fn stopped(s: LoopStateView, now: u64) -> LoopStateView {
    if s.snapshot.status == AgentLoopStatus::Running {
        LoopStateView {
            snapshot: SnapshotView {
                status: AgentLoopStatus::Stopping,
                updated_at_ms: now,
                ..s.snapshot
            },
            stop: true,
            ..s
        }
    } else {
        LoopStateView { stop: true, ..s }
    }
}

/// Asked to wait.
pub open spec fn paused(s: LoopStateView, now: u64) -> LoopStateView {
    LoopStateView {
        snapshot: SnapshotView {
            status: AgentLoopStatus::Paused,
            updated_at_ms: now,
            ..s.snapshot
        },
        pause: true,
        ..s
    }
}

/// Asked to go on.
pub open spec fn resumed(s: LoopStateView, now: u64) -> LoopStateView {
    LoopStateView {
        snapshot: SnapshotView {
            status: AgentLoopStatus::Running,
            updated_at_ms: now,
            ..s.snapshot
        },
        pause: false,
        ..s
    }
}

/// What a runner reports.
#[derive(Debug, PartialEq)]
pub struct AgentLoopProgress {
    pub id: String,
    pub step: Option<AgentLoopStep>,
    pub status: Option<AgentLoopStatus>,
    pub error: Option<String>,
}

/// The model of an [`AgentLoopProgress`].
pub ghost struct ProgressView {
    pub id: Seq<char>,
    pub step: Option<LoopStepView>,
    pub status: Option<AgentLoopStatus>,
    pub error: Option<Seq<char>>,
}

impl View for AgentLoopProgress {
    type V = ProgressView;

    open spec fn view(&self) -> ProgressView {
        ProgressView {
            id: self.id@,
            step: match self.step {
                Some(s) => Some(s@),
                None => None,
            },
            status: self.status,
            error: opt_text(self.error),
        }
    }
}

/// Whether a loop is held by what it was asked from outside.
pub open spec fn held(s: AgentLoopStatus) -> bool {
    s == AgentLoopStatus::Paused || s == AgentLoopStatus::Stopping
}

/// A loop after a report. That the runner is at work does not undo what the loop was asked from
/// outside.
pub open spec fn progressed(s: SnapshotView, p: ProgressView, now: u64) -> SnapshotView {
    SnapshotView {
        steps_taken: match p.step {
            Some(step) => step.step,
            None => s.steps_taken,
        },
        observations: match p.step {
            Some(step) => s.observations.push(step),
            None => s.observations,
        },
        status: match p.status {
            Some(status) => if held(s.status) && status == AgentLoopStatus::Running {
                s.status
            } else {
                status
            },
            None => s.status,
        },
        error: match p.error {
            Some(e) => Some(e),
            None => s.error,
        },
        updated_at_ms: now,
        ..s
    }
}

/// The loop that an event asks for, where it asks for one with a goal.
pub open spec fn event_request(e: EventView) -> Option<LoopRequestView> {
    if e.topic == "agent.loop.start"@ && trim(str_or(e.data, "goal"@, ""@)).len() > 0 {
        Some(
            LoopRequestView {
                goal: str_or(e.data, "goal"@, ""@),
                peer_id: e.data.str_at("peer_id"@),
                max_steps: count_at(e.data, "max_steps"@),
                max_tool_rounds: count_at(e.data, "max_tool_rounds"@),
            },
        )
    } else {
        None
    }
}

/// A member of the payload that is a natural number, cut to the width of an index.
pub open spec fn count_at(data: JsonView, key: Seq<char>) -> Option<usize> {
    match data.at(key).as_u64() {
        Some(n) => Some(n as usize),
        None => None,
    }
}

fn number_at(data: &Json, key: &str) -> (r: Option<usize>)
    ensures
        r == count_at(data@, key@),
{
    match data.get(key) {
        Some(v) => match v.as_u64() {
            Some(n) => Some(
                #[verifier::truncate]
                (n as usize),
            ),
            None => None,
        },
        None => None,
    }
}

/// The loop that an event asks for.
pub fn request_from_event(event: &Event) -> (r: Option<LoopRequest>)
    ensures
        match r {
            Some(q) => event_request(event@) == Some(q@),
            None => event_request(event@) is None,
        },
{
    if !same(event.topic.as_str(), "agent.loop.start") {
        return None;
    }
    let goal = text_or(&event.data, "goal", "");
    if is_blank(goal.as_str()) {
        return None;
    }
    Some(
        LoopRequest {
            goal,
            peer_id: text_at(&event.data, "peer_id"),
            max_steps: number_at(&event.data, "max_steps"),
            max_tool_rounds: number_at(&event.data, "max_tool_rounds"),
        },
    )
}

proof fn lemma_active_in(m: LoopMap, keys: Seq<Seq<char>>, statuses: Seq<AgentLoopStatus>)
    requires
        keys.no_duplicates(),
        keys.len() == statuses.len(),
        forall|i: int|
            0 <= i < keys.len() ==> m.dom().contains(#[trigger] keys[i])
                && m[keys[i]].snapshot.status == statuses[i],
    ensures
        keys.to_set().finite(),
        keys.to_set().filter(|id: Seq<char>| is_active(m[id].snapshot.status)).finite(),
        keys.to_set().filter(|id: Seq<char>| is_active(m[id].snapshot.status)).len()
            == active_count(statuses),
    decreases keys.len(),
{
    let p = |id: Seq<char>| is_active(m[id].snapshot.status);
    if keys.len() == 0 {
        assert(keys.to_set() =~= Set::empty());
        assert(keys.to_set().filter(p) =~= Set::empty());
    } else {
        let rest = keys.drop_last();
        let last = keys.last();
        assert forall|i: int| 0 <= i < rest.len() implies m.dom().contains(#[trigger] rest[i])
            && m[rest[i]].snapshot.status == statuses.drop_last()[i] by {
            assert(rest[i] == keys[i]);
        }
        lemma_active_in(m, rest, statuses.drop_last());
        assert(keys.to_set() =~= rest.to_set().insert(last)) by {
            assert forall|x: Seq<char>| keys.to_set().contains(x) == rest.to_set().insert(
                last,
            ).contains(x) by {
                if keys.contains(x) {
                    let i = choose|i: int| 0 <= i < keys.len() && keys[i] == x;
                    if i < rest.len() {
                        assert(rest[i] == x);
                    }
                }
                if rest.contains(x) {
                    let i = choose|i: int| 0 <= i < rest.len() && rest[i] == x;
                    assert(keys[i] == x);
                }
                if x == last {
                    assert(keys[keys.len() - 1] == x);
                }
            }
        }
        assert(!rest.to_set().contains(last)) by {
            if rest.contains(last) {
                let i = choose|i: int| 0 <= i < rest.len() && rest[i] == last;
                assert(keys[i] == keys[keys.len() - 1]);
            }
        }
        assert(m[keys[keys.len() - 1]].snapshot.status == statuses.last());
        if p(last) {
            assert(keys.to_set().filter(p) =~= rest.to_set().filter(p).insert(last));
        } else {
            assert(keys.to_set().filter(p) =~= rest.to_set().filter(p));
        }
    }
}

impl AgentLoopTable {
    /// A table without loops.
    pub fn new() -> (r: Self)
        ensures
            r@ == Map::<Seq<char>, LoopStateView>::empty(),
    {
        let r = AgentLoopTable { loops: StringMap::new() };
        assert(r@ =~= Map::empty());
        r
    }

    /// Takes in a loop that was kept; one whose runner was lost with the process has failed. Tells
    /// what to keep of it now, where that has changed.
    pub fn restore(&mut self, snap: AgentLoopSnapshot, now: u64) -> (r: Option<AgentLoopSnapshot>)
        ensures
            ({
                let changed = reconciled(snap@).status != snap@.status;
                let kept = if changed {
                    SnapshotView { updated_at_ms: now, ..reconciled(snap@) }
                } else {
                    snap@
                };
                &&& final(self)@ == old(self)@.insert(
                    snap@.id,
                    LoopStateView { snapshot: kept, stop: false, pause: false },
                )
                &&& r is Some == changed
                &&& r matches Some(s) ==> s@ == kept
            }),
    {
        let ghost before = self.loops@;
        let mut snap = snap;
        let changed = reconcile_restored_status(&mut snap);
        let mut out: Option<AgentLoopSnapshot> = None;
        if changed {
            snap.updated_at_ms = now;
            out = Some(snap.clone());
        }
        let id = snap.id.clone();
        let state = LoopState { snapshot: snap, stop: false, pause: false };
        self.loops.insert(id.as_str(), state);
        assert(self@ =~= state_views(before).insert(id@, state@));
        out
    }

    fn statuses(&self) -> (r: Vec<AgentLoopStatus>)
        ensures
            active_count(r@) == active_in(self@),
    {
        let mut out: Vec<AgentLoopStatus> = Vec::new();
        let n = self.loops.len();
        let ghost keys = self.loops.keys();
        let mut i: usize = 0;
        while i < n
            invariant
                i <= n,
                n == keys.len(),
                keys == self.loops.keys(),
                forall|k: int| 0 <= k < n ==> self.loops@.dom().contains(#[trigger] keys[k]),
                out@.len() == i,
                forall|k: int|
                    0 <= k < i ==> #[trigger] out@[k] == self@[keys[k]].snapshot.status,
            decreases n - i,
        {
            out.push(self.loops.value_at(i).snapshot.status);
            i = i + 1;
        }
        proof {
            let m = self@;
            lemma_active_in(m, keys, out@);
            assert(m.dom() =~= keys.to_set()) by {
                assert forall|id: Seq<char>| m.dom().contains(id) == keys.to_set().contains(id) by {
                    if keys.contains(id) {
                        let k = choose|k: int| 0 <= k < keys.len() && keys[k] == id;
                        assert(self.loops@.dom().contains(keys[k]));
                    }
                }
            }
        }
        out
    }

    /// Removes loops that have ended so that the `keep` changed last remain. Returns the ids.
    pub fn prune_terminal(&mut self, keep: usize) -> (r: Vec<String>)
        requires
            under_own_ids(old(self)@),
        ensures
            is_pruned(old(self)@, keep as nat, views(r@), final(self)@),
            under_own_ids(final(self)@),
    {
        let ghost before = self@;
        let mut items: Vec<(String, AgentLoopStatus, u64)> = Vec::new();
        let n = self.loops.len();
        let ghost keys = self.loops.keys();
        let mut i: usize = 0;
        while i < n
            invariant
                i <= n,
                n == keys.len(),
                keys == self.loops.keys(),
                before == self@,
                forall|k: int| 0 <= k < n ==> self.loops@.dom().contains(#[trigger] keys[k]),
                items@.len() == i,
                forall|k: int|
                    0 <= k < i ==> (#[trigger] items@[k]).0@ == keys[k] && items@[k].1
                        == before[keys[k]].snapshot.status && items@[k].2
                        == before[keys[k]].snapshot.updated_at_ms,
            decreases n - i,
        {
            let state = self.loops.value_at(i);
            let id = self.loops.key_at(i).clone();
            items.push((id, state.snapshot.status, state.snapshot.updated_at_ms));
            i = i + 1;
        }
        proof {
            let listed = prune_views(items@);
            assert forall|i: int| 0 <= i < listed.len() implies before.dom().contains(
                (#[trigger] listed[i]).id,
            ) && before[listed[i].id].snapshot.status == listed[i].status
                && before[listed[i].id].snapshot.updated_at_ms == listed[i].updated_at_ms by {
                assert(items@[i].0@ == keys[i]);
            }
            assert forall|i: int, j: int|
                #![trigger listed[i], listed[j]]
                0 <= i < j < listed.len() implies listed[i].id != listed[j].id by {
                assert(items@[i].0@ == keys[i]);
                assert(items@[j].0@ == keys[j]);
            }
            assert forall|id: Seq<char>| #[trigger]
                before.dom().contains(id) implies exists|i: int|
                0 <= i < listed.len() && (#[trigger] listed[i]).id == id by {
                assert(keys.contains(id));
                let k = choose|k: int| 0 <= k < keys.len() && keys[k] == id;
                assert(items@[k].0@ == keys[k]);
                assert(listed[k].id == id);
            }
            assert(lists(before, listed));
        }
        let ids = terminal_ids_to_prune(items.as_slice(), keep);
        let ghost removed = views(ids@);
        let mut k: usize = 0;
        proof {
            assert(removed.take(0) =~= Seq::empty());
            assert(before.remove_keys(removed.take(0).to_set()) =~= before);
        }
        while k < ids.len()
            invariant
                k <= ids@.len(),
                removed == views(ids@),
                self@ == before.remove_keys(removed.take(k as int).to_set()),
            decreases ids@.len() - k,
        {
            let ghost now = self.loops@;
            let ghost so_far = self@;
            let _ = self.loops.remove(ids[k].as_str());
            proof {
                let id = removed[k as int];
                assert(self@ =~= so_far.remove(id));
                let t = removed.take(k + 1);
                assert(t =~= removed.take(k as int).push(id));
                assert(t.to_set() =~= removed.take(k as int).to_set().insert(id)) by {
                    assert forall|x: Seq<char>| t.to_set().contains(x) == removed.take(
                        k as int,
                    ).to_set().insert(id).contains(x) by {
                        if t.contains(x) {
                            let i = choose|i: int| 0 <= i < t.len() && t[i] == x;
                            if i < k {
                                assert(removed.take(k as int)[i] == x);
                            }
                        }
                        if removed.take(k as int).contains(x) {
                            let i = choose|i: int|
                                0 <= i < k && removed.take(k as int)[i] == x;
                            assert(t[i] == x);
                        }
                        if x == id {
                            assert(t[k as int] == x);
                        }
                    }
                }
                assert(self@ =~= before.remove_keys(t.to_set()));
            }
            k = k + 1;
        }
        assert(removed.take(removed.len() as int) =~= removed);
        ids
    }

    /// Starts a loop with the given id. Returns it and the ids of the loops that were removed to
    /// make room.
    pub fn start_with(
        &mut self,
        request: LoopRequest,
        max_concurrent: usize,
        keep: usize,
        id: String,
        now: u64,
    ) -> (r: Result<(AgentLoopSnapshot, Vec<String>), String>)
        requires
            under_own_ids(old(self)@),
        ensures
            under_own_ids(final(self)@),
            match (r, start_refusal(old(self)@, request@, max_concurrent)) {
                (Err(e), Some(why)) => e@ == why && final(self)@ == old(self)@,
                (Ok((snap, removed)), None) => snap@ == new_loop(request@, id@, now) && is_pruned(
                    with_new_loop(old(self)@, request@, id@, now),
                    keep as nat,
                    views(removed@),
                    final(self)@,
                ),
                _ => false,
            },
    {
        let goal = trimmed(request.goal.as_str());
        if goal.as_str().is_empty() {
            return Err("goal is required".to_owned());
        }
        if max_concurrent > 0 {
            let statuses = self.statuses();
            let active = active_loop_count(statuses.as_slice());
            if !can_start_new_loop(active, max_concurrent) {
                let mut e = "max concurrent agent loops reached (".to_owned();
                push_decimal(&mut e, active as u64);
                e.append("/");
                push_decimal(&mut e, max_concurrent as u64);
                e.append(")");
                return Err(e);
            }
        }
        let peer_id = match request.peer_id {
            Some(p) => p,
            None => "agent-loop:default".to_owned(),
        };
        let steps = match request.max_steps {
            Some(n) => n,
            None => DEFAULT_MAX_STEPS,
        };
        let rounds = match request.max_tool_rounds {
            Some(n) => n,
            None => DEFAULT_MAX_TOOL_ROUNDS,
        };
        let snapshot = AgentLoopSnapshot {
            id: id.clone(),
            goal,
            peer_id,
            status: AgentLoopStatus::Running,
            max_steps: clamp(steps, 1, MAX_STEPS_CAP),
            max_tool_rounds: clamp(rounds, 0, MAX_TOOL_ROUNDS_CAP),
            steps_taken: 0,
            observations: Vec::new(),
            error: None,
            created_at_ms: now,
            updated_at_ms: now,
        };
        assert(step_views(snapshot.observations@) =~= Seq::empty());
        let shown = snapshot.clone();
        let ghost before = self.loops@;
        let state = LoopState { snapshot, stop: false, pause: false };
        self.loops.insert(id.as_str(), state);
        assert(self@ =~= state_views(before).insert(id@, state@));
        let removed = self.prune_terminal(keep);
        Ok((shown, removed))
    }

    /// Starts a loop under a fresh random id.
    pub fn start(&mut self, request: LoopRequest, max_concurrent: usize, keep: usize, now: u64) -> (r:
        Result<(AgentLoopSnapshot, Vec<String>), String>)
        requires
            under_own_ids(old(self)@),
        ensures
            under_own_ids(final(self)@),
            match (r, start_refusal(old(self)@, request@, max_concurrent)) {
                (Err(e), Some(why)) => e@ == why && final(self)@ == old(self)@,
                (Ok((snap, removed)), None) => is_random_id(snap@.id) && snap@ == new_loop(
                    request@,
                    snap@.id,
                    now,
                ) && is_pruned(
                    with_new_loop(old(self)@, request@, snap@.id, now),
                    keep as nat,
                    views(removed@),
                    final(self)@,
                ),
                _ => false,
            },
    {
        let id = random_id();
        self.start_with(request, max_concurrent, keep, id, now)
    }

    /// The loop with the id.
    pub fn get(&self, id: &str) -> (r: Option<AgentLoopSnapshot>)
        ensures
            match r {
                Some(s) => self@.dom().contains(id@) && s@ == self@[id@].snapshot,
                None => !self@.dom().contains(id@),
            },
    {
        match self.loops.get(id) {
            Some(state) => Some(state.snapshot.clone()),
            None => None,
        }
    }

    /// Tells the runner of the loop whether to stop and whether to wait.
    pub fn flags(&self, id: &str) -> (r: Option<(bool, bool)>)
        ensures
            match r {
                Some((stop, pause)) => self@.dom().contains(id@) && stop == self@[id@].stop && pause
                    == self@[id@].pause,
                None => !self@.dom().contains(id@),
            },
    {
        match self.loops.get(id) {
            Some(state) => Some((state.stop, state.pause)),
            None => None,
        }
    }

    /// All loops, each once, the one created first in front. Loops created at the same time stand
    /// in no fixed order.
    pub fn list(&self) -> (r: Vec<AgentLoopSnapshot>)
        requires
            under_own_ids(self@),
        ensures
            forall|i: int|
                0 <= i < r@.len() ==> self@.dom().contains((#[trigger] r@[i])@.id)
                    && self@[r@[i]@.id].snapshot == r@[i]@,
            forall|id: Seq<char>| #[trigger]
                self@.dom().contains(id) ==> exists|i: int|
                    0 <= i < r@.len() && (#[trigger] r@[i])@.id == id,
            forall|i: int, j: int|
                #![trigger r@[i], r@[j]]
                0 <= i < j < r@.len() ==> r@[i]@.id != r@[j]@.id && r@[i]@.created_at_ms
                    <= r@[j]@.created_at_ms,
    {
        let n = self.loops.len();
        let ghost keys = self.loops.keys();
        let mut times: Vec<u64> = Vec::new();
        let mut i: usize = 0;
        while i < n
            invariant
                i <= n,
                n == keys.len(),
                keys == self.loops.keys(),
                forall|k: int| 0 <= k < n ==> self.loops@.dom().contains(#[trigger] keys[k]),
                times@.len() == i,
                forall|k: int|
                    0 <= k < i ==> #[trigger] times@[k] == self@[keys[k]].snapshot.created_at_ms,
            decreases n - i,
        {
            times.push(self.loops.value_at(i).snapshot.created_at_ms);
            i = i + 1;
        }
        let order = sort_places(&times, false);
        let mut out: Vec<AgentLoopSnapshot> = Vec::new();
        let mut k: usize = 0;
        while k < order.len()
            invariant
                k <= order@.len(),
                keys == self.loops.keys(),
                times@.len() == keys.len(),
                is_order(times@, false, order@),
                forall|j: int| 0 <= j < keys.len() ==> self.loops@.dom().contains(#[trigger] keys[j]),
                out@.len() == k,
                forall|j: int|
                    0 <= j < k ==> (#[trigger] out@[j])@ == self@[keys[order@[j] as int]].snapshot,
            decreases order@.len() - k,
        {
            out.push(self.loops.value_at(order[k]).snapshot.clone());
            k = k + 1;
        }
        proof {
            let m = self@;
            assert forall|i: int| 0 <= i < out@.len() implies m.dom().contains(
                (#[trigger] out@[i])@.id,
            ) && m[out@[i]@.id].snapshot == out@[i]@ by {
                let key = keys[order@[i] as int];
                assert(m.dom().contains(key));
                assert(out@[i]@ == m[key].snapshot);
            }
            assert forall|id: Seq<char>| #[trigger] m.dom().contains(id) implies exists|i: int|
                0 <= i < out@.len() && (#[trigger] out@[i])@.id == id by {
                assert(keys.contains(id));
                let p = choose|p: int| 0 <= p < keys.len() && keys[p] == id;
                order_lists_every_place(times@, false, order@, p as usize);
                let j = choose|j: int| 0 <= j < order@.len() && order@[j] == p as usize;
                assert(out@[j]@ == m[keys[order@[j] as int]].snapshot);
                assert(out@[j]@.id == id);
            }
            assert forall|i: int, j: int|
                #![trigger out@[i], out@[j]]
                0 <= i < j < out@.len() implies out@[i]@.id != out@[j]@.id
                && out@[i]@.created_at_ms <= out@[j]@.created_at_ms by {
                assert(comes_before(times@, false, order@[i] as int, order@[j] as int));
                assert(m.dom().contains(keys[order@[i] as int]));
                assert(m.dom().contains(keys[order@[j] as int]));
                assert(out@[i]@ == m[keys[order@[i] as int]].snapshot);
                assert(out@[j]@ == m[keys[order@[j] as int]].snapshot);
                assert(times@[order@[i] as int] == m[keys[order@[i] as int]].snapshot.created_at_ms);
                assert(times@[order@[j] as int] == m[keys[order@[j] as int]].snapshot.created_at_ms);
            }
        }
        out
    }

    /// Asks a loop to stop. False where there is none with the id.
    pub fn stop(&mut self, id: &str, now: u64) -> (r: bool)
        ensures
            r == old(self)@.dom().contains(id@),
            final(self)@ == if r {
                old(self)@.insert(id@, stopped(old(self)@[id@], now))
            } else {
                old(self)@
            },
    {
        let ghost before = self.loops@;
        match self.loops.remove(id) {
            Some(state) => {
                let mut state = state;
                state.stop = true;
                if state.snapshot.status == AgentLoopStatus::Running {
                    state.snapshot.status = AgentLoopStatus::Stopping;
                    state.snapshot.updated_at_ms = now;
                }
                self.loops.insert(id, state);
                assert(self@ =~= state_views(before).insert(id@, state@));
                true
            },
            None => {
                assert(self@ =~= state_views(before));
                false
            },
        }
    }

    /// Asks a loop that is at work to wait. False where there is none such.
    pub fn pause(&mut self, id: &str, now: u64) -> (r: bool)
        ensures
            r == (old(self)@.dom().contains(id@) && old(self)@[id@].snapshot.status
                == AgentLoopStatus::Running),
            final(self)@ == if r {
                old(self)@.insert(id@, paused(old(self)@[id@], now))
            } else {
                old(self)@
            },
    {
        let ghost before = self.loops@;
        let running = match self.loops.get(id) {
            Some(state) => state.snapshot.status == AgentLoopStatus::Running,
            None => false,
        };
        if !running {
            return false;
        }
        match self.loops.remove(id) {
            Some(state) => {
                let mut state = state;
                state.pause = true;
                state.snapshot.status = AgentLoopStatus::Paused;
                state.snapshot.updated_at_ms = now;
                self.loops.insert(id, state);
                assert(self@ =~= state_views(before).insert(id@, state@));
                true
            },
            None => false,
        }
    }

    /// Asks a loop that waits to go on. False where there is none such.
    pub fn resume(&mut self, id: &str, now: u64) -> (r: bool)
        ensures
            r == (old(self)@.dom().contains(id@) && old(self)@[id@].snapshot.status
                == AgentLoopStatus::Paused),
            final(self)@ == if r {
                old(self)@.insert(id@, resumed(old(self)@[id@], now))
            } else {
                old(self)@
            },
    {
        let ghost before = self.loops@;
        let waits = match self.loops.get(id) {
            Some(state) => state.snapshot.status == AgentLoopStatus::Paused,
            None => false,
        };
        if !waits {
            return false;
        }
        match self.loops.remove(id) {
            Some(state) => {
                let mut state = state;
                state.pause = false;
                state.snapshot.status = AgentLoopStatus::Running;
                state.snapshot.updated_at_ms = now;
                self.loops.insert(id, state);
                assert(self@ =~= state_views(before).insert(id@, state@));
                true
            },
            None => false,
        }
    }

    /// Takes a runner's report. One on a loop that is not there changes nothing.
    pub fn progress(&mut self, report: AgentLoopProgress, now: u64)
        ensures
            final(self)@ == if old(self)@.dom().contains(report@.id) {
                old(self)@.insert(
                    report@.id,
                    LoopStateView {
                        snapshot: progressed(old(self)@[report@.id].snapshot, report@, now),
                        ..old(self)@[report@.id]
                    },
                )
            } else {
                old(self)@
            },
    {
        let ghost before = self.loops@;
        let ghost p = report@;
        let id = report.id;
        match self.loops.remove(id.as_str()) {
            Some(state) => {
                let mut state = state;
                let ghost s = state.snapshot@;
                if let Some(step) = report.step {
                    let ghost steps = state.snapshot.observations@;
                    state.snapshot.steps_taken = step.step;
                    state.snapshot.observations.push(step);
                    assert(step_views(steps.push(step)) =~= step_views(steps).push(step@));
                }
                if let Some(status) = report.status {
                    let is_held = state.snapshot.status == AgentLoopStatus::Paused
                        || state.snapshot.status == AgentLoopStatus::Stopping;
                    if !(is_held && status == AgentLoopStatus::Running) {
                        state.snapshot.status = status;
                    }
                }
                if let Some(error) = report.error {
                    state.snapshot.error = Some(error);
                }
                state.snapshot.updated_at_ms = now;
                assert(state.snapshot@ == progressed(s, p, now));
                self.loops.insert(id.as_str(), state);
                assert(self@ =~= state_views(before).insert(id@, state@));
            },
            None => {
                assert(self@ =~= state_views(before));
            },
        }
    }
}

/// A loop at work that is paused and then resumed is at work as before, and its runner is not held.
pub proof fn pause_resume_round_trip(s: LoopStateView, a: u64, b: u64)
    requires
        s.snapshot.status == AgentLoopStatus::Running,
        !s.pause,
    ensures
        paused(s, a).snapshot.status == AgentLoopStatus::Paused,
        paused(s, a).pause,
        resumed(paused(s, a), b) == (LoopStateView {
            snapshot: SnapshotView { updated_at_ms: b, ..s.snapshot },
            ..s
        }),
{
}

/// The word that the runner is at work never undoes a pause or a stop; any other report of a status
/// takes effect.
pub proof fn held_loops_stay_held(s: SnapshotView, p: ProgressView, now: u64)
    ensures
        held(s.status) && p.status == Some(AgentLoopStatus::Running) ==> progressed(
            s,
            p,
            now,
        ).status == s.status,
        p.status matches Some(t) ==> t != AgentLoopStatus::Running ==> progressed(s, p, now).status
            == t,
        p.step is None ==> progressed(s, p, now).observations == s.observations,
{
}

/// Every loop that is started is within the limits on steps and rounds.
pub proof fn started_loops_are_limited(r: LoopRequestView, id: Seq<char>, now: u64)
    ensures
        1 <= new_loop(r, id, now).max_steps <= MAX_STEPS_CAP,
        new_loop(r, id, now).max_tool_rounds <= MAX_TOOL_ROUNDS_CAP,
        new_loop(r, id, now).status == AgentLoopStatus::Running,
{
}

/// Pruning takes out only loops that have ended, and leaves the others as they are.
pub proof fn pruning_spares_active_loops(
    before: LoopMap,
    keep: nat,
    ids: Seq<Seq<char>>,
    after: LoopMap,
    id: Seq<char>,
)
    requires
        is_pruned(before, keep, ids, after),
        before.dom().contains(id),
        is_active(before[id].snapshot.status),
    ensures
        after.dom().contains(id),
        after[id] == before[id],
{
    let items = choose|items: Seq<PruneItem>| #[trigger] lists(before, items) && are_pruned(
        items,
        keep,
        ids,
    );
    crate::agent_loop::pruning_spares_the_latest(items, keep, ids);
    if ids.to_set().contains(id) {
        let i = choose|i: int| 0 <= i < ids.len() && ids[i] == id;
        assert(crate::agent_loop::has_ended(items, ids[i]));
        let k = choose|k: int|
            0 <= k < items.len() && (#[trigger] items[k]).id == ids[i] && is_terminal(
                items[k].status,
            );
        assert(before[items[k].id].snapshot.status == items[k].status);
        assert(false);
    }
}

} // verus!
