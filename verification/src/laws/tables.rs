//! The loops that there are, and what is done to them from outside.

use crate::agent_loop::{
    active_count, is_active, is_terminal, reconciled, AgentLoopStatus, SnapshotView,
};
use crate::event::EventView;
use crate::json::JsonView;
use crate::laws::parts::holds;
use crate::loop_table::{
    active_in, event_request, new_loop, paused, progressed, resumed, start_refusal, stopped,
    with_new_loop, LoopMap, LoopRequestView, LoopStateView, ProgressView,
};
use crate::numbers::decimal;
use crate::text::{blank, lemma_trim_blank, trim};
use vstd::prelude::*;

verus! {

broadcast use {vstd::string::group_string_axioms, crate::json::member_after_with};

/// A loop is started for the goal it is given and for the peer that asks for it, with as many steps
/// and rounds as it asks for within what is allowed.
pub proof fn loop_is_started_as_asked(r: LoopRequestView, id: Seq<char>, now: u64)
    ensures
        ({
            let s = new_loop(r, id, now);
            &&& s.id == id
            &&& s.goal == trim(r.goal)
            &&& r.peer_id matches Some(p) ==> s.peer_id == p
            &&& s.status == AgentLoopStatus::Running
            &&& r.max_steps matches Some(n) ==> (1 <= n <= 50 ==> s.max_steps == n) && (n > 50
                ==> s.max_steps == 50) && (n == 0 ==> s.max_steps == 1)
            &&& r.max_steps is None ==> s.max_steps == 8
            &&& r.max_tool_rounds matches Some(n) ==> (n <= 20 ==> s.max_tool_rounds == n) && (n
                > 20 ==> s.max_tool_rounds == 20)
            &&& r.max_tool_rounds is None ==> s.max_tool_rounds == 5
            &&& s.steps_taken == 0
            &&& s.observations.len() == 0
            &&& s.error is None
            &&& s.created_at_ms == now
            &&& s.updated_at_ms == now
        }),
{
}

/// A loop is refused where it has no goal or as many are at work as may be, and only then; who is
/// refused for the latter is told how many are and how many may be.
pub proof fn start_is_refused_for_cause(m: LoopMap, r: LoopRequestView, most: usize)
    ensures
        start_refusal(m, r, most) is Some <==> blank(r.goal) || (most > 0 && active_in(m) >= most),
        !blank(r.goal) ==> (start_refusal(m, r, most) matches Some(e) ==> holds(
            e,
            decimal(active_in(m)) + "/"@ + decimal(most as nat),
        )),
{
    lemma_trim_blank(r.goal);
    let n = decimal(active_in(m)) + "/"@ + decimal(most as nat);
    crate::laws::parts::lemma_holds("max concurrent agent loops reached ("@, n, ")"@);
    assert("max concurrent agent loops reached ("@ + n + ")"@
        =~= "max concurrent agent loops reached ("@ + decimal(active_in(m)) + "/"@ + decimal(
        most as nat,
    ) + ")"@);
}

/// A loop that is started is one more at work, and changes no other.
pub proof fn started_loop_is_at_work(
    m: LoopMap,
    r: LoopRequestView,
    id: Seq<char>,
    now: u64,
    other: Seq<char>,
)
    requires
        !m.dom().contains(id),
        m.dom().finite(),
    ensures
        ({
            let after = with_new_loop(m, r, id, now);
            &&& active_in(after) == active_in(m) + 1
            &&& after.dom().contains(id)
            &&& after[id].snapshot == new_loop(r, id, now)
            &&& !after[id].stop
            &&& !after[id].pause
            &&& other != id ==> after.dom().contains(other) == m.dom().contains(other)
            &&& other != id && m.dom().contains(other) ==> after[other] == m[other]
        }),
{
    let after = with_new_loop(m, r, id, now);
    let p = |k: Seq<char>| is_active(m[k].snapshot.status);
    let q = |k: Seq<char>| is_active(after[k].snapshot.status);
    assert(after.dom().filter(q) =~= m.dom().filter(p).insert(id));
    assert(m.dom().filter(p).subset_of(m.dom()));
    vstd::set_lib::lemma_len_subset(m.dom().filter(p), m.dom());
}

/// A loop that has not ended is one that runs, waits or is about to stop.
pub proof fn loops_at_work(s: AgentLoopStatus)
    ensures
        is_active(s) <==> s != AgentLoopStatus::Completed && s != AgentLoopStatus::Stopped && s
            != AgentLoopStatus::Failed,
{
}

/// A step that is reported is the last that is shown of the loop, behind the others, and its number
/// is how many were taken; a report without a step adds none.
pub proof fn reported_step_is_shown(s: SnapshotView, p: ProgressView, now: u64)
    ensures
        ({
            let t = progressed(s, p, now);
            &&& p.step matches Some(step) ==> t.observations.len() == s.observations.len() + 1
                && t.observations.last() == step && t.observations.drop_last() == s.observations
                && t.steps_taken == step.step
            &&& p.step is None ==> t.observations == s.observations && t.steps_taken
                == s.steps_taken
            &&& p.error matches Some(e) ==> t.error == Some(e)
            &&& p.error is None ==> t.error == s.error
            &&& p.status is None ==> t.status == s.status
            &&& p.status matches Some(status) ==> (t.status == status || (status
                == AgentLoopStatus::Running && t.status == s.status && (s.status
                == AgentLoopStatus::Paused || s.status == AgentLoopStatus::Stopping)))
            &&& t.updated_at_ms == now
            &&& t.id == s.id
            &&& t.goal == s.goal
            &&& t.peer_id == s.peer_id
            &&& t.max_steps == s.max_steps
            &&& t.max_tool_rounds == s.max_tool_rounds
            &&& t.created_at_ms == s.created_at_ms
        }),
{
    if let Some(step) = p.step {
        assert(s.observations.push(step).drop_last() =~= s.observations);
    }
}

/// Asked to stop, a loop's runner is told so; a loop that runs is about to stop, and no other
/// changes where it stands. Nothing that was shown of it is lost.
pub proof fn stop_reaches_the_runner(s: LoopStateView, now: u64)
    ensures
        ({
            let t = stopped(s, now);
            &&& t.stop
            &&& t.pause == s.pause
            &&& s.snapshot.status == AgentLoopStatus::Running ==> t.snapshot.status
                == AgentLoopStatus::Stopping && t.snapshot.updated_at_ms == now
            &&& s.snapshot.status != AgentLoopStatus::Running ==> t.snapshot == s.snapshot
            &&& same_work(t.snapshot, s.snapshot)
        }),
        ({
            let t = paused(s, now);
            &&& t.pause
            &&& t.stop == s.stop
            &&& t.snapshot.status == AgentLoopStatus::Paused
            &&& t.snapshot.updated_at_ms == now
            &&& same_work(t.snapshot, s.snapshot)
        }),
        ({
            let t = resumed(s, now);
            &&& !t.pause
            &&& t.stop == s.stop
            &&& t.snapshot.status == AgentLoopStatus::Running
            &&& t.snapshot.updated_at_ms == now
            &&& same_work(t.snapshot, s.snapshot)
        }),
{
}

/// Whether two states of a loop show the same work.
pub open spec fn same_work(t: SnapshotView, s: SnapshotView) -> bool {
    &&& t.id == s.id
    &&& t.goal == s.goal
    &&& t.peer_id == s.peer_id
    &&& t.max_steps == s.max_steps
    &&& t.max_tool_rounds == s.max_tool_rounds
    &&& t.steps_taken == s.steps_taken
    &&& t.observations == s.observations
    &&& t.created_at_ms == s.created_at_ms
}

/// A loop that is restored shows the same work as before; only one that was at work has failed, with
/// the reason it had or with a new one.
pub proof fn restored_loop_keeps_its_work(s: SnapshotView)
    ensures
        ({
            let t = reconciled(s);
            let lost = s.status == AgentLoopStatus::Running || s.status == AgentLoopStatus::Stopping
                || s.status == AgentLoopStatus::Paused;
            &&& same_work(t, s)
            &&& lost ==> t.status == AgentLoopStatus::Failed && t.error is Some && (s.error is Some
                ==> t.error == s.error)
            &&& !lost ==> t == s
        }),
{
}

/// An event asks for a loop where it says so and names a goal, with what it says of it.
pub proof fn event_asks_for_a_loop(e: EventView, goal: Seq<char>)
    ensures
        e.topic == "agent.loop.start"@ && e.data.str_at("goal"@) == Some(goal) && !blank(goal) ==> (
        event_request(e) matches Some(r) && r.goal == goal && r.peer_id == e.data.str_at(
            "peer_id"@,
        ) && (forall|n: usize|
            e.data.at("max_steps"@) == JsonView::PosInt(n as u64) && n as u64 == n
                ==> #[trigger] asks_for(r.max_steps, n)) && (forall|n: usize|
            e.data.at("max_tool_rounds"@) == JsonView::PosInt(n as u64) && n as u64 == n
                ==> #[trigger] asks_for(r.max_tool_rounds, n))),
        e.topic != "agent.loop.start"@ ==> event_request(e) is None,
        e.data.str_at("goal"@) == Some(goal) && blank(goal) ==> event_request(e) is None,
{
    lemma_trim_blank(goal);
}

/// Whether a number is the one asked for.
pub open spec fn asks_for(o: Option<usize>, n: usize) -> bool {
    o == Some(n)
}

/// The loops that count are those that have not ended.
pub proof fn active_loops_are_counted(statuses: Seq<AgentLoopStatus>)
    ensures
        active_count(statuses) == statuses.filter(|s: AgentLoopStatus| !is_terminal(s)).len(),
    decreases statuses.len(),
{
    reveal(Seq::filter);
    if statuses.len() > 0 {
        active_loops_are_counted(statuses.drop_last());
    }
}

} // verus!
