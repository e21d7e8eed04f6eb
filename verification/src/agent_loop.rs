//! Agent loops: jobs that work towards a goal step by step, and the table of them.

use crate::chat::{clone_opt, clone_strings};
use crate::json::{Json, JsonView};
use crate::json_record::{name_views, parse_record, record_read};
use crate::numbers::{
    decimal, opt_str, push_decimal, setting, setting_u64, setting_usize,
};
use crate::order::{comes_before, is_order, sort_places};
use crate::text::{
    chars_of, ends_with, folds_to_word, is_word, join, join_strings, same, split, split_at_char,
    starts_with, string_range, trim, trimmed, views,
};
use crate::tool::opt_text;
use vstd::prelude::*;

verus! {

broadcast use vstd::string::group_string_axioms;

/// How many steps a loop may take where nothing is said.
pub const DEFAULT_MAX_STEPS: usize = 8;

/// How many rounds of tool calls a step may take where nothing is said.
pub const DEFAULT_MAX_TOOL_ROUNDS: usize = 5;

/// The most steps that a loop may ask for.
pub const MAX_STEPS_CAP: usize = 50;

/// The most rounds that a loop may ask for.
pub const MAX_TOOL_ROUNDS_CAP: usize = 20;

/// How many loops that have ended are kept where nothing is said.
pub const DEFAULT_MAX_KEEP: usize = 200;

/// Where a loop stands.
#[derive(Debug, Clone, Copy, PartialEq, Eq, Structural)]
pub enum AgentLoopStatus {
    Running,
    Paused,
    Completed,
    WaitingForUser,
    Stopping,
    Stopped,
    Failed,
}

/// One step of a loop.
#[derive(Debug, PartialEq)]
pub struct AgentLoopStep {
    pub step: usize,
    pub status: AgentLoopStatus,
    pub llm_message: String,
    pub reason: Option<String>,
    pub tool_calls: Vec<String>,
    pub tool_results: Vec<String>,
    pub elapsed_ms: u64,
    pub created_at_ms: u64,
}

/// The model of an [`AgentLoopStep`].
pub ghost struct LoopStepView {
    pub step: usize,
    pub status: AgentLoopStatus,
    pub llm_message: Seq<char>,
    pub reason: Option<Seq<char>>,
    pub tool_calls: Seq<Seq<char>>,
    pub tool_results: Seq<Seq<char>>,
    pub elapsed_ms: u64,
    pub created_at_ms: u64,
}

impl View for AgentLoopStep {
    type V = LoopStepView;

    open spec fn view(&self) -> LoopStepView {
        LoopStepView {
            step: self.step,
            status: self.status,
            llm_message: self.llm_message@,
            reason: opt_text(self.reason),
            tool_calls: views(self.tool_calls@),
            tool_results: views(self.tool_results@),
            elapsed_ms: self.elapsed_ms,
            created_at_ms: self.created_at_ms,
        }
    }
}

impl Clone for AgentLoopStep {
    fn clone(&self) -> (r: Self)
        ensures
            r@ == self@,
    {
        AgentLoopStep {
            step: self.step,
            status: self.status,
            llm_message: self.llm_message.clone(),
            reason: clone_opt(&self.reason),
            tool_calls: clone_strings(&self.tool_calls),
            tool_results: clone_strings(&self.tool_results),
            elapsed_ms: self.elapsed_ms,
            created_at_ms: self.created_at_ms,
        }
    }
}

/// The models of a list of steps.
pub open spec fn step_views(v: Seq<AgentLoopStep>) -> Seq<LoopStepView> {
    v.map_values(|s: AgentLoopStep| s@)
}

/// A loop as it is shown and kept.
#[derive(Debug, PartialEq)]
pub struct AgentLoopSnapshot {
    pub id: String,
    pub goal: String,
    pub peer_id: String,
    pub status: AgentLoopStatus,
    pub max_steps: usize,
    pub max_tool_rounds: usize,
    pub steps_taken: usize,
    pub observations: Vec<AgentLoopStep>,
    pub error: Option<String>,
    pub created_at_ms: u64,
    pub updated_at_ms: u64,
}

/// The model of an [`AgentLoopSnapshot`].
pub ghost struct SnapshotView {
    pub id: Seq<char>,
    pub goal: Seq<char>,
    pub peer_id: Seq<char>,
    pub status: AgentLoopStatus,
    pub max_steps: usize,
    pub max_tool_rounds: usize,
    pub steps_taken: usize,
    pub observations: Seq<LoopStepView>,
    pub error: Option<Seq<char>>,
    pub created_at_ms: u64,
    pub updated_at_ms: u64,
}

impl View for AgentLoopSnapshot {
    type V = SnapshotView;

    open spec fn view(&self) -> SnapshotView {
        SnapshotView {
            id: self.id@,
            goal: self.goal@,
            peer_id: self.peer_id@,
            status: self.status,
            max_steps: self.max_steps,
            max_tool_rounds: self.max_tool_rounds,
            steps_taken: self.steps_taken,
            observations: step_views(self.observations@),
            error: opt_text(self.error),
            created_at_ms: self.created_at_ms,
            updated_at_ms: self.updated_at_ms,
        }
    }
}

impl Clone for AgentLoopSnapshot {
    fn clone(&self) -> (r: Self)
        ensures
            r@ == self@,
    {
        let observations = self.observations.clone();
        assert(step_views(observations@) =~= step_views(self.observations@));
        AgentLoopSnapshot {
            id: self.id.clone(),
            goal: self.goal.clone(),
            peer_id: self.peer_id.clone(),
            status: self.status,
            max_steps: self.max_steps,
            max_tool_rounds: self.max_tool_rounds,
            steps_taken: self.steps_taken,
            observations,
            error: clone_opt(&self.error),
            created_at_ms: self.created_at_ms,
            updated_at_ms: self.updated_at_ms,
        }
    }
}

/// Whether a loop with this status has not ended.
pub open spec fn is_active(s: AgentLoopStatus) -> bool {
    s == AgentLoopStatus::Running || s == AgentLoopStatus::Paused || s
        == AgentLoopStatus::WaitingForUser || s == AgentLoopStatus::Stopping
}

/// Whether a loop with this status has ended.
pub open spec fn is_terminal(s: AgentLoopStatus) -> bool {
    s == AgentLoopStatus::Completed || s == AgentLoopStatus::Stopped || s
        == AgentLoopStatus::Failed
}

/// Every loop has ended or has not.
pub proof fn active_or_terminal(s: AgentLoopStatus)
    ensures
        is_active(s) != is_terminal(s),
{
}

fn active(s: AgentLoopStatus) -> (r: bool)
    ensures
        r == is_active(s),
{
    match s {
        AgentLoopStatus::Running => true,
        AgentLoopStatus::Paused => true,
        AgentLoopStatus::WaitingForUser => true,
        AgentLoopStatus::Stopping => true,
        _ => false,
    }
}

/// How many of the statuses are of loops that have not ended.
pub open spec fn active_count(statuses: Seq<AgentLoopStatus>) -> nat
    decreases statuses.len(),
{
    if statuses.len() == 0 {
        0
    } else {
        active_count(statuses.drop_last()) + if is_active(statuses.last()) {
            1nat
        } else {
            0nat
        }
    }
}

/// How many of the statuses are of loops that have not ended.
pub fn active_loop_count(statuses: &[AgentLoopStatus]) -> (r: usize)
    ensures
        r == active_count(statuses@),
{
    let mut n: usize = 0;
    let mut i: usize = 0;
    assert(statuses@.take(0) =~= Seq::empty());
    while i < statuses.len()
        invariant
            i <= statuses@.len(),
            n == active_count(statuses@.take(i as int)),
            n <= i,
        decreases statuses@.len() - i,
    {
        proof {
            let t = statuses@.take(i + 1);
            assert(t.drop_last() =~= statuses@.take(i as int));
            assert(t.last() == statuses@[i as int]);
        }
        if active(statuses[i]) {
            n = n + 1;
        }
        i = i + 1;
    }
    assert(statuses@.take(statuses@.len() as int) =~= statuses@);
    n
}

/// How many loops may be active at once; 0 is no limit.
pub fn agent_loop_max_concurrent(value: Option<&str>) -> (r: usize)
    ensures
        r == setting(opt_str(value), usize::MAX as nat, 0),
{
    setting_usize(value, 0)
}

/// How many seconds a loop may run; 0 is no limit.
pub fn agent_loop_max_duration_secs(value: Option<&str>) -> (r: u64)
    ensures
        r == setting(opt_str(value), u64::MAX as nat, 0),
{
    setting_u64(value, 0)
}

/// How many seconds a loop sleeps between two steps, at most.
pub fn agent_loop_max_sleep_secs(value: Option<&str>) -> (r: u64)
    ensures
        r == setting(opt_str(value), u64::MAX as nat, 60),
{
    setting_u64(value, 60)
}

/// How many loops that have ended are kept.
pub fn agent_loop_max_keep(value: Option<&str>) -> (r: usize)
    ensures
        r == setting(opt_str(value), usize::MAX as nat, DEFAULT_MAX_KEEP as nat),
{
    setting_usize(value, DEFAULT_MAX_KEEP)
}

/// The names of the tools that loops may not call; none where there is no setting.
pub fn agent_loop_tool_deny(value: Option<&str>) -> (r: Vec<String>)
    ensures
        views(r@) == match value {
            Some(raw) => listed_items(raw@),
            None => Seq::empty(),
        },
{
    match value {
        Some(raw) => parse_tool_deny_list(raw),
        None => {
            let none: Vec<String> = Vec::new();
            assert(views(none@) =~= Seq::empty());
            none
        },
    }
}

/// Tells whether one more loop may be started; a limit of 0 is no limit.
pub fn can_start_new_loop(active: usize, max_concurrent: usize) -> (r: bool)
    ensures
        r == (max_concurrent == 0 || active < max_concurrent),
{
    max_concurrent == 0 || active < max_concurrent
}

/// Tells whether a loop has run too long; a limit of 0 is no limit.
pub fn loop_duration_exceeded(elapsed_secs: u64, max_secs: u64) -> (r: bool)
    ensures
        r == (max_secs > 0 && elapsed_secs >= max_secs),
{
    max_secs > 0 && elapsed_secs >= max_secs
}

/// The parts of a list that are not blank, trimmed, in order.
pub open spec fn trimmed_parts(parts: Seq<Seq<char>>) -> Seq<Seq<char>>
    decreases parts.len(),
{
    if parts.len() == 0 {
        Seq::empty()
    } else {
        let rest = trimmed_parts(parts.drop_last());
        if trim(parts.last()).len() > 0 {
            rest.push(trim(parts.last()))
        } else {
            rest
        }
    }
}

/// The items of a list with commas between them.
pub open spec fn listed_items(raw: Seq<char>) -> Seq<Seq<char>> {
    trimmed_parts(split(raw, ','))
}

/// The items of a list with commas between them: trimmed, without the blank ones.
pub fn parse_list(raw: &str) -> (r: Vec<String>)
    ensures
        views(r@) == listed_items(raw@),
{
    let parts = split_at_char(raw, ',');
    let ghost all = views(parts@);
    let mut out: Vec<String> = Vec::new();
    let mut i: usize = 0;
    assert(all.take(0) =~= Seq::empty());
    assert(views(out@) =~= Seq::empty());
    while i < parts.len()
        invariant
            i <= parts@.len(),
            all == views(parts@),
            views(out@) == trimmed_parts(all.take(i as int)),
        decreases parts@.len() - i,
    {
        proof {
            let t = all.take(i + 1);
            assert(t.drop_last() =~= all.take(i as int));
            assert(t.last() == parts@[i as int]@);
        }
        let part = trimmed(parts[i].as_str());
        if !part.as_str().is_empty() {
            let ghost before = out@;
            out.push(part);
            assert(views(before.push(part)) =~= views(before).push(part@));
        }
        i = i + 1;
    }
    assert(all.take(all.len() as int) =~= all);
    out
}

/// The names of the tools that loops may not call.
pub fn parse_tool_deny_list(raw: &str) -> (r: Vec<String>)
    ensures
        views(r@) == listed_items(raw@),
{
    parse_list(raw)
}

/// Tells whether a name is in the list.
pub fn is_listed(name: &str, list: &[String]) -> (r: bool)
    ensures
        r == views(list@).contains(name@),
{
    let mut i: usize = 0;
    while i < list.len()
        invariant
            i <= list@.len(),
            forall|k: int| 0 <= k < i ==> (#[trigger] list@[k])@ != name@,
        decreases list@.len() - i,
    {
        if same(list[i].as_str(), name) {
            assert(views(list@)[i as int] == name@);
            return true;
        }
        i = i + 1;
    }
    proof {
        if views(list@).contains(name@) {
            let k = choose|k: int| 0 <= k < list@.len() && views(list@)[k] == name@;
            assert(list@[k]@ == name@);
        }
    }
    false
}

/// Tells whether loops may not call the tool: its name is in the list, letter for letter.
pub fn is_tool_denied(name: &str, deny: &[String]) -> (r: bool)
    ensures
        r == views(deny@).contains(name@),
{
    is_listed(name, deny)
}

/// The name of a status.
pub open spec fn status_name(s: AgentLoopStatus) -> Seq<char> {
    match s {
        AgentLoopStatus::Running => "running"@,
        AgentLoopStatus::Paused => "paused"@,
        AgentLoopStatus::Completed => "completed"@,
        AgentLoopStatus::WaitingForUser => "waiting_for_user"@,
        AgentLoopStatus::Stopping => "stopping"@,
        AgentLoopStatus::Stopped => "stopped"@,
        AgentLoopStatus::Failed => "failed"@,
    }
}

/// The name of a status.
pub fn loop_status_str(s: &AgentLoopStatus) -> (r: &'static str)
    ensures
        r@ == status_name(*s),
{
    match s {
        AgentLoopStatus::Running => "running",
        AgentLoopStatus::Paused => "paused",
        AgentLoopStatus::Completed => "completed",
        AgentLoopStatus::WaitingForUser => "waiting_for_user",
        AgentLoopStatus::Stopping => "stopping",
        AgentLoopStatus::Stopped => "stopped",
        AgentLoopStatus::Failed => "failed",
    }
}

/// No two statuses have the same name.
pub proof fn status_names_differ(a: AgentLoopStatus, b: AgentLoopStatus)
    requires
        a != b,
    ensures
        status_name(a) != status_name(b),
{
    reveal_strlit("running");
    reveal_strlit("paused");
    reveal_strlit("completed");
    reveal_strlit("waiting_for_user");
    reveal_strlit("stopping");
    reveal_strlit("stopped");
    reveal_strlit("failed");
    assert("running"@[0] == 'r');
    assert("paused"@[0] == 'p');
    assert("completed"@[0] == 'c');
    assert("waiting_for_user"@[0] == 'w');
    assert("stopping"@[0] == 's');
    assert("stopped"@[0] == 's');
    assert("failed"@[0] == 'f');
    assert("stopping"@.len() != "stopped"@.len());
}

/// The status that the model's word for it means: done, waiting, failed, stopped or, for any other
/// word, going on.
pub open spec fn decided_status(word: Seq<char>) -> AgentLoopStatus {
    let w = trim(word);
    if folds_to_word(w, "done"@) || folds_to_word(w, "completed"@) || folds_to_word(
        w,
        "complete"@,
    ) {
        AgentLoopStatus::Completed
    } else if folds_to_word(w, "ask_user"@) || folds_to_word(w, "waiting_for_user"@)
        || folds_to_word(w, "need_user"@) {
        AgentLoopStatus::WaitingForUser
    } else if folds_to_word(w, "failed"@) || folds_to_word(w, "error"@) {
        AgentLoopStatus::Failed
    } else if folds_to_word(w, "stopped"@) {
        AgentLoopStatus::Stopped
    } else {
        AgentLoopStatus::Running
    }
}

/// The status that the model's word for it means.
pub fn status_from_decision(status: &str) -> (r: AgentLoopStatus)
    ensures
        r == decided_status(status@),
{
    let word = trimmed(status);
    let w = word.as_str();
    if is_word(w, "done") || is_word(w, "completed") || is_word(w, "complete") {
        AgentLoopStatus::Completed
    } else if is_word(w, "ask_user") || is_word(w, "waiting_for_user") || is_word(
        w,
        "need_user",
    ) {
        AgentLoopStatus::WaitingForUser
    } else if is_word(w, "failed") || is_word(w, "error") {
        AgentLoopStatus::Failed
    } else if is_word(w, "stopped") {
        AgentLoopStatus::Stopped
    } else {
        AgentLoopStatus::Running
    }
}

/// `s` without the fences at its end.
pub open spec fn without_fences(s: Seq<char>) -> Seq<char>
    decreases s.len(),
{
    let fence = "```"@;
    if fence.len() == 3 && fence.is_suffix_of(s) {
        without_fences(s.take(s.len() - 3))
    } else {
        s
    }
}

/// `s` without the marks of a code block around it.
pub open spec fn unfenced(s: Seq<char>) -> Seq<char> {
    let t = trim(s);
    if "```json"@.is_prefix_of(t) {
        trim(without_fences(trim(t.skip(7))))
    } else if "```"@.is_prefix_of(t) {
        trim(without_fences(trim(t.skip(3))))
    } else {
        t
    }
}

fn cut_fences(s: String) -> (r: String)
    ensures
        r@ == without_fences(s@),
    decreases s@.len(),
{
    proof {
        reveal_strlit("```");
    }
    if ends_with(s.as_str(), "```") {
        let chars = chars_of(s.as_str());
        let shorter = string_range(&chars, 0, chars.len() - 3);
        assert(shorter@ =~= s@.take(s@.len() - 3));
        cut_fences(shorter)
    } else {
        s
    }
}

fn cut_front(s: &str, n: usize) -> (r: String)
    requires
        n <= s@.len(),
    ensures
        r@ == s@.skip(n as int),
{
    let chars = chars_of(s);
    let r = string_range(&chars, n, chars.len());
    assert(r@ =~= s@.skip(n as int));
    r
}

/// `input` without the marks of a code block around it.
pub fn strip_json_fence(input: &str) -> (r: String)
    ensures
        r@ == unfenced(input@),
{
    let t = trimmed(input);
    proof {
        reveal_strlit("```json");
        reveal_strlit("```");
    }
    if starts_with(t.as_str(), "```json") {
        let rest = trimmed(cut_front(t.as_str(), 7).as_str());
        return trimmed(cut_fences(rest).as_str());
    }
    if starts_with(t.as_str(), "```") {
        let rest = trimmed(cut_front(t.as_str(), 3).as_str());
        return trimmed(cut_fences(rest).as_str());
    }
    t
}

/// What the model has decided at the end of a step.
#[derive(Debug, PartialEq)]
pub struct LoopDecision {
    pub status: Option<String>,
    pub message: Option<String>,
    pub reason: Option<String>,
    pub sleep_seconds: Option<u64>,
}

/// The model of a [`LoopDecision`].
pub ghost struct DecisionView {
    pub status: Option<Seq<char>>,
    pub message: Option<Seq<char>>,
    pub reason: Option<Seq<char>>,
    pub sleep_seconds: Option<u64>,
}

impl View for LoopDecision {
    type V = DecisionView;

    open spec fn view(&self) -> DecisionView {
        DecisionView {
            status: opt_text(self.status),
            message: opt_text(self.message),
            reason: opt_text(self.reason),
            sleep_seconds: self.sleep_seconds,
        }
    }
}

/// Whether a value may stand for an optional text.
pub open spec fn text_or_null(v: JsonView) -> bool {
    v is Str || v is Null
}

/// The decision that four values make: three optional texts and an optional number.
pub open spec fn decision_of_parts(
    status: JsonView,
    message: JsonView,
    reason: JsonView,
    sleep: JsonView,
) -> Option<DecisionView> {
    if text_or_null(status) && text_or_null(message) && text_or_null(reason) && (sleep is Null
        || sleep is PosInt) {
        Some(
            DecisionView {
                status: status.as_str(),
                message: message.as_str(),
                reason: reason.as_str(),
                sleep_seconds: sleep.as_u64(),
            },
        )
    } else {
        None
    }
}

/// The names of the four members of a decision.
pub open spec fn decision_names() -> Seq<Seq<char>> {
    seq!["status"@, "message"@, "reason"@, "sleep_seconds"@]
}

/// Whether a key stands more than once among the entries.
pub open spec fn repeated(entries: Seq<(Seq<char>, JsonView)>, key: Seq<char>) -> bool {
    exists|i: int, j: int|
        0 <= i < j < entries.len() && (#[trigger] entries[i]).0 == key && (#[trigger] entries[j]).0
            == key
}

/// The decision that a value makes: an object with the four members, none of them twice, those that
/// are missing being none, or a list of the four.
pub open spec fn decision_of(v: JsonView) -> Option<DecisionView> {
    match v {
        JsonView::Obj(entries) => if repeated(entries, "status"@) || repeated(entries, "message"@)
            || repeated(entries, "reason"@) || repeated(entries, "sleep_seconds"@) {
            None
        } else {
            decision_of_parts(
                v.at("status"@),
                v.at("message"@),
                v.at("reason"@),
                v.at("sleep_seconds"@),
            )
        },
        JsonView::Arr(items) => if items.len() == 4 {
            decision_of_parts(items[0], items[1], items[2], items[3])
        } else {
            None
        },
        _ => None,
    }
}

/// The decision of an answer, given what its text reads as: the one it makes, else the whole text
/// as a message.
pub open spec fn decision_given(content: Seq<char>, parsed: Option<JsonView>) -> DecisionView {
    let plain = DecisionView {
        status: None,
        message: Some(trim(content)),
        reason: None,
        sleep_seconds: None,
    };
    match parsed {
        Some(v) => match decision_of(v) {
            Some(d) => d,
            None => plain,
        },
        None => plain,
    }
}

/// The decision of an answer, whose text is read for the four members; whatever else stands in it is
/// skipped.
pub open spec fn decision(content: Seq<char>) -> DecisionView {
    decision_given(content, record_read(unfenced(trim(content)), decision_names()))
}

fn is_repeated(entries: &Vec<(String, Json)>, key: &str) -> (r: bool)
    ensures
        r == repeated(Json::Obj(*entries)@->Obj_0, key@),
{
    let ghost all = Json::Obj(*entries)@->Obj_0;
    let mut found = false;
    let ghost mut place: int = 0;
    let mut i: usize = 0;
    while i < entries.len()
        invariant
            i <= entries@.len(),
            all == Json::Obj(*entries)@->Obj_0,
            found ==> 0 <= place < i && all[place].0 == key@ && forall|k: int|
                0 <= k < i && k != place ==> (#[trigger] all[k]).0 != key@,
            !found ==> forall|k: int| 0 <= k < i ==> (#[trigger] all[k]).0 != key@,
        decreases entries@.len() - i,
    {
        assert(all[i as int].0 == entries@[i as int].0@);
        if same(entries[i].0.as_str(), key) {
            if found {
                assert(all[place].0 == key@ && all[i as int].0 == key@);
                return true;
            }
            found = true;
            proof {
                place = i as int;
            }
        }
        i = i + 1;
    }
    false
}

fn null_or_text(o: Option<&Json>) -> (r: Option<Option<String>>)
    ensures
        r is Some == text_or_null(crate::llm_stream::opt_view(o)),
        r matches Some(t) ==> opt_text(t) == crate::llm_stream::opt_view(o).as_str(),
{
    match o {
        None => Some(None),
        Some(Json::Null) => Some(None),
        Some(Json::Str(s)) => Some(Some(s.clone())),
        Some(_) => None,
    }
}

fn null_or_number(o: Option<&Json>) -> (r: Option<Option<u64>>)
    ensures
        r is Some == ({
            let v = crate::llm_stream::opt_view(o);
            v is Null || v is PosInt
        }),
        r matches Some(n) ==> n == crate::llm_stream::opt_view(o).as_u64(),
{
    match o {
        None => Some(None),
        Some(Json::Null) => Some(None),
        Some(Json::PosInt(n)) => Some(Some(*n)),
        Some(_) => None,
    }
}

fn decision_from_parts(
    status: Option<&Json>,
    message: Option<&Json>,
    reason: Option<&Json>,
    sleep: Option<&Json>,
) -> (r: Option<LoopDecision>)
    ensures
        ({
            let expected = decision_of_parts(
                crate::llm_stream::opt_view(status),
                crate::llm_stream::opt_view(message),
                crate::llm_stream::opt_view(reason),
                crate::llm_stream::opt_view(sleep),
            );
            match r {
                Some(d) => expected == Some(d@),
                None => expected is None,
            }
        }),
{
    match (
        null_or_text(status),
        null_or_text(message),
        null_or_text(reason),
        null_or_number(sleep),
    ) {
        (Some(status), Some(message), Some(reason), Some(sleep_seconds)) => Some(
            LoopDecision { status, message, reason, sleep_seconds },
        ),
        _ => None,
    }
}

/// The decision of an answer, given what its text reads as.
pub fn decision_from(content: &str, parsed: &Option<Json>) -> (r: LoopDecision)
    ensures
        r@ == decision_given(content@, crate::tool::opt_json(*parsed)),
{
    match parsed {
        Some(v) => {
            let found = match v {
                Json::Obj(entries) => {
                    if is_repeated(entries, "status") || is_repeated(entries, "message")
                        || is_repeated(entries, "reason") || is_repeated(entries, "sleep_seconds") {
                        None
                    } else {
                        decision_from_parts(
                            v.get("status"),
                            v.get("message"),
                            v.get("reason"),
                            v.get("sleep_seconds"),
                        )
                    }
                },
                Json::Arr(items) => {
                    if items.len() == 4 {
                        decision_from_parts(
                            Some(&items[0]),
                            Some(&items[1]),
                            Some(&items[2]),
                            Some(&items[3]),
                        )
                    } else {
                        None
                    }
                },
                _ => None,
            };
            match found {
                Some(d) => return d,
                None => {},
            }
        },
        None => {},
    }
    LoopDecision {
        status: None,
        message: Some(trimmed(content)),
        reason: None,
        sleep_seconds: None,
    }
}

/// The decision of an answer.
pub fn parse_loop_decision(content: &str) -> (r: LoopDecision)
    ensures
        r@ == decision(content@),
{
    let t = trimmed(content);
    let cleaned = strip_json_fence(t.as_str());
    let names: Vec<&str> = vec!["status", "message", "reason", "sleep_seconds"];
    assert(name_views(names@) =~= decision_names());
    let parsed = parse_record(cleaned.as_str(), &names);
    decision_from(content, &parsed)
}

/// What the model is told at the beginning of a step.
pub open spec fn loop_prompt(
    goal: Seq<char>,
    observations: Seq<Seq<char>>,
    step: nat,
    max_steps: nat,
) -> Seq<char> {
    let seen = if observations.len() == 0 {
        "（暂无）"@
    } else {
        join(observations, "\n\n"@)
    };
    "[系统·Agent Loop]\n目标："@ + goal + "\n当前步数："@ + decimal(step) + "/"@ + decimal(max_steps)
        + "\n已有观察：\n"@ + seen
        + "\n\n请执行一次 observe -> decide -> act。你可以调用可用工具完成下一步行动。\n如果需要行动，请直接调用工具。工具执行结果会作为 observation 进入下一轮。\n如果不需要工具，请严格输出 JSON，不要包裹 Markdown：\n{\"status\":\"continue|done|ask_user\",\"message\":\"你对本步的简短观察或最终结论\",\"reason\":\"为什么这样判断\",\"sleep_seconds\":0}\n状态含义：continue=还要继续；done=目标完成；ask_user=需要用户补充信息。"@
}

/// What the model is told at the beginning of a step.
pub fn build_loop_prompt(
    goal: &str,
    observations: &Vec<String>,
    step_index: usize,
    max_steps: usize,
) -> (r: String)
    ensures
        r@ == loop_prompt(goal@, views(observations@), step_index as nat, max_steps as nat),
{
    let mut out = "[系统·Agent Loop]\n目标：".to_owned();
    out.append(goal);
    out.append("\n当前步数：");
    push_decimal(&mut out, step_index as u64);
    out.append("/");
    push_decimal(&mut out, max_steps as u64);
    out.append("\n已有观察：\n");
    if observations.len() == 0 {
        out.append("（暂无）");
    } else {
        out.append(join_strings(observations, "\n\n").as_str());
    }
    out.append(
        "\n\n请执行一次 observe -> decide -> act。你可以调用可用工具完成下一步行动。\n如果需要行动，请直接调用工具。工具执行结果会作为 observation 进入下一轮。\n如果不需要工具，请严格输出 JSON，不要包裹 Markdown：\n{\"status\":\"continue|done|ask_user\",\"message\":\"你对本步的简短观察或最终结论\",\"reason\":\"为什么这样判断\",\"sleep_seconds\":0}\n状态含义：continue=还要继续；done=目标完成；ask_user=需要用户补充信息。",
    );
    out
}

/// The name that a status has in an observation.
pub open spec fn status_label(s: AgentLoopStatus) -> Seq<char> {
    match s {
        AgentLoopStatus::Running => "Running"@,
        AgentLoopStatus::Paused => "Paused"@,
        AgentLoopStatus::Completed => "Completed"@,
        AgentLoopStatus::WaitingForUser => "WaitingForUser"@,
        AgentLoopStatus::Stopping => "Stopping"@,
        AgentLoopStatus::Stopped => "Stopped"@,
        AgentLoopStatus::Failed => "Failed"@,
    }
}

/// What later steps are told of a step.
pub open spec fn observation(s: LoopStepView) -> Seq<char> {
    let tools = if s.tool_calls.len() == 0 {
        "无"@
    } else {
        join(s.tool_calls, ", "@)
    };
    "Step "@ + decimal(s.step as nat) + " ["@ + status_label(s.status) + "]\n消息："@ + s.llm_message
        + "\n工具："@ + tools + "\n结果："@ + join(s.tool_results, "\n"@)
}

/// What later steps are told of a step.
pub fn format_observation(step: &AgentLoopStep) -> (r: String)
    ensures
        r@ == observation(step@),
{
    let label = match step.status {
        AgentLoopStatus::Running => "Running",
        AgentLoopStatus::Paused => "Paused",
        AgentLoopStatus::Completed => "Completed",
        AgentLoopStatus::WaitingForUser => "WaitingForUser",
        AgentLoopStatus::Stopping => "Stopping",
        AgentLoopStatus::Stopped => "Stopped",
        AgentLoopStatus::Failed => "Failed",
    };
    let mut out = "Step ".to_owned();
    push_decimal(&mut out, step.step as u64);
    out.append(" [");
    out.append(label);
    out.append("]\n消息：");
    out.append(step.llm_message.as_str());
    out.append("\n工具：");
    if step.tool_calls.len() == 0 {
        out.append("无");
    } else {
        out.append(join_strings(&step.tool_calls, ", ").as_str());
    }
    out.append("\n结果：");
    out.append(join_strings(&step.tool_results, "\n").as_str());
    out
}

/// A loop that was restored: one whose runner was lost with the process has failed.
pub open spec fn reconciled(s: SnapshotView) -> SnapshotView {
    if s.status == AgentLoopStatus::Running || s.status == AgentLoopStatus::Stopping || s.status
        == AgentLoopStatus::Paused {
        SnapshotView {
            status: AgentLoopStatus::Failed,
            error: match s.error {
                Some(e) => Some(e),
                None => Some("interrupted by process restart"@),
            },
            ..s
        }
    } else {
        s
    }
}

/// Marks a restored loop whose runner was lost with the process as failed. Tells whether it did.
pub fn reconcile_restored_status(snap: &mut AgentLoopSnapshot) -> (r: bool)
    ensures
        final(snap)@ == reconciled(old(snap)@),
        r == (old(snap)@.status == AgentLoopStatus::Running || old(snap)@.status
            == AgentLoopStatus::Stopping || old(snap)@.status == AgentLoopStatus::Paused),
{
    let lost = match snap.status {
        AgentLoopStatus::Running => true,
        AgentLoopStatus::Stopping => true,
        AgentLoopStatus::Paused => true,
        _ => false,
    };
    if lost {
        snap.status = AgentLoopStatus::Failed;
        if snap.error.is_none() {
            snap.error = Some("interrupted by process restart".to_owned());
        }
    }
    lost
}

/// After a restart no loop claims to be at work.
pub proof fn restored_loops_do_not_run(s: SnapshotView)
    ensures
        reconciled(s).status == AgentLoopStatus::WaitingForUser || is_terminal(
            reconciled(s).status,
        ),
        reconciled(reconciled(s)) == reconciled(s),
{
}

/// The model of what a loop is pruned by.
pub ghost struct PruneItem {
    pub id: Seq<char>,
    pub status: AgentLoopStatus,
    pub updated_at_ms: u64,
}

/// The models of a list of such items.
pub open spec fn prune_views(items: Seq<(String, AgentLoopStatus, u64)>) -> Seq<PruneItem> {
    items.map_values(
        |t: (String, AgentLoopStatus, u64)|
            PruneItem { id: t.0@, status: t.1, updated_at_ms: t.2 },
    )
}

/// The items of loops that have ended, in order.
pub open spec fn ended(items: Seq<PruneItem>) -> Seq<PruneItem>
    decreases items.len(),
{
    if items.len() == 0 {
        Seq::empty()
    } else if is_terminal(items.last().status) {
        ended(items.drop_last()).push(items.last())
    } else {
        ended(items.drop_last())
    }
}

/// When the loops of the items were last changed.
pub open spec fn update_times(items: Seq<PruneItem>) -> Seq<u64> {
    items.map_values(|t: PruneItem| t.updated_at_ms)
}

/// Whether `ids` are the loops to remove: of those that have ended, sorted with the latest change
/// first, all behind the first `keep`.
pub open spec fn are_pruned(items: Seq<PruneItem>, keep: nat, ids: Seq<Seq<char>>) -> bool {
    let over = ended(items);
    if over.len() <= keep {
        ids.len() == 0
    } else {
        exists|order: Seq<usize>| #[trigger]
            is_order(update_times(over), true, order) && ids == Seq::new(
                (over.len() - keep) as nat,
                |i: int| over[order[keep + i] as int].id,
            )
    }
}

/// The loops to remove so that `keep` of those that have ended remain.
pub fn terminal_ids_to_prune(items: &[(String, AgentLoopStatus, u64)], keep: usize) -> (r: Vec<
    String,
>)
    ensures
        are_pruned(prune_views(items@), keep as nat, views(r@)),
{
    let ghost all = prune_views(items@);
    let mut places: Vec<usize> = Vec::new();
    let mut keys: Vec<u64> = Vec::new();
    let mut i: usize = 0;
    assert(all.take(0) =~= Seq::empty());
    while i < items.len()
        invariant
            i <= items@.len(),
            all == prune_views(items@),
            places@.len() == ended(all.take(i as int)).len(),
            keys@ == update_times(ended(all.take(i as int))),
            forall|k: int|
                0 <= k < places@.len() ==> (#[trigger] places@[k]) < items@.len()
                    && all[places@[k] as int] == ended(all.take(i as int))[k],
        decreases items@.len() - i,
    {
        let ghost done = ended(all.take(i as int));
        proof {
            let t = all.take(i + 1);
            assert(t.drop_last() =~= all.take(i as int));
            assert(t.last() == all[i as int]);
        }
        let over = match items[i].1 {
            AgentLoopStatus::Completed => true,
            AgentLoopStatus::Stopped => true,
            AgentLoopStatus::Failed => true,
            _ => false,
        };
        if over {
            places.push(i);
            keys.push(items[i].2);
            assert(keys@ =~= update_times(done.push(all[i as int])));
        }
        i = i + 1;
    }
    assert(all.take(all.len() as int) =~= all);
    let ghost over = ended(all);
    let mut out: Vec<String> = Vec::new();
    if places.len() <= keep {
        return out;
    }
    let order = sort_places(&keys, true);
    let mut k: usize = keep;
    while k < order.len()
        invariant
            keep <= k <= order@.len(),
            all == prune_views(items@),
            over == ended(all),
            is_order(update_times(over), true, order@),
            places@.len() == over.len(),
            forall|k: int|
                0 <= k < places@.len() ==> (#[trigger] places@[k]) < items@.len()
                    && all[places@[k] as int] == over[k],
            views(out@) == Seq::new(
                (k - keep) as nat,
                |i: int| over[order@[keep + i] as int].id,
            ),
        decreases order@.len() - k,
    {
        let place = places[order[k]];
        let id = items[place].0.clone();
        let ghost before = out@;
        out.push(id);
        assert(all[place as int] == over[order@[k as int] as int]);
        assert(id@ == over[order@[keep + (k - keep)] as int].id);
        assert(views(out@) =~= views(before).push(id@));
        k = k + 1;
        assert(views(out@) =~= Seq::new(
            (k - keep) as nat,
            |i: int| over[order@[keep + i] as int].id,
        ));
    }
    out
}

proof fn lemma_ended(items: Seq<PruneItem>)
    ensures
        forall|k: int|
            0 <= k < ended(items).len() ==> is_terminal((#[trigger] ended(items)[k]).status)
                && items.contains(ended(items)[k]),
    decreases items.len(),
{
    if items.len() > 0 {
        let rest = items.drop_last();
        lemma_ended(rest);
        assert forall|k: int| 0 <= k < ended(items).len() implies is_terminal(
            (#[trigger] ended(items)[k]).status,
        ) && items.contains(ended(items)[k]) by {
            if k < ended(rest).len() {
                assert(ended(items)[k] == ended(rest)[k]);
                let j = choose|j: int| 0 <= j < rest.len() && rest[j] == ended(rest)[k];
                assert(items[j] == ended(items)[k]);
            } else {
                assert(items[items.len() - 1] == ended(items)[k]);
            }
        }
    }
}

/// Whether the id is that of an item whose loop has ended.
pub open spec fn has_ended(items: Seq<PruneItem>, id: Seq<char>) -> bool {
    exists|k: int| 0 <= k < items.len() && (#[trigger] items[k]).id == id && is_terminal(
        items[k].status,
    )
}

/// Only loops that have ended are removed, as many as are over the limit, and none that was changed
/// later than one that is kept.
pub proof fn pruning_spares_the_latest(items: Seq<PruneItem>, keep: nat, ids: Seq<Seq<char>>)
    requires
        are_pruned(items, keep, ids),
    ensures
        ids.len() == if ended(items).len() <= keep {
            0
        } else {
            ended(items).len() - keep
        },
        forall|i: int| 0 <= i < ids.len() ==> has_ended(items, #[trigger] ids[i]),
        ended(items).len() > keep ==> exists|order: Seq<usize>| #[trigger]
            is_order(update_times(ended(items)), true, order) && (forall|i: int|
                0 <= i < ids.len() ==> #[trigger] ids[i] == ended(
                    items,
                )[order[keep + i] as int].id) && (forall|a: int, b: int|
                0 <= a < keep && keep <= b < ended(items).len() ==> ended(
                    items,
                )[#[trigger] order[a] as int].updated_at_ms >= ended(
                    items,
                )[#[trigger] order[b] as int].updated_at_ms),
{
    let over = ended(items);
    lemma_ended(items);
    if over.len() > keep {
        let order = choose|order: Seq<usize>| #[trigger]
            is_order(update_times(over), true, order) && ids == Seq::new(
                (over.len() - keep) as nat,
                |i: int| over[order[keep + i] as int].id,
            );
        assert forall|i: int| 0 <= i < ids.len() implies has_ended(items, #[trigger] ids[i]) by {
            assert(order[keep + i] < over.len());
            let t = over[order[keep + i] as int];
            let k = choose|k: int| 0 <= k < items.len() && items[k] == t;
            assert(items[k].id == ids[i]);
        }
        assert forall|a: int, b: int|
            0 <= a < keep && keep <= b < over.len() implies over[#[trigger] order[a] as int].updated_at_ms
            >= over[#[trigger] order[b] as int].updated_at_ms by {
            assert(comes_before(update_times(over), true, order[a] as int, order[b] as int));
        }
        assert(is_order(update_times(over), true, order));
    }
}

} // verus!
