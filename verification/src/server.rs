//! The HTTP side: who is let in, what is asked of the agent, and what is answered.

use crate::chat::{ChatRequest, ChatRequestView};
use crate::json::{Json, JsonView};
use crate::peer::{split_once, split_once_at};
use crate::text::{chars_of, folds_to_word, is_word, same, starts_with, string_range, trim, trimmed, views};
use crate::tool::{opt_text, ToolResult, ToolResultView};
use crate::usage::{BudgetCheck, BudgetCheckView};
use vstd::prelude::*;

verus! {

broadcast use vstd::string::group_string_axioms;

/// The key that a header gives: what stands behind `Bearer `, or all of it.
pub open spec fn key_in(header: Seq<char>) -> Seq<char> {
    trim(
        if "Bearer "@.is_prefix_of(header) {
            header.skip("Bearer "@.len() as int)
        } else {
            header
        },
    )
}

/// Whether a header gives the key. Where no key is asked for, anything does.
pub open spec fn key_fits(provided: Option<Seq<char>>, expected: Seq<char>) -> bool {
    expected.len() == 0 || match provided {
        Some(p) => key_in(p) == expected,
        None => false,
    }
}

/// The view of an optional text.
pub open spec fn text_view(o: Option<&str>) -> Option<Seq<char>> {
    match o {
        Some(s) => Some(s@),
        None => None,
    }
}

/// Tells whether a header gives the key that is asked for.
pub fn check_api_key(provided: Option<&str>, expected: &str) -> (r: bool)
    ensures
        r == key_fits(text_view(provided), expected@),
{
    if expected.is_empty() {
        return true;
    }
    let p = match provided {
        Some(p) => p,
        None => return false,
    };
    let token = if starts_with(p, "Bearer ") {
        let chars = chars_of(p);
        let lead = chars_of("Bearer ");
        let rest = string_range(&chars, lead.len(), chars.len());
        assert(rest@ =~= p@.skip("Bearer "@.len() as int));
        trimmed(rest.as_str())
    } else {
        trimmed(p)
    };
    same(token.as_str(), expected)
}

/// Whether a request is let in: the health check is, and what gives the key that is asked for, in
/// the first of its headers that is there.
pub open spec fn lets_in(
    expected: Seq<char>,
    path: Seq<char>,
    authorization: Option<Seq<char>>,
    api_key: Option<Seq<char>>,
) -> bool {
    ||| expected.len() == 0
    ||| path == "/api/health"@
    ||| key_fits(
        match authorization {
            Some(a) => Some(a),
            None => api_key,
        },
        expected,
    )
}

/// Tells whether a request is let in.
pub fn authorize(
    expected: &str,
    path: &str,
    authorization: Option<&str>,
    api_key: Option<&str>,
) -> (r: bool)
    ensures
        r == lets_in(expected@, path@, text_view(authorization), text_view(api_key)),
{
    if expected.is_empty() || same(path, "/api/health") {
        return true;
    }
    match authorization {
        Some(a) => check_api_key(Some(a), expected),
        None => check_api_key(api_key, expected),
    }
}

/// What the health check answers.
pub open spec fn health(
    version: Seq<char>,
    uptime_secs: u64,
    plugins_loaded: usize,
    agent_loops_total: usize,
) -> JsonView {
    JsonView::object().with("status"@, JsonView::Str("ok"@)).with(
        "version"@,
        JsonView::Str(version),
    ).with("uptime_secs"@, JsonView::PosInt(uptime_secs)).with(
        "plugins_loaded"@,
        JsonView::PosInt(plugins_loaded as u64),
    ).with("agent_loops_total"@, JsonView::PosInt(agent_loops_total as u64))
}

/// What the health check answers.
pub fn build_health_json(
    version: &str,
    uptime_secs: u64,
    plugins_loaded: usize,
    agent_loops_total: usize,
) -> (r: Json)
    ensures
        r@ == health(version@, uptime_secs, plugins_loaded, agent_loops_total),
{
    Json::object().with("status", Json::str("ok")).with("version", Json::str(version)).with(
        "uptime_secs",
        Json::PosInt(uptime_secs),
    ).with("plugins_loaded", Json::PosInt(plugins_loaded as u64)).with(
        "agent_loops_total",
        Json::PosInt(agent_loops_total as u64),
    )
}

/// The plugin and the path within it that a path names.
pub open spec fn plugin_and_path(full: Seq<char>) -> (Seq<char>, Seq<char>) {
    match split_once(full, '/') {
        Some(parts) => parts,
        None => (full, Seq::empty()),
    }
}

/// The plugin and the path within it that a path names.
pub fn plugin_path(full: &str) -> (r: (String, String))
    ensures
        (r.0@, r.1@) == plugin_and_path(full@),
{
    match split_once_at(full, '/') {
        Some(parts) => parts,
        None => (full.to_owned(), String::new()),
    }
}

/// What is done to a file of the log.
#[derive(Debug, PartialEq)]
pub enum LogStep {
    Remove(String),
    Rename { from: String, to: String },
}

/// Whether the log is to hold everything: the word `debug` stands in the setting, in either case.
pub open spec fn is_debug(level: Seq<char>) -> bool {
    exists|i: int|
        0 <= i && i + 5 <= level.len() && folds_to_word(
            #[trigger] level.subrange(i, i + 5),
            "debug"@,
        )
}

/// Tells whether the log is to hold everything.
pub fn is_debug_level(level: &str) -> (r: bool)
    ensures
        r == is_debug(level@),
{
    let chars = chars_of(level);
    let mut i: usize = 0;
    let total = chars.len();
    while i < total && total - i >= 5
        invariant
            i <= total,
            total == chars@.len(),
            chars@ == level@,
            forall|k: int|
                0 <= k < i ==> !folds_to_word(#[trigger] level@.subrange(k, k + 5), "debug"@),
        decreases total - i,
    {
        let window = string_range(&chars, i, i + 5);
        if is_word(window.as_str(), "debug") {
            return true;
        }
        i = i + 1;
    }
    false
}

/// A log that is longer is put aside.
pub const LOG_MAX_BYTES: u64 = 10_485_760;

/// The steps that make room for a new log, given how long the log is: with all details the old log
/// goes; else, where it is long, it and the two before it are put aside, and the oldest goes.
pub open spec fn is_log_plan(debug: bool, size: Option<u64>, steps: Seq<LogStep>) -> bool {
    if debug {
        &&& steps.len() == 1
        &&& steps[0] matches LogStep::Remove(f) && f@ == "app.log"@
    } else if size matches Some(n) && n > LOG_MAX_BYTES {
        &&& steps.len() == 4
        &&& steps[0] matches LogStep::Remove(f) && f@ == "app.log.3.old"@
        &&& steps[1] matches LogStep::Rename { from, to } && from@ == "app.log.2.old"@ && to@
            == "app.log.3.old"@
        &&& steps[2] matches LogStep::Rename { from, to } && from@ == "app.log.1.old"@ && to@
            == "app.log.2.old"@
        &&& steps[3] matches LogStep::Rename { from, to } && from@ == "app.log"@ && to@
            == "app.log.1.old"@
    } else {
        steps.len() == 0
    }
}

fn renaming(from: &str, to: &str) -> (r: LogStep)
    ensures
        r matches LogStep::Rename { from: a, to: b } && a@ == from@ && b@ == to@,
{
    LogStep::Rename { from: from.to_owned(), to: to.to_owned() }
}

/// The steps that make room for a new log.
pub fn plan_log(debug: bool, size: Option<u64>) -> (r: Vec<LogStep>)
    ensures
        is_log_plan(debug, size, r@),
{
    let mut out: Vec<LogStep> = Vec::new();
    if debug {
        out.push(LogStep::Remove("app.log".to_owned()));
        return out;
    }
    let long = match size {
        Some(n) => n > LOG_MAX_BYTES,
        None => false,
    };
    if long {
        out.push(LogStep::Remove("app.log.3.old".to_owned()));
        out.push(renaming("app.log.2.old", "app.log.3.old"));
        out.push(renaming("app.log.1.old", "app.log.2.old"));
        out.push(renaming("app.log", "app.log.1.old"));
    }
    out
}

/// Whether a setting says yes.
pub open spec fn says_yes(value: Option<Seq<char>>) -> bool {
    match value {
        Some(v) => folds_to_word(v, "1"@) || folds_to_word(v, "true"@) || folds_to_word(v, "yes"@)
            || folds_to_word(v, "on"@),
        None => false,
    }
}

/// Tells whether a setting says yes.
pub fn is_yes(value: Option<&str>) -> (r: bool)
    ensures
        r == says_yes(text_view(value)),
{
    match value {
        Some(v) => is_word(v, "1") || is_word(v, "true") || is_word(v, "yes") || is_word(v, "on"),
        None => false,
    }
}

/// The request that a message from the web makes.
pub open spec fn web_request(
    message: Seq<char>,
    tools: Seq<JsonView>,
    contexts: Seq<Seq<char>>,
    request_id: Seq<char>,
) -> ChatRequestView {
    ChatRequestView {
        message,
        peer_id: "web:default"@,
        tools,
        skip_store: false,
        contexts,
        jailbreak_index: None,
        image_base64: None,
        video_base64: None,
        video_mime: None,
        file_base64: None,
        file_name: None,
        stream: true,
        request_id,
        source: Seq::empty(),
        user_name: Seq::empty(),
        max_tokens: None,
        original_user_msg: None,
        assistant_tool_calls: Seq::empty(),
        tool_results: Seq::empty(),
    }
}

/// The request that a message from the web makes.
pub fn web_chat_request(
    message: &str,
    tools: Vec<Json>,
    contexts: Vec<String>,
    request_id: &str,
) -> (r: ChatRequest)
    ensures
        r@ == web_request(
            message@,
            crate::json::json_views(tools@),
            views(contexts@),
            request_id@,
        ),
{
    let r = ChatRequest {
        message: message.to_owned(),
        peer_id: "web:default".to_owned(),
        tools,
        skip_store: false,
        contexts,
        jailbreak_index: None,
        image_base64: None,
        video_base64: None,
        video_mime: None,
        file_base64: None,
        file_name: None,
        stream: true,
        request_id: request_id.to_owned(),
        source: String::new(),
        user_name: String::new(),
        max_tokens: None,
        original_user_msg: None,
        assistant_tool_calls: Vec::new(),
        tool_results: Vec::new(),
    };
    proof {
        assert(r@.assistant_tool_calls =~= Seq::empty());
        assert(r@.tool_results =~= Seq::empty());
        assert(r@.source =~= Seq::empty());
        assert(r@.user_name =~= Seq::empty());
    }
    r
}

/// An answer: a status and a body.
#[derive(Debug, PartialEq)]
pub struct HttpAnswer {
    pub status: u16,
    pub body: Json,
}

/// The model of an [`HttpAnswer`].
pub ghost struct HttpAnswerView {
    pub status: u16,
    pub body: JsonView,
}

impl View for HttpAnswer {
    type V = HttpAnswerView;

    open spec fn view(&self) -> HttpAnswerView {
        HttpAnswerView { status: self.status, body: self.body@ }
    }
}

impl HttpAnswerView {
    /// An error.
    pub open spec fn error(status: u16, error: Seq<char>) -> HttpAnswerView {
        HttpAnswerView {
            status,
            body: JsonView::object().with("error"@, JsonView::Str(error)),
        }
    }

    /// How something went well.
    pub open spec fn done(state: Seq<char>) -> HttpAnswerView {
        HttpAnswerView {
            status: 200,
            body: JsonView::object().with("status"@, JsonView::Str(state)),
        }
    }
}

impl HttpAnswer {
    /// An error.
    pub fn error(status: u16, error: &str) -> (r: Self)
        ensures
            r@ == HttpAnswerView::error(status, error@),
    {
        HttpAnswer { status, body: Json::object().with("error", Json::str(error)) }
    }

    /// How something went well.
    pub fn done(state: &str) -> (r: Self)
        ensures
            r@ == HttpAnswerView::done(state@),
    {
        HttpAnswer { status: 200, body: Json::object().with("status", Json::str(state)) }
    }
}

/// What a request to a loop asks for.
#[derive(Debug, Clone, Copy, PartialEq, Eq, Structural)]
pub enum LoopCommand {
    Stop,
    Pause,
    Resume,
}

/// What a request to a loop is answered. `outcome` tells whether the loop did it, or why it could
/// not be asked; it is none where there are no loops.
pub open spec fn loop_answer(
    command: LoopCommand,
    outcome: Option<Result<bool, Seq<char>>>,
) -> HttpAnswerView {
    match outcome {
        None => HttpAnswerView::error(503, "Agent loop not available"@),
        Some(Err(e)) => HttpAnswerView::error(500, e),
        Some(Ok(true)) => HttpAnswerView::done(
            match command {
                LoopCommand::Stop => "stopping"@,
                LoopCommand::Pause => "paused"@,
                LoopCommand::Resume => "running"@,
            },
        ),
        Some(Ok(false)) => match command {
            LoopCommand::Stop => HttpAnswerView::error(404, "loop not found"@),
            LoopCommand::Pause => HttpAnswerView::error(409, "loop not found or not running"@),
            LoopCommand::Resume => HttpAnswerView::error(409, "loop not found or not paused"@),
        },
    }
}

/// The model of an outcome.
pub open spec fn outcome_view(o: Option<Result<bool, String>>) -> Option<Result<bool, Seq<char>>> {
    match o {
        Some(Ok(b)) => Some(Ok(b)),
        Some(Err(e)) => Some(Err(e@)),
        None => None,
    }
}

/// What a request to a loop is answered.
pub fn answer_loop(command: LoopCommand, outcome: &Option<Result<bool, String>>) -> (r: HttpAnswer)
    ensures
        r@ == loop_answer(command, outcome_view(*outcome)),
{
    match outcome {
        None => HttpAnswer::error(503, "Agent loop not available"),
        Some(Err(e)) => HttpAnswer::error(500, e.as_str()),
        Some(Ok(true)) => match command {
            LoopCommand::Stop => HttpAnswer::done("stopping"),
            LoopCommand::Pause => HttpAnswer::done("paused"),
            LoopCommand::Resume => HttpAnswer::done("running"),
        },
        Some(Ok(false)) => match command {
            LoopCommand::Stop => HttpAnswer::error(404, "loop not found"),
            LoopCommand::Pause => HttpAnswer::error(409, "loop not found or not running"),
            LoopCommand::Resume => HttpAnswer::error(409, "loop not found or not paused"),
        },
    }
}

/// An optional text as a value.
pub open spec fn text_or_null(o: Option<Seq<char>>) -> JsonView {
    match o {
        Some(s) => JsonView::Str(s),
        None => JsonView::Null,
    }
}

fn text_value(o: &Option<String>) -> (r: Json)
    ensures
        r@ == text_or_null(opt_text(*o)),
{
    match o {
        Some(s) => Json::str(s.as_str()),
        None => Json::Null,
    }
}

/// What a request to a tool is answered.
pub open spec fn tool_answer(name: Seq<char>, result: Option<ToolResultView>) -> HttpAnswerView {
    match result {
        Some(r) => HttpAnswerView {
            status: 200,
            body: JsonView::object().with("success"@, JsonView::Bool(r.success)).with(
                "content"@,
                JsonView::Str(r.content),
            ).with("error"@, text_or_null(r.error)),
        },
        None => HttpAnswerView::error(404, "tool '"@ + name + "' not found"@),
    }
}

/// What a request to a tool is answered: its result, none where no tool has the name.
pub fn answer_tool(name: &str, result: &Option<ToolResult>) -> (r: HttpAnswer)
    ensures
        r@ == tool_answer(
            name@,
            match result {
                Some(t) => Some(t@),
                None => None,
            },
        ),
{
    match result {
        Some(t) => HttpAnswer {
            status: 200,
            body: Json::object().with("success", Json::Bool(t.success)).with(
                "content",
                Json::str(t.content.as_str()),
            ).with("error", text_value(&t.error)),
        },
        None => {
            let mut e = "tool '".to_owned();
            e.append(name);
            e.append("' not found");
            HttpAnswer::error(404, e.as_str())
        },
    }
}

/// What is answered of the budget.
pub open spec fn budget_answer(check: BudgetCheckView) -> HttpAnswerView {
    HttpAnswerView {
        status: 200,
        body: JsonView::object().with("allowed"@, JsonView::Bool(check.allowed)).with(
            "exceeded_period"@,
            text_or_null(check.period),
        ).with("used"@, JsonView::PosInt(check.used)).with("limit"@, JsonView::PosInt(check.limit)),
    }
}

/// What is answered of the budget.
pub fn answer_budget(check: &BudgetCheck) -> (r: HttpAnswer)
    ensures
        r@ == budget_answer(check@),
{
    HttpAnswer {
        status: 200,
        body: Json::object().with("allowed", Json::Bool(check.allowed)).with(
            "exceeded_period",
            text_value(&check.period),
        ).with("used", Json::PosInt(check.used)).with("limit", Json::PosInt(check.limit)),
    }
}

/// What a request to stop the current one is answered.
pub fn answer_cancel(cancelled: bool) -> (r: HttpAnswer)
    ensures
        r@ == HttpAnswerView::done(
            if cancelled {
                "cancelled"@
            } else {
                "no_active_request"@
            },
        ),
{
    if cancelled {
        HttpAnswer::done("cancelled")
    } else {
        HttpAnswer::done("no_active_request")
    }
}

/// Without the key nothing but the health check is let in.
pub proof fn strangers_stay_out(
    expected: Seq<char>,
    path: Seq<char>,
    authorization: Option<Seq<char>>,
    api_key: Option<Seq<char>>,
)
    requires
        expected.len() > 0,
        path != "/api/health"@,
        authorization matches Some(a) ==> key_in(a) != expected,
        authorization is None ==> (api_key matches Some(k) ==> key_in(k) != expected),
    ensures
        !lets_in(expected, path, authorization, api_key),
{
}

} // verus!
