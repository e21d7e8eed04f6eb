//! Who is let in and what is answered, who hears of what, and what tools and plugins say.

use crate::bus::{addressed, kept, listeners, Topics};
use crate::event::plugin_log_event;
use crate::host::{error_text, error_text_zh, PluginError};
use crate::json::JsonView;
use crate::laws::parts::{holds, lemma_holds, lemma_more_names, lemma_names};
use crate::numbers::decimal;
use crate::plugins::{
    action_tool, argument_of, dashed, given, load_fault, named_after, not_loaded, one_argument,
    outcome_answer, wanted, LoadFault, PluginAction, PluginOutcome,
};
use crate::server::{
    budget_answer, health, is_debug, is_log_plan, lets_in, loop_answer, plugin_and_path,
    tool_answer, web_request, LogStep, LoopCommand, LOG_MAX_BYTES,
};
use crate::text::{folds_to_word, trim};
use crate::tool::{ToolResult, ToolResultView};
use crate::tool_exec::{run_answer, ToolRun};
use crate::usage::BudgetCheckView;
use vstd::prelude::*;

verus! {

broadcast use {vstd::string::group_string_axioms, crate::json::member_after_with};

/// Who gives the key is let in, be it alone or behind the word for a bearer, in either header; the
/// first header that is there counts. Where no key is asked for, everybody is.
pub proof fn key_opens_the_door(key: Seq<char>, path: Seq<char>, other: Option<Seq<char>>)
    requires
        trim(key) == key,
        key.len() > 0,
        !"Bearer "@.is_prefix_of(key),
    ensures
        lets_in(key, path, Some(key), other),
        lets_in(key, path, Some("Bearer "@ + key), other),
        lets_in(key, path, None, Some(key)),
        lets_in(key, path, None, Some("Bearer "@ + key)),
        lets_in(Seq::empty(), path, other, other),
        lets_in(key, "/api/health"@, None, None),
        path != "/api/health"@ ==> !lets_in(key, path, None, None),
{
    let b = "Bearer "@ + key;
    assert("Bearer "@.is_prefix_of(b));
    assert(b.skip("Bearer "@.len() as int) =~= key);
}

/// A wrong key keeps the door shut, whatever the other header gives.
pub proof fn wrong_key_keeps_it_shut(
    key: Seq<char>,
    wrong: Seq<char>,
    path: Seq<char>,
    other: Option<Seq<char>>,
)
    requires
        key.len() > 0,
        trim(wrong) == wrong,
        wrong != key,
        !"Bearer "@.is_prefix_of(wrong),
        path != "/api/health"@,
    ensures
        !lets_in(key, path, Some(wrong), other),
        !lets_in(key, path, Some("Bearer "@ + wrong), other),
        !lets_in(key, path, None, Some(wrong)),
{
    let b = "Bearer "@ + wrong;
    assert("Bearer "@.is_prefix_of(b));
    assert(b.skip("Bearer "@.len() as int) =~= wrong);
}

/// What a tool returns is answered as it is, and a tool that is not there is not found.
pub proof fn tool_is_answered(name: Seq<char>, r: ToolResultView)
    ensures
        ({
            let a = tool_answer(name, Some(r));
            &&& a.status == 200
            &&& a.body.at("success"@) == JsonView::Bool(r.success)
            &&& a.body.str_at("content"@) == Some(r.content)
            &&& a.body.str_at("error"@) == r.error
        }),
        tool_answer(name, None).status == 404,
        tool_answer(name, None).body.str_at("error"@) matches Some(e) && holds(e, name),
{
    lemma_names();
    lemma_more_names();
    lemma_holds("tool '"@, name, "' not found"@);
}

/// Whether a loop did what it was asked is answered by the state it is in then, or by why it did
/// not.
pub proof fn loop_command_is_answered(c: LoopCommand, e: Seq<char>)
    ensures
        loop_answer(c, None).status == 503,
        loop_answer(c, Some(Err(e))).status == 500,
        loop_answer(c, Some(Err(e))).body.str_at("error"@) == Some(e),
        loop_answer(c, Some(Ok(true))).status == 200,
        loop_answer(c, Some(Ok(true))).body.str_at("status"@) == Some(
            match c {
                LoopCommand::Stop => "stopping"@,
                LoopCommand::Pause => "paused"@,
                LoopCommand::Resume => "running"@,
            },
        ),
        loop_answer(c, Some(Ok(false))).status == if c == LoopCommand::Stop {
            404u16
        } else {
            409u16
        },
        loop_answer(c, Some(Ok(false))).body.str_at("error"@) is Some,
{
    lemma_names();
}

/// What is answered of the budget is what the check says, and the health check tells what it is
/// given.
pub proof fn state_is_answered(
    c: BudgetCheckView,
    version: Seq<char>,
    uptime: u64,
    plugins: usize,
    loops: usize,
)
    ensures
        ({
            let a = budget_answer(c);
            &&& a.status == 200
            &&& a.body.at("allowed"@) == JsonView::Bool(c.allowed)
            &&& a.body.str_at("exceeded_period"@) == c.period
            &&& a.body.at("used"@) == JsonView::PosInt(c.used)
            &&& a.body.at("limit"@) == JsonView::PosInt(c.limit)
        }),
        ({
            let h = health(version, uptime, plugins, loops);
            &&& h.str_at("status"@) == Some("ok"@)
            &&& h.str_at("version"@) == Some(version)
            &&& h.at("uptime_secs"@) == JsonView::PosInt(uptime)
            &&& h.at("plugins_loaded"@) == JsonView::PosInt(plugins as u64)
            &&& h.at("agent_loops_total"@) == JsonView::PosInt(loops as u64)
        }),
{
    lemma_names();
    lemma_more_names();
}

/// A message from the web is put to the model as it is, with the tools and contexts there are, and
/// is remembered.
pub proof fn web_message_is_put_to_the_model(
    message: Seq<char>,
    tools: Seq<JsonView>,
    contexts: Seq<Seq<char>>,
    request_id: Seq<char>,
)
    ensures
        ({
            let r = web_request(message, tools, contexts, request_id);
            &&& r.message == message
            &&& r.tools == tools
            &&& r.contexts == contexts
            &&& r.request_id == request_id
            &&& r.peer_id == "web:default"@
            &&& r.stream
            &&& !r.skip_store
            &&& r.original_user_msg is None
            &&& r.image_base64 is None
            &&& r.assistant_tool_calls.len() == 0
        }),
{
}

/// A path names a plugin up to its first slash, and a path within it behind that.
pub proof fn path_names_a_plugin(plugin: Seq<char>, path: Seq<char>)
    requires
        forall|i: int| 0 <= i < plugin.len() ==> #[trigger] plugin[i] != '/',
    ensures
        plugin_and_path(plugin + "/"@ + path) == (plugin, path),
        plugin_and_path(plugin) == (plugin, Seq::<char>::empty()),
{
    reveal_strlit("/");
    let full = plugin + "/"@ + path;
    let f = crate::text::other_than('/');
    assert forall|i: int| 0 <= i < plugin.len() implies f(#[trigger] full[i]) by {
        assert(full[i] == plugin[i]);
    }
    assert forall|i: int| 0 <= i < plugin.len() implies f(#[trigger] plugin[i]) by {}
    assert(full[plugin.len() as int] == '/');
    crate::text::lemma_prefix_len(full, f, plugin.len());
    crate::text::lemma_prefix_len(plugin, f, plugin.len());
    assert(full.take(plugin.len() as int) =~= plugin);
    assert(full.skip(plugin.len() as int + 1) =~= path);
}

/// Of an event hear, each once and in the order in which they asked, those who asked for its topic
/// and then those who asked for all topics.
pub proof fn event_is_heard<R>(m: Topics<R>, topic: Seq<char>, i: int)
    requires
        topic != "*"@,
        m.dom().contains(topic),
        m.dom().contains("*"@),
    ensures
        addressed(m, topic).len() == m[topic].len() + m["*"@].len(),
        0 <= i < m[topic].len() ==> addressed(m, topic)[i] == m[topic][i],
        0 <= i < m["*"@].len() ==> addressed(m, topic)[m[topic].len() + i] == m["*"@][i],
        addressed(m, "*"@) == m["*"@],
{
}

/// Nobody hears of an event that nobody asked for.
pub proof fn unasked_event_is_not_heard<R>(m: Topics<R>, topic: Seq<char>)
    requires
        !m.dom().contains(topic),
        !m.dom().contains("*"@),
    ensures
        addressed(m, topic).len() == 0,
        listeners(m, topic).len() == 0,
{
}

/// Who is connected stays, in order, and who is not goes.
pub proof fn connected_ones_stay<R>(all: Seq<R>, flags: Seq<bool>, one: R, connected: bool)
    requires
        flags.len() == all.len(),
    ensures
        kept(all.push(one), flags.push(connected)) == if connected {
            kept(all, flags).push(one)
        } else {
            kept(all, flags)
        },
        kept(Seq::<R>::empty(), Seq::empty()).len() == 0,
{
    assert(all.push(one).drop_last() =~= all);
    assert(flags.push(connected).drop_last() =~= flags);
}

/// A line that a plugin logs is carried with its level, its plugin and its text.
pub proof fn log_line_is_carried(plugin: Seq<char>, level: Seq<char>, message: Seq<char>)
    ensures
        ({
            let e = plugin_log_event(plugin, level, message);
            &&& e.topic == "plugin.log"@
            &&& e.data.str_at("level"@) == Some(level)
            &&& e.data.str_at("plugin"@) == Some(plugin)
            &&& e.data.str_at("message"@) == Some(message)
        }),
        crate::event::host_level("warn"@) == crate::event::HostLogLevel::Warn,
        crate::event::host_level("error"@) == crate::event::HostLogLevel::Error,
        level != "warn"@ && level != "error"@ ==> crate::event::host_level(level)
            == crate::event::HostLogLevel::Info,
{
    lemma_names();
    lemma_more_names();
    reveal_strlit("warn");
    assert("warn"@.len() == 4);
}

/// What a tool returns is answered for it; one that panics or takes too long has failed, and it is
/// told which one and how long it had.
pub proof fn run_of_a_tool_is_answered(
    r: ToolResult,
    name: Seq<char>,
    secs: u64,
)
    ensures
        run_answer(ToolRun::Answered(r), name, secs) == r@,
        ({
            let a = run_answer(ToolRun::Panicked, name, secs);
            !a.success && (a.error matches Some(e) && holds(e, name))
        }),
        ({
            let a = run_answer(ToolRun::TimedOut, name, secs);
            !a.success && (a.error matches Some(e) && holds(e, name) && holds(
                e,
                decimal(secs as nat),
            ))
        }),
{
    let n = decimal(secs as nat);
    lemma_holds("tool '"@, name, "' panicked"@);
    lemma_holds("tool '"@, name, "' timed out after "@ + n + "s"@);
    assert("tool '"@ + name + ("' timed out after "@ + n + "s"@) =~= "tool '"@ + name
        + "' timed out after "@ + n + "s"@);
    lemma_holds("tool '"@ + name + "' timed out after "@, n, "s"@);
}

/// A success holds its text and no reason, a failure its reason and no text.
pub proof fn results_say_how_it_went(text: Seq<char>)
    ensures
        ToolResultView::ok(text).success,
        ToolResultView::ok(text).content == text,
        ToolResultView::ok(text).error is None,
        !ToolResultView::err(text).success,
        ToolResultView::err(text).error == Some(text),
        ToolResultView::err(text).content.len() == 0,
{
}

/// Whether a character may stand in the name of a plugin.
pub open spec fn is_dashed(s: Seq<char>) -> bool {
    forall|i: int| 0 <= i < s.len() ==> #[trigger] s[i] != '_'
}

/// The plugin in a file is named after the file, with dashes, and its name says that it is one; a
/// file that is named after a plugin already gives the same name.
pub proof fn plugin_is_named_after_its_file(base: Seq<char>)
    requires
        is_dashed(base),
        !"-plugin"@.is_suffix_of(base),
        !"_plugin"@.is_suffix_of(base),
    ensures
        named_after(base) == base + "-plugin"@,
        named_after(base + "_plugin"@) == base + "-plugin"@,
        named_after(base + "-plugin"@) == base + "-plugin"@,
{
    reveal_strlit("_plugin");
    reveal_strlit("-plugin");
    assert(dashed(base) =~= base);
    let a = base + "_plugin"@;
    assert("_plugin"@.is_suffix_of(a));
    assert(a.take(a.len() - "_plugin"@.len()) =~= base);
    let b = base + "-plugin"@;
    assert("-plugin"@.is_suffix_of(b));
    assert(is_dashed(b)) by {
        assert forall|i: int| 0 <= i < b.len() implies #[trigger] b[i] != '_' by {
            if i < base.len() {
                assert(b[i] == base[i]);
            } else {
                assert(b[i] == "-plugin"@[i - base.len()]);
            }
        }
    }
    assert(dashed(b) =~= b);
    assert(!"_plugin"@.is_suffix_of(b)) by {
        if "_plugin"@.is_suffix_of(b) {
            assert(b.subrange(b.len() - 7, b.len() as int)[0] == b[b.len() - 7]);
            assert("_plugin"@[0] == '_');
        }
    }
}

/// A plugin is loaded unless it is to be skipped or others are asked for.
pub proof fn plugin_is_loaded_unless(name: Seq<char>, skip: Seq<Seq<char>>, only: Seq<Seq<char>>)
    ensures
        wanted(name, skip, only) <==> !skip.contains(name) && (only.len() == 0 || only.contains(
            name,
        )),
        wanted(name, Seq::empty(), Seq::empty()),
{
}

/// What was done with a plugin is told with its name, its version and what it does; why it was not
/// with the reason.
pub proof fn plugin_action_is_told(
    action: PluginAction,
    outcome: PluginOutcome,
    path: Seq<char>,
    fault: LoadFault,
    reason: Seq<char>,
)
    ensures
        ({
            let a = outcome_answer(action, outcome);
            match outcome {
                PluginOutcome::Done(Some(i)) => a.success && holds(a.content, i.name@) && holds(
                    a.content,
                    i.version@,
                ) && i.description@.is_suffix_of(a.content),
                PluginOutcome::Done(None) => a.success,
                PluginOutcome::Refused(e) => !a.success && (a.error matches Some(t)
                    && e@.is_suffix_of(t)),
                PluginOutcome::Unreached(e) => !a.success && (a.error matches Some(t)
                    && e@.is_suffix_of(t)),
            }
        }),
        reason.is_suffix_of(load_fault(fault, path, reason)),
        fault == LoadFault::Found || fault == LoadFault::Asked || fault == LoadFault::Reloaded
            ==> holds(load_fault(fault, path, reason), path),
        holds(not_loaded(path), path),
{
    match outcome {
        PluginOutcome::Done(Some(i)) => {
            let a = outcome_answer(action, outcome).content;
            let said = if action == PluginAction::Reload {
                " 已重载 — "@
            } else {
                " 已加载 — "@
            };
            lemma_holds("✅ 插件 '"@, i.name@, "' v"@ + i.version@ + said + i.description@);
            assert("✅ 插件 '"@ + i.name@ + ("' v"@ + i.version@ + said + i.description@) =~= a);
            lemma_holds("✅ 插件 '"@ + i.name@ + "' v"@, i.version@, said + i.description@);
            assert("✅ 插件 '"@ + i.name@ + "' v"@ + i.version@ + (said + i.description@) =~= a);
            assert(i.description@.is_suffix_of(a));
        },
        PluginOutcome::Refused(e) => {
            let t = outcome_answer(action, outcome).error->0;
            assert(e@.is_suffix_of(t));
        },
        PluginOutcome::Unreached(e) => {
            let t = outcome_answer(action, outcome).error->0;
            assert(e@.is_suffix_of(t));
        },
        _ => {},
    }
    let f = load_fault(fault, path, reason);
    assert(reason.is_suffix_of(f));
    lemma_holds(Seq::empty(), path, ": "@ + reason);
    assert(Seq::<char>::empty() + path + (": "@ + reason) =~= path + ": "@ + reason);
    lemma_holds("failed to load library '"@, path, "': "@ + reason);
    assert("failed to load library '"@ + path + ("': "@ + reason) =~= "failed to load library '"@
        + path + "': "@ + reason);
    lemma_holds("failed to reload library '"@, path, "': "@ + reason);
    assert("failed to reload library '"@ + path + ("': "@ + reason)
        =~= "failed to reload library '"@ + path + "': "@ + reason);
    lemma_holds("plugin '"@, path, "' is not loaded"@);
}

/// The tools for plugins ask for what they are given: the file to load, and the name to unload or
/// reload; they require it, and the model may call them.
pub proof fn plugin_tools_ask_for_it(action: PluginAction)
    ensures
        ({
            let d = action_tool(action);
            let arg = argument_of(action);
            &&& !d.internal
            &&& d.name == match action {
                PluginAction::Load => "load_plugin"@,
                PluginAction::Unload => "unload_plugin"@,
                PluginAction::Reload => "reload_plugin"@,
            }
            &&& arg == if action == PluginAction::Load {
                "path"@
            } else {
                "name"@
            }
            &&& d.parameters.str_at("type"@) == Some("object"@)
            &&& d.parameters.at("properties"@).at(arg).str_at("type"@) == Some("string"@)
            &&& d.parameters.at("required"@) == JsonView::Arr(seq![JsonView::Str(arg)])
        }),
{
    lemma_names();
    lemma_more_names();
}

/// Every context that a plugin gives is taken, in order, and no other.
pub proof fn contexts_of_plugins_are_taken(texts: Seq<Option<String>>, next: Option<String>)
    ensures
        given(texts.push(next)) == match next {
            Some(s) => given(texts).push(s@),
            None => given(texts),
        },
        given(Seq::empty()).len() == 0,
{
    assert(texts.push(next).drop_last() =~= texts);
}

/// An error of a plugin says what it is about, in both languages.
pub proof fn plugin_errors_say_why(e: PluginError)
    ensures
        ({
            let why = match e {
                PluginError::LoadError(s) => s@,
                PluginError::InitError(s) => s@,
                PluginError::NotFound(s) => s@,
                PluginError::AlreadyLoaded(s) => s@,
                PluginError::VersionMismatch(s) => s@,
                PluginError::Io(s) => s@,
            };
            why.is_suffix_of(error_text(e)) && why.is_suffix_of(error_text_zh(e))
        }),
{
    let why = match e {
        PluginError::LoadError(s) => s@,
        PluginError::InitError(s) => s@,
        PluginError::NotFound(s) => s@,
        PluginError::AlreadyLoaded(s) => s@,
        PluginError::VersionMismatch(s) => s@,
        PluginError::Io(s) => s@,
    };
    assert(why.is_suffix_of(error_text(e)));
    assert(why.is_suffix_of(error_text_zh(e)));
}

/// The files there are after steps, by name.
pub open spec fn carried_out(files: Map<Seq<char>, Seq<u8>>, steps: Seq<LogStep>) -> Map<
    Seq<char>,
    Seq<u8>,
>
    decreases steps.len(),
{
    if steps.len() == 0 {
        files
    } else {
        let before = carried_out(files, steps.drop_last());
        match steps.last() {
            LogStep::Remove(f) => before.remove(f@),
            LogStep::Rename { from, to } => before.insert(to@, before[from@]).remove(from@),
        }
    }
}

/// A long log makes room for a new one: it and the two before it are kept under the next names, and
/// only the oldest goes. A short one stays where it is; with all details the log begins anew.
pub proof fn old_logs_are_put_aside(
    files: Map<Seq<char>, Seq<u8>>,
    debug: bool,
    size: Option<u64>,
    steps: Seq<LogStep>,
)
    requires
        is_log_plan(debug, size, steps),
    ensures
        ({
            let after = carried_out(files, steps);
            let long = size matches Some(n) && n > LOG_MAX_BYTES;
            &&& debug ==> after == files.remove("app.log"@)
            &&& !debug && !long ==> after == files
            &&& !debug && long ==> {
                &&& !after.dom().contains("app.log"@)
                &&& after["app.log.1.old"@] == files["app.log"@]
                &&& after["app.log.2.old"@] == files["app.log.1.old"@]
                &&& after["app.log.3.old"@] == files["app.log.2.old"@]
            }
        }),
{
    reveal_with_fuel(carried_out, 5);
    reveal_strlit("app.log");
    reveal_strlit("app.log.1.old");
    reveal_strlit("app.log.2.old");
    reveal_strlit("app.log.3.old");
    assert("app.log"@.len() == 7);
    assert("app.log.1.old"@.len() == 13 && "app.log.1.old"@[8] == '1');
    assert("app.log.2.old"@.len() == 13 && "app.log.2.old"@[8] == '2');
    assert("app.log.3.old"@.len() == 13 && "app.log.3.old"@[8] == '3');
}

/// A level that names debugging anywhere, in whatever letters, asks for all details.
pub proof fn debug_is_seen(before: Seq<char>, word: Seq<char>, behind: Seq<char>)
    requires
        folds_to_word(word, "debug"@),
    ensures
        is_debug(before + word + behind),
{
    reveal_strlit("debug");
    let t = before + word + behind;
    let i = before.len() as int;
    assert(t.subrange(i, i + 5) =~= word);
}

/// The schema of a tool with one argument asks for that argument and says what it is.
pub proof fn schema_describes_its_argument(name: Seq<char>, description: Seq<char>)
    ensures
        ({
            let schema = one_argument(name, description);
            &&& schema.str_at("type"@) == Some("object"@)
            &&& schema.at("properties"@).at(name).str_at("type"@) == Some("string"@)
            &&& schema.at("properties"@).at(name).str_at("description"@) == Some(description)
            &&& schema.at("required"@) == JsonView::Arr(seq![JsonView::Str(name)])
        }),
{
    lemma_names();
    lemma_more_names();
}

} // verus!
