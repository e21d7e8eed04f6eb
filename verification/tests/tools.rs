use std::sync::{Arc, Mutex};

use bn_agent::core_agent::{followup_after_calls, followup_to_calls};
use bn_agent::event::{AgentEvent, EventSource, EventType};
use bn_agent::host::{
    EventEmitter, HostContext, LogCallback, LogLevel, PluginError, PluginInfo, PluginMeta,
};
use bn_agent::json::Json;
use bn_agent::plugins::{
    collect_snapshots, describe_load_fault, new_tool_names, plugin_answer, plugin_argument,
    plugin_name, plugin_tool, registered_names, should_load, LoadFault, LoadedPlugin, PluginAction,
    PluginOutcome, PluginTable,
};
use bn_agent::tool::{ToolCall, ToolDef, ToolExecutor, ToolRegistry, ToolResult};
use bn_agent::tool_exec::{finish_tool_run, time_limit, tool_timeout_secs, ToolRun};

struct DummyTool {
    def: ToolDef,
    reply: String,
}

impl ToolExecutor for DummyTool {
    fn def(&self) -> &ToolDef {
        &self.def
    }
    fn execute(&self, _args: &Json) -> ToolResult {
        ToolResult::ok(&self.reply)
    }
}

fn make_tool(name: &str, internal: bool) -> Arc<dyn ToolExecutor> {
    Arc::new(DummyTool {
        def: ToolDef {
            name: name.into(),
            description: "test tool".into(),
            parameters: Json::object().with("type", Json::str("object")),
            internal,
        },
        reply: format!("reply-{name}"),
    })
}

fn info(name: &str) -> PluginInfo {
    PluginMeta {
        name: name.into(),
        version: "0.1.0".into(),
        description: "does things".into(),
        author: "test".into(),
        min_host_version: "0.1.0".into(),
    }
}

#[test]
fn new_registry_is_empty() {
    let reg = ToolRegistry::new();
    assert!(reg.is_empty());
    assert!(reg.all_defs().is_empty());
}

#[test]
fn register_then_execute() {
    let mut reg = ToolRegistry::new();
    reg.register(make_tool("echo", false));
    assert!(!reg.is_empty());

    let res = reg.execute("echo", &Json::object()).expect("tool exists");
    assert!(res.success);
    assert_eq!(res.content, "reply-echo");
}

#[test]
fn execute_unknown_tool_returns_none() {
    let reg = ToolRegistry::new();
    assert!(reg.execute("nope", &Json::object()).is_none());
}

#[test]
fn register_same_name_overwrites() {
    let mut reg = ToolRegistry::new();
    reg.register(make_tool("dup", false));
    reg.register(make_tool("dup", false));
    assert_eq!(reg.all_defs().len(), 1);
}

#[test]
fn all_defs_includes_internal_and_preserves_flag() {
    let mut reg = ToolRegistry::new();
    reg.register(make_tool("public", false));
    reg.register(make_tool("hidden", true));
    let defs = reg.all_defs();
    assert_eq!(defs.len(), 2);
    let hidden = defs.iter().find(|d| d.name == "hidden").unwrap();
    assert!(hidden.internal);
}

#[test]
fn get_executor_clones_arc() {
    let mut reg = ToolRegistry::new();
    reg.register(make_tool("echo", false));
    let exec = reg.get_executor("echo").expect("exists");
    let res = exec.execute(&Json::object());
    assert_eq!(res.content, "reply-echo");
    assert!(reg.get_executor("missing").is_none());
}

#[test]
fn unregister_removes_tool() {
    let mut reg = ToolRegistry::new();
    reg.register(make_tool("a", false));
    reg.register(make_tool("b", false));
    reg.unregister("a");
    assert!(reg.execute("a", &Json::object()).is_none());
    assert_eq!(reg.all_defs().len(), 1);
}

#[test]
fn clear_empties_registry() {
    let mut reg = ToolRegistry::new();
    reg.register(make_tool("a", false));
    reg.register(make_tool("b", false));
    reg.clear();
    assert!(reg.is_empty());
}

#[test]
fn tool_result_constructors() {
    let ok = ToolResult::ok("hi");
    assert!(ok.success);
    assert_eq!(ok.content, "hi");
    assert!(ok.error.is_none());

    let err = ToolResult::err("bad");
    assert!(!err.success);
    assert_eq!(err.error.as_deref(), Some("bad"));

    let meta = ToolResult::ok_with_metadata("c", Json::object().with("k", Json::str("v")));
    assert!(meta.success);
    assert_eq!(meta.metadata.unwrap().str_at("k"), Some("v"));
}

#[test]
fn fast_tool_completes() {
    let r = finish_tool_run(ToolRun::Answered(ToolResult::ok("done")), "sleep", 5);
    assert!(r.success);
    assert_eq!(r.content, "done");
}

#[test]
fn slow_tool_times_out() {
    let r = finish_tool_run(ToolRun::TimedOut, "sleep", 1);
    assert!(!r.success);
    assert!(r.error.clone().unwrap().contains("timed out"));
    assert_eq!(r.error.as_deref(), Some("tool 'sleep' timed out after 1s"));
}

#[test]
fn zero_timeout_disables_limit() {
    let r = finish_tool_run(ToolRun::Answered(ToolResult::ok("done")), "sleep", 0);
    assert!(r.success);
}

#[test]
fn no_seconds_are_no_limit() {
    assert_eq!(time_limit(0), None);
    assert_eq!(time_limit(1), Some(1));
    assert_eq!(time_limit(tool_timeout_secs(Some("0"))), None);
    assert_eq!(time_limit(tool_timeout_secs(None)), Some(180));
}

#[test]
fn panicking_tool_is_told_of() {
    let r = finish_tool_run(ToolRun::Panicked, "boom", 0);
    assert_eq!(r.error.as_deref(), Some("tool 'boom' panicked"));
    assert_eq!(tool_timeout_secs(None), 180);
    assert_eq!(tool_timeout_secs(Some("0")), 0);
}

#[test]
fn plugin_names_come_from_files() {
    assert_eq!(plugin_name("asr_tts_plugin"), "asr-tts-plugin");
    assert_eq!(plugin_name("image"), "image-plugin");
    assert_eq!(plugin_name("x-plugin"), "x-plugin");
    assert_eq!(plugin_name("_plugin"), "-plugin");
}

#[test]
fn files_to_load_are_chosen() {
    let none: Vec<String> = vec![];
    let listed = vec!["image-plugin".to_string()];
    assert!(should_load("so", Some("image_plugin"), &none, &none));
    assert!(!should_load("rlib", Some("image_plugin"), &none, &none));
    assert!(!should_load("dll", Some("image_plugin"), &listed, &listed));
    assert!(should_load("dylib", Some("image_plugin"), &none, &listed));
    assert!(!should_load("dylib", Some("other"), &none, &listed));
    assert!(should_load("so", None, &listed, &none));
}

#[test]
fn unloading_gives_the_registry_back() {
    let mut reg = ToolRegistry::new();
    reg.register(make_tool("host", false));
    let before = registered_names(&reg);
    assert_eq!(before, vec!["host".to_string()]);
    reg.register(make_tool("mine", false));
    let tool_names = new_tool_names(&reg, &before);
    assert_eq!(tool_names, vec!["mine".to_string()]);
    let mut table: PluginTable<u32> = PluginTable::new();
    let told = table.insert(LoadedPlugin {
        info: info("p"),
        path: "/p.so".into(),
        tool_names,
        handle: 7,
    });
    assert_eq!(told.name, "p");
    assert_eq!(table.path_of("p"), Ok("/p.so".to_string()));
    assert_eq!(table.list().len(), 1);
    assert_eq!(table.len(), 1);
    assert_eq!(table.at(0).handle, 7);
    let gone = table.unload("p", &mut reg).ok().unwrap();
    assert_eq!(gone.handle, 7);
    assert_eq!(registered_names(&reg), vec!["host".to_string()]);
    assert_eq!(table.path_of("p"), Err("plugin 'p' is not loaded".to_string()));
    assert_eq!(table.unload("p", &mut reg).err().unwrap(), "plugin 'p' is not loaded");
    assert!(table.get("p").is_none());
}

#[test]
fn snapshots_are_collected_in_order() {
    let got = collect_snapshots(vec![Some("a".into()), None, Some("b".into())]);
    assert_eq!(got, vec!["a".to_string(), "b".to_string()]);
}

#[test]
fn plugin_tools_ask_for_their_argument() {
    let missing = plugin_argument(PluginAction::Load, &Json::object()).err().unwrap();
    assert_eq!(missing.error.as_deref(), Some("missing: path"));
    let args = Json::object().with("name", Json::str("p"));
    assert_eq!(plugin_argument(PluginAction::Reload, &args).ok().unwrap(), "p");
    let def = plugin_tool(PluginAction::Unload);
    assert_eq!(def.name, "unload_plugin");
    assert_eq!(def.parameters.get("required"), Some(&Json::array(vec![Json::str("name")])));
}

#[test]
fn plugin_tools_answer() {
    let r = plugin_answer(PluginAction::Load, &PluginOutcome::Done(Some(info("p"))));
    assert_eq!(r.content, "✅ 插件 'p' v0.1.0 已加载 — does things");
    let r = plugin_answer(PluginAction::Unload, &PluginOutcome::Done(None));
    assert_eq!(r.content, "✅ 插件已卸载");
    let r = plugin_answer(PluginAction::Reload, &PluginOutcome::Refused("e".into()));
    assert_eq!(r.error.as_deref(), Some("重载失败：e"));
    let r = plugin_answer(PluginAction::Load, &PluginOutcome::Unreached("m".into()));
    assert_eq!(r.error.as_deref(), Some("通信失败：m"));
    assert_eq!(describe_load_fault(LoadFault::Found, "/p", "e"), "/p: e");
    assert_eq!(describe_load_fault(LoadFault::Start, "/p", "e"), "plugin.start() failed: e");
}

struct Lines(Mutex<Vec<String>>);

impl LogCallback for Lines {
    fn log(&self, level: LogLevel, target: &str, message: &str) {
        self.0.lock().unwrap().push(format!("{:?} {} {}", level, target, message));
    }
}

impl EventEmitter for Lines {
    fn emit(&self, event: AgentEvent) {
        self.0.lock().unwrap().push(event.data.text());
    }
}

#[test]
fn host_context_hands_lines_and_events_on() {
    let lines = Arc::new(Lines(Mutex::new(vec![])));
    let tools = Arc::new(Mutex::new(ToolRegistry::new()));
    let ctx = HostContext::new("BN Agent", "0.1.0", "./plugins");
    ctx.log_info("t", "lost");
    let ctx = ctx
        .with_logger(lines.clone())
        .with_emitter(lines.clone())
        .with_tool_registry(tools.clone());
    ctx.log_info("t", "a");
    ctx.log_warn("t", "b");
    ctx.clone().log_debug("t", "c");
    ctx.emitter.as_ref().unwrap().emit(AgentEvent::new(
        EventType::SystemEvent,
        EventSource::System,
        Json::object().with("k", Json::integer(-1)),
    ));
    ctx.tool_registry.as_ref().unwrap().lock().unwrap().register(make_tool("dummy", false));
    assert!(tools.lock().unwrap().get_executor("dummy").is_some());
    let got = lines.0.lock().unwrap().clone();
    assert_eq!(got, vec!["Info t a", "Warn t b", "Debug t c", "{\"k\":-1}"]);
    assert_eq!(ctx.host_name, "BN Agent");
}

#[test]
fn plugin_context_for_test_supports_tool_registration() {
    let ctx = HostContext::new("tool-reg-plugin", "0.1.0", "")
        .with_tool_registry(Arc::new(Mutex::new(ToolRegistry::new())));
    let reg = ctx.tool_registry.clone().unwrap();
    ctx.tool_registry.as_ref().unwrap().lock().unwrap().register(make_tool("dummy", false));
    let res = reg.lock().unwrap().execute("dummy", &Json::object());
    assert!(res.is_some());
    assert_eq!(res.unwrap().content, "reply-dummy");
}

#[test]
fn plugin_errors_speak_two_languages() {
    assert_eq!(PluginError::LoadError("x".into()).message(), "load failed: x");
    assert_eq!(PluginError::InitError("x".into()).message(), "init failed: x");
    assert_eq!(PluginError::NotFound("x".into()).message_zh(), "未找到: x");
    assert_eq!(PluginError::AlreadyLoaded("x".into()).message_zh(), "已加载: x");
    assert_eq!(PluginError::VersionMismatch("x".into()).message(), "version mismatch: x");
    assert_eq!(PluginError::Io("x".into()).message_zh(), "IO 错误: x");
}

#[test]
fn internal_tools_are_not_callable_by_the_model() {
    let mut reg = ToolRegistry::new();
    reg.register(make_tool("open", false));
    reg.register(make_tool("hidden", true));
    assert!(reg.get_callable("open").is_some());
    assert!(reg.get_callable("hidden").is_none());
    assert!(reg.get_callable("nope").is_none());
    assert!(reg.get_executor("hidden").is_some());
}

#[test]
fn follow_up_tells_each_call_with_its_own_result() {
    let call = |id: &str, name: &str| ToolCall {
        id: id.into(),
        name: name.into(),
        arguments: Json::object(),
    };
    let calls = vec![call("1", "a"), call("2", "gone"), call("3", "a")];
    let results = vec![Some(ToolResult::ok("ra")), None, Some(ToolResult::err("bad"))];
    let q = followup_to_calls(Some(7), "hi", &calls, &results);
    assert_eq!(
        q.message,
        "用户原始消息: hi\n\n工具执行结果：\n[1] ra\n[2] 工具 'gone' 未找到\n[3] 错误: bad\n"
    );
    assert_eq!(q.chat_id, 7);
    assert!(q.tools.is_empty() && !q.json_mode && !q.skip_store);
    let mut reg = ToolRegistry::new();
    reg.register(make_tool("a", false));
    reg.register(make_tool("secret", true));
    let calls = vec![call("1", "secret"), call("2", "a")];
    let q = followup_after_calls(None, "hi", &calls, &reg);
    assert_eq!(
        q.message,
        "用户原始消息: hi\n\n工具执行结果：\n[1] 工具 'secret' 未找到\n[2] reply-a\n"
    );
}
