use bn_agent::json::Json;
use bn_agent::server::{
    answer_budget, answer_cancel, answer_loop, answer_tool, authorize, build_health_json,
    check_api_key, is_debug_level, is_yes, plan_log, plugin_path, web_chat_request, HttpAnswer,
    LogStep, LoopCommand,
};
use bn_agent::tool::ToolResult;
use bn_agent::usage::BudgetCheck;

#[test]
fn empty_expected_allows_all() {
    assert!(check_api_key(None, ""));
    assert!(check_api_key(Some("anything"), ""));
}

#[test]
fn missing_provided_rejected() {
    assert!(!check_api_key(None, "secret"));
}

#[test]
fn bare_key_matches() {
    assert!(check_api_key(Some("secret"), "secret"));
    assert!(!check_api_key(Some("wrong"), "secret"));
}

#[test]
fn bearer_prefix_matches() {
    assert!(check_api_key(Some("Bearer secret"), "secret"));
    assert!(!check_api_key(Some("Bearer wrong"), "secret"));
}

#[test]
fn whitespace_trimmed_after_bearer() {
    assert!(check_api_key(Some("Bearer  secret "), "secret"));
}

#[test]
fn health_json_has_expected_fields() {
    let v = build_health_json("1.2.3", 42, 5, 2);
    assert_eq!(v.get("status"), Some(&Json::str("ok")));
    assert_eq!(v.get("version"), Some(&Json::str("1.2.3")));
    assert_eq!(v.get("uptime_secs"), Some(&Json::PosInt(42)));
    assert_eq!(v.get("plugins_loaded"), Some(&Json::PosInt(5)));
    assert_eq!(v.get("agent_loops_total"), Some(&Json::PosInt(2)));
}

#[test]
fn only_the_health_check_needs_no_key() {
    assert!(authorize("k", "/api/health", None, None));
    assert!(!authorize("k", "/api/chat", None, None));
    assert!(authorize("k", "/api/chat", None, Some("k")));
    assert!(authorize("k", "/api/chat", Some("Bearer k"), None));
    assert!(!authorize("k", "/api/chat", Some("wrong"), Some("k")));
    assert!(authorize("", "/api/chat", None, None));
}

#[test]
fn plugin_paths_are_split_at_the_first_slash() {
    assert_eq!(plugin_path("img/a/b"), ("img".to_string(), "a/b".to_string()));
    assert_eq!(plugin_path("img"), ("img".to_string(), String::new()));
}

#[test]
fn log_is_put_aside_when_long() {
    assert!(plan_log(false, None).is_empty());
    assert!(plan_log(false, Some(10 * 1024 * 1024)).is_empty());
    assert_eq!(plan_log(true, None), vec![LogStep::Remove("app.log".into())]);
    let steps = plan_log(false, Some(10 * 1024 * 1024 + 1));
    assert_eq!(steps.len(), 4);
    assert_eq!(steps[0], LogStep::Remove("app.log.3.old".into()));
    assert_eq!(steps[3], LogStep::Rename { from: "app.log".into(), to: "app.log.1.old".into() });
}

#[test]
fn settings_are_read_in_either_case() {
    assert!(is_debug_level("info,My=DeBug"));
    assert!(!is_debug_level("info"));
    assert!(is_yes(Some("YES")));
    assert!(is_yes(Some("1")));
    assert!(!is_yes(Some("no")));
    assert!(!is_yes(None));
}

#[test]
fn web_requests_stream_and_are_stored() {
    let r = web_chat_request("hi", vec![], vec!["c".into()], "id");
    assert_eq!(r.peer_id, "web:default");
    assert!(r.stream);
    assert!(!r.skip_store);
    assert_eq!(r.contexts, vec!["c".to_string()]);
}

#[test]
fn loop_commands_are_answered() {
    assert_eq!(answer_loop(LoopCommand::Stop, &None).status, 503);
    assert_eq!(answer_loop(LoopCommand::Stop, &Some(Ok(false))).status, 404);
    assert_eq!(answer_loop(LoopCommand::Pause, &Some(Ok(false))).status, 409);
    assert_eq!(answer_loop(LoopCommand::Resume, &Some(Ok(true))), HttpAnswer::done("running"));
    assert_eq!(answer_loop(LoopCommand::Pause, &Some(Err("e".into()))), HttpAnswer::error(500, "e"));
}

#[test]
fn tools_budget_and_cancel_are_answered() {
    let missing = answer_tool("x", &None);
    assert_eq!(missing, HttpAnswer::error(404, "tool 'x' not found"));
    let ok = answer_tool("x", &Some(ToolResult::ok("fine")));
    assert_eq!(ok.body.get("error"), Some(&Json::Null));
    assert_eq!(ok.body.str_at("content"), Some("fine"));
    let b = answer_budget(&BudgetCheck {
        allowed: false,
        period: Some("daily".into()),
        used: 3,
        limit: 2,
    });
    assert_eq!(b.body.str_at("exceeded_period"), Some("daily"));
    assert_eq!(b.body.get("used"), Some(&Json::PosInt(3)));
    assert_eq!(answer_cancel(true), HttpAnswer::done("cancelled"));
    assert_eq!(answer_cancel(false), HttpAnswer::done("no_active_request"));
}
