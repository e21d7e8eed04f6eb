use bn_agent::agent_loop::{
    agent_loop_max_concurrent, agent_loop_max_duration_secs, agent_loop_max_keep,
    agent_loop_max_sleep_secs, agent_loop_tool_deny,
    active_loop_count, build_loop_prompt, can_start_new_loop, decision_from, format_observation,
    is_tool_denied, loop_duration_exceeded, loop_status_str, parse_loop_decision,
    parse_tool_deny_list, reconcile_restored_status, status_from_decision, strip_json_fence,
    terminal_ids_to_prune, AgentLoopSnapshot, AgentLoopStatus, AgentLoopStep, MAX_STEPS_CAP,
};
use bn_agent::agent_runner::{LoopAction, LoopAskError, LoopOut, LoopRun, RunStage};
use bn_agent::chat::LlmResponse;
use bn_agent::effect::Effect;
use bn_agent::event::Event;
use bn_agent::json::Json;
use bn_agent::json_record::parse_record;
use bn_agent::loop_table::{request_from_event, AgentLoopTable, LoopRequest};
use bn_agent::tool::{ToolCall, ToolDef, ToolResult};

fn sample_step() -> AgentLoopStep {
    AgentLoopStep {
        step: 2,
        status: AgentLoopStatus::Running,
        llm_message: "hello".into(),
        reason: None,
        tool_calls: vec!["tool_a".into()],
        tool_results: vec!["result_a".into()],
        elapsed_ms: 10,
        created_at_ms: 0,
    }
}

fn make_snapshot(id: &str, status: AgentLoopStatus) -> AgentLoopSnapshot {
    AgentLoopSnapshot {
        id: id.into(),
        goal: "g".into(),
        peer_id: "test:1".into(),
        status,
        max_steps: 8,
        max_tool_rounds: 5,
        steps_taken: 0,
        observations: Vec::new(),
        error: None,
        created_at_ms: 1,
        updated_at_ms: 1,
    }
}

fn request(goal: &str, peer_id: Option<&str>, max_steps: usize) -> LoopRequest {
    LoopRequest {
        goal: goal.into(),
        peer_id: peer_id.map(String::from),
        max_steps: Some(max_steps),
        max_tool_rounds: Some(0),
    }
}

fn response(content: &str) -> LlmResponse {
    LlmResponse {
        content: content.into(),
        model: "mock".into(),
        prompt_tokens: 1,
        completion_tokens: 1,
        prompt_cache_hit_tokens: 0,
        prompt_cache_miss_tokens: 0,
        tool_calls: vec![],
    }
}

/// Runs one step of a loop against a model that always says the same.
fn one_step(run: &mut LoopRun, table: &mut AgentLoopTable, id: &str, reply: &str) -> bool {
    let (stop, pause) = table.flags(id).unwrap();
    let out = run.on_begin(stop, pause, 0);
    if take(out, table) {
        return true;
    }
    if run.stage() == RunStage::Held {
        return false;
    }
    let out = run.on_prepared(vec![], &vec![], vec![]);
    if take(out, table) {
        return true;
    }
    let (stop, _) = table.flags(id).unwrap();
    let out = run.on_answer(Ok(response(reply)), stop, 1, 2);
    take(out, table)
}

/// Hands the reports of a step to the table, and tells whether the loop has ended.
fn take(out: LoopOut, table: &mut AgentLoopTable) -> bool {
    for report in out.reports {
        table.progress(report, 3);
    }
    matches!(out.action, LoopAction::Finish)
}

fn run_all(run: &mut LoopRun, table: &mut AgentLoopTable, id: &str, reply: &str) {
    for _ in 0..200 {
        if one_step(run, table, id, reply) {
            return;
        }
    }
    panic!("the loop does not end");
}

#[test]
fn deny_list_parse_trims_and_drops_empty() {
    assert_eq!(parse_tool_deny_list(""), Vec::<String>::new());
    assert_eq!(
        parse_tool_deny_list(" shutdown , , unload_plugin "),
        vec!["shutdown".to_string(), "unload_plugin".to_string()]
    );
}

#[test]
fn deny_list_matches_exact_name() {
    let deny = parse_tool_deny_list("shutdown,danger_tool");
    assert!(is_tool_denied("shutdown", &deny));
    assert!(is_tool_denied("danger_tool", &deny));
    assert!(!is_tool_denied("safe_tool", &deny));
    assert!(!is_tool_denied("shutdown_x", &deny));
}

#[test]
fn deny_list_empty_denies_nothing() {
    let deny: Vec<String> = Vec::new();
    assert!(!is_tool_denied("anything", &deny));
}

#[test]
fn duration_unlimited_when_zero() {
    assert!(!loop_duration_exceeded(0, 0));
    assert!(!loop_duration_exceeded(999_999, 0));
}

#[test]
fn duration_exceeded_at_or_past_limit() {
    assert!(!loop_duration_exceeded(9, 10));
    assert!(loop_duration_exceeded(10, 10));
    assert!(loop_duration_exceeded(11, 10));
}

#[test]
fn concurrent_unlimited_when_zero() {
    assert!(can_start_new_loop(0, 0));
    assert!(can_start_new_loop(9999, 0));
}

#[test]
fn concurrent_blocks_at_limit() {
    assert!(can_start_new_loop(0, 2));
    assert!(can_start_new_loop(1, 2));
    assert!(!can_start_new_loop(2, 2));
    assert!(!can_start_new_loop(3, 2));
}

#[test]
fn active_count_excludes_terminal() {
    let statuses = vec![
        AgentLoopStatus::Running,
        AgentLoopStatus::Paused,
        AgentLoopStatus::Completed,
        AgentLoopStatus::Stopped,
        AgentLoopStatus::Failed,
        AgentLoopStatus::WaitingForUser,
        AgentLoopStatus::Stopping,
    ];
    assert_eq!(active_loop_count(&statuses), 4);
}

#[test]
fn strip_json_fence_plain() {
    assert_eq!(strip_json_fence("{\"a\":1}"), "{\"a\":1}");
}

#[test]
fn strip_json_fence_markers() {
    assert_eq!(strip_json_fence("```json\n{\"a\":1}\n```"), "{\"a\":1}");
    assert_eq!(strip_json_fence("```\n{\"a\":1}\n```"), "{\"a\":1}");
}

#[test]
fn parse_loop_decision_valid() {
    let d = parse_loop_decision("{\"status\":\"done\",\"message\":\"ok\",\"sleep_seconds\":3}");
    assert_eq!(d.status.as_deref(), Some("done"));
    assert_eq!(d.message.as_deref(), Some("ok"));
    assert_eq!(d.sleep_seconds, Some(3));
}

#[test]
fn parse_loop_decision_fenced() {
    let d = parse_loop_decision("```json\n{\"status\":\"continue\",\"message\":\"m\"}\n```");
    assert_eq!(d.status.as_deref(), Some("continue"));
    assert_eq!(d.message.as_deref(), Some("m"));
}

#[test]
fn parse_loop_decision_invalid_falls_back_to_message() {
    let d = parse_loop_decision("just some text, not json");
    assert!(d.status.is_none());
    assert_eq!(d.message.as_deref(), Some("just some text, not json"));
}

#[test]
fn decision_with_a_field_of_the_wrong_kind_is_a_message() {
    let text = "{\"status\":5}";
    let d = decision_from(text, &Json::parse(text));
    assert!(d.status.is_none());
    assert_eq!(d.message.as_deref(), Some(text));
}

#[test]
fn repeated_member_makes_a_message() {
    for text in [
        "{\"status\":\"continue\",\"status\":\"done\"}",
        "{\"status\":null,\"x\":1,\"st\\u0061tus\":\"done\"}",
        "{\"sleep_seconds\":1,\"sleep_seconds\":1}",
    ] {
        let d = parse_loop_decision(text);
        assert!(d.status.is_none());
        assert_eq!(d.message.as_deref(), Some(text));
        assert!(d.sleep_seconds.is_none());
    }
    let twice = Json::object().with("status", Json::str("a")).with("status", Json::str("b"));
    assert!(decision_from("t", &Some(twice)).status.is_none());
}

#[test]
fn members_of_other_names_are_skipped_unread() {
    let deep = "[".repeat(500) + &"]".repeat(500);
    for other in ["1e999", "\"\\ud800\"", "{\"a\":[1,{}],\"a\":2}", deep.as_str()] {
        let text = format!("{{ \"x\" : {other} , \"status\":\"done\",\"x\":null}}");
        let d = parse_loop_decision(&text);
        assert_eq!(d.status.as_deref(), Some("done"), "{}", text);
        assert!(d.message.is_none());
    }
}

#[test]
fn texts_that_are_no_decision_are_messages() {
    for text in [
        "{\"status\":\"done\",}",
        "{,\"status\":\"done\"}",
        "{\"status\":\"done\"} x",
        "{\"status\":\"done\"",
        "{\"status\" \"done\"}",
        "{\"status\":\"done\" \"x\":1}",
        "{status:\"done\"}",
        "{\"status\":\"done\",\"sleep_seconds\":-1}",
        "{\"status\":\"done\",\"sleep_seconds\":1.0}",
        "{\"status\":\"\\ud800\"}",
        "{\"\\ud800\":1,\"status\":\"done\"}",
        "{\"status\":1e999}",
        "[\"done\",null,null]",
        "\"done\"",
        "null",
    ] {
        let d = parse_loop_decision(text);
        assert!(d.status.is_none(), "{}", text);
        assert_eq!(d.message.as_deref(), Some(text));
    }
    let d = parse_loop_decision("[\"done\",null,\"r\",7]");
    assert_eq!((d.status.as_deref(), d.reason.as_deref()), (Some("done"), Some("r")));
    assert_eq!(d.sleep_seconds, Some(7));
    assert!(parse_loop_decision(" {\n\t} ").message.is_none());
}

#[test]
fn objects_are_told_from_other_texts_as_the_reader_does() {
    for text in [
        "{}", "{ }", "{\"a\":1}", "{\"a\":1,\"b\":[2,{\"c\":null}]}", "{\"a\":1,}", "{,}", "{\"a\"}",
        "{\"a\":}", "{\"a\":1 2}", "{\"a\":1}}", "{\"a\":01}", "{\"a\":tru}", "{\"a\":truex}",
        "{\"a\":\"b}", "{a:1}", "{\"a\":1;\"b\":2}", "{\"a\":-}", "{\"a\":1.}", "{\"a\":1e5}",
        "{\"你\":\"好\"}", "{\"a\":[1,]}", "{\"a\":\"x\"\"y\"}", "{", "{\"a\":1,\"a\":2}", "{\"a\"\n:\t1\r}",
    ] {
        let accepted = serde_json::from_str::<serde::de::IgnoredAny>(text).is_ok();
        assert_eq!(parse_record(text, &vec![]).is_some(), accepted, "{}", text);
    }
    let r = parse_record("{\"a\":1,\"b\":2,\"a\":\"x\"}", &vec!["a", "c"]).unwrap();
    let expected = Json::object().with("a", Json::PosInt(1)).with("a", Json::str("x"));
    assert_eq!(r, expected);
}

#[test]
fn status_from_decision_maps_variants() {
    assert_eq!(status_from_decision("done"), AgentLoopStatus::Completed);
    assert_eq!(status_from_decision("complete"), AgentLoopStatus::Completed);
    assert_eq!(status_from_decision("ask_user"), AgentLoopStatus::WaitingForUser);
    assert_eq!(status_from_decision("need_user"), AgentLoopStatus::WaitingForUser);
    assert_eq!(status_from_decision("failed"), AgentLoopStatus::Failed);
    assert_eq!(status_from_decision("error"), AgentLoopStatus::Failed);
    assert_eq!(status_from_decision("stopped"), AgentLoopStatus::Stopped);
    assert_eq!(status_from_decision("continue"), AgentLoopStatus::Running);
    assert_eq!(status_from_decision("whatever"), AgentLoopStatus::Running);
}

#[test]
fn status_from_decision_case_insensitive_and_trimmed() {
    assert_eq!(status_from_decision("  DONE  "), AgentLoopStatus::Completed);
    assert_eq!(status_from_decision("Ask_User"), AgentLoopStatus::WaitingForUser);
}

#[test]
fn loop_status_str_all() {
    assert_eq!(loop_status_str(&AgentLoopStatus::Running), "running");
    assert_eq!(loop_status_str(&AgentLoopStatus::Completed), "completed");
    assert_eq!(loop_status_str(&AgentLoopStatus::WaitingForUser), "waiting_for_user");
    assert_eq!(loop_status_str(&AgentLoopStatus::Stopping), "stopping");
    assert_eq!(loop_status_str(&AgentLoopStatus::Stopped), "stopped");
    assert_eq!(loop_status_str(&AgentLoopStatus::Failed), "failed");
}

#[test]
fn format_observation_contains_key_fields() {
    let s = format_observation(&sample_step());
    assert!(s.contains("Step 2"));
    assert!(s.contains("hello"));
    assert!(s.contains("tool_a"));
    assert!(s.contains("result_a"));
}

#[test]
fn format_observation_no_tools() {
    let mut step = sample_step();
    step.tool_calls.clear();
    assert!(format_observation(&step).contains("无"));
}

#[test]
fn build_loop_prompt_includes_goal_step_and_empty_obs() {
    let prompt = build_loop_prompt("my goal", &vec![], 1, 5);
    assert!(prompt.contains("my goal"));
    assert!(prompt.contains("1/5"));
    assert!(prompt.contains("（暂无）"));
}

#[test]
fn build_loop_prompt_includes_observations() {
    let obs = vec!["obs-1".to_string(), "obs-2".to_string()];
    let prompt = build_loop_prompt("g", &obs, 3, 8);
    assert!(prompt.contains("obs-1"));
    assert!(prompt.contains("obs-2"));
    assert!(prompt.contains("3/8"));
}

#[test]
fn reconcile_marks_running_as_interrupted() {
    let mut s = make_snapshot("a", AgentLoopStatus::Running);
    assert!(reconcile_restored_status(&mut s));
    assert_eq!(s.status, AgentLoopStatus::Failed);
    assert_eq!(s.error.as_deref(), Some("interrupted by process restart"));
}

#[test]
fn reconcile_marks_stopping_as_interrupted() {
    let mut s = make_snapshot("a", AgentLoopStatus::Stopping);
    assert!(reconcile_restored_status(&mut s));
    assert_eq!(s.status, AgentLoopStatus::Failed);
}

#[test]
fn reconcile_keeps_terminal_status() {
    let mut s = make_snapshot("a", AgentLoopStatus::Completed);
    assert!(!reconcile_restored_status(&mut s));
    assert_eq!(s.status, AgentLoopStatus::Completed);
}

#[test]
fn agent_loop_actor_prune_keeps_when_under_limit() {
    let items = vec![
        ("a".to_string(), AgentLoopStatus::Completed, 1),
        ("b".to_string(), AgentLoopStatus::Failed, 2),
    ];
    assert!(terminal_ids_to_prune(&items, 5).is_empty());
}

#[test]
fn prune_removes_oldest_terminal_beyond_keep() {
    let items = vec![
        ("old".to_string(), AgentLoopStatus::Completed, 1),
        ("mid".to_string(), AgentLoopStatus::Stopped, 2),
        ("new".to_string(), AgentLoopStatus::Failed, 3),
    ];
    let removed = terminal_ids_to_prune(&items, 1);
    assert_eq!(removed.len(), 2);
    assert!(removed.contains(&"old".to_string()));
    assert!(removed.contains(&"mid".to_string()));
    assert!(!removed.contains(&"new".to_string()));
}

#[test]
fn prune_never_removes_active() {
    let items = vec![
        ("run".to_string(), AgentLoopStatus::Running, 1),
        ("pause".to_string(), AgentLoopStatus::Paused, 2),
        ("done1".to_string(), AgentLoopStatus::Completed, 3),
        ("done2".to_string(), AgentLoopStatus::Completed, 4),
    ];
    let removed = terminal_ids_to_prune(&items, 0);
    assert!(removed.contains(&"done1".to_string()));
    assert!(removed.contains(&"done2".to_string()));
    assert!(!removed.contains(&"run".to_string()));
    assert!(!removed.contains(&"pause".to_string()));
}

#[test]
fn start_rejects_empty_goal() {
    let mut table = AgentLoopTable::new();
    let res = table.start(request("   ", None, 1), 0, 200, 1);
    assert!(res.is_err());
}

#[test]
fn start_clamps_and_defaults() {
    let mut table = AgentLoopTable::new();
    let (snap, _) = table.start(request("  trimmed goal  ", None, 9999), 0, 200, 1).unwrap();
    assert_eq!(snap.goal, "trimmed goal");
    assert_eq!(snap.peer_id, "agent-loop:default");
    assert_eq!(snap.max_steps, MAX_STEPS_CAP);
    assert_eq!(snap.status, AgentLoopStatus::Running);
}

#[test]
fn started_loop_has_a_random_id() {
    let mut table = AgentLoopTable::new();
    let (a, _) = table.start(request("g", None, 1), 0, 200, 1).unwrap();
    let (b, _) = table.start(request("g", None, 1), 0, 200, 1).unwrap();
    assert_ne!(a.id, b.id);
    assert_eq!(a.id.len(), 36);
    assert_eq!(a.id.chars().nth(14), Some('4'));
    for (i, c) in a.id.chars().enumerate() {
        if i == 8 || i == 13 || i == 18 || i == 23 {
            assert_eq!(c, '-');
        } else {
            assert!(c.is_ascii_digit() || ('a'..='f').contains(&c));
        }
    }
}

#[test]
fn start_is_refused_at_the_limit() {
    let mut table = AgentLoopTable::new();
    assert!(table.start_with(request("g", None, 1), 1, 200, "a".into(), 1).is_ok());
    let refused = table.start_with(request("g", None, 1), 1, 200, "b".into(), 1);
    assert!(refused.is_err());
    assert!(table.get("b").is_none());
}

#[test]
fn loop_completes_with_mock_llm() {
    let mut table = AgentLoopTable::new();
    let (snap, _) = table.start(request("g", Some("test:peer"), 5), 0, 200, 1).unwrap();
    let mut run = LoopRun::new(&snap, 0, 60);
    run_all(&mut run, &mut table, &snap.id, "{\"status\":\"done\",\"message\":\"完成\"}");
    let s = table.get(&snap.id).unwrap();
    assert_eq!(s.status, AgentLoopStatus::Completed);
    assert_eq!(s.steps_taken, 1);
}

#[test]
fn stop_request_terminates_loop() {
    let reply = "{\"status\":\"continue\",\"message\":\"x\",\"sleep_seconds\":0}";
    let mut table = AgentLoopTable::new();
    let (snap, _) = table.start(request("g", None, 50), 0, 200, 1).unwrap();
    let mut run = LoopRun::new(&snap, 0, 60);
    assert!(!one_step(&mut run, &mut table, &snap.id, reply));
    assert!(table.stop(&snap.id, 5));
    run_all(&mut run, &mut table, &snap.id, reply);
    assert_eq!(table.get(&snap.id).unwrap().status, AgentLoopStatus::Stopped);
}

#[test]
fn get_and_list_return_loops() {
    let mut table = AgentLoopTable::new();
    let (snap, _) = table.start(request("g1", None, 1), 0, 200, 1).unwrap();
    assert_eq!(table.get(&snap.id).map(|s| s.goal), Some("g1".to_string()));
    assert!(table.list().iter().any(|s| s.id == snap.id));
    assert!(table.get("nope").is_none());
}

#[test]
fn pause_holds_then_resume_completes() {
    let reply = "{\"status\":\"continue\",\"message\":\"x\",\"sleep_seconds\":0}";
    let mut table = AgentLoopTable::new();
    let (snap, _) = table.start(request("g", None, 50), 0, 200, 1).unwrap();
    let id = snap.id.clone();
    let mut run = LoopRun::new(&snap, 0, 60);
    assert!(!one_step(&mut run, &mut table, &id, reply));

    assert!(table.pause(&id, 5));
    assert!(!one_step(&mut run, &mut table, &id, reply));
    assert_eq!(run.stage(), RunStage::Held);
    let s = table.get(&id).unwrap();
    assert_eq!(s.status, AgentLoopStatus::Paused);
    let steps_when_paused = s.steps_taken;

    let (stop, pause) = table.flags(&id).unwrap();
    let out = run.on_hold(stop, pause);
    assert!(!take(out, &mut table));
    let s2 = table.get(&id).unwrap();
    assert_eq!(s2.status, AgentLoopStatus::Paused);
    assert_eq!(s2.steps_taken, steps_when_paused);

    assert!(table.resume(&id, 6));
    let (stop, pause) = table.flags(&id).unwrap();
    let out = run.on_hold(stop, pause);
    let ended = take(out, &mut table);
    assert!(!ended);
    finish_from(&mut run, &mut table, &id, reply);
    assert_eq!(table.get(&id).unwrap().status, AgentLoopStatus::Completed);
}

/// Goes on from wherever a loop stands until it ends.
fn finish_from(run: &mut LoopRun, table: &mut AgentLoopTable, id: &str, reply: &str) {
    for _ in 0..400 {
        let (stop, pause) = table.flags(id).unwrap();
        let out = match run.stage() {
            RunStage::Begin => run.on_begin(stop, pause, 0),
            RunStage::Held => run.on_hold(stop, pause),
            RunStage::Preparing => run.on_prepared(vec![], &vec![], vec![]),
            RunStage::Asking => run.on_answer(Ok(response(reply)), stop, 1, 2),
            RunStage::Tool => run.on_tool_result(None),
            RunStage::Done => return,
        };
        take(out, table);
    }
    panic!("the loop does not end");
}

#[test]
fn pause_resume_rejected_in_wrong_state() {
    let mut table = AgentLoopTable::new();
    let (snap, _) = table.start(request("g", None, 1), 0, 200, 1).unwrap();
    let mut run = LoopRun::new(&snap, 0, 60);
    run_all(&mut run, &mut table, &snap.id, "{\"status\":\"done\",\"message\":\"d\"}");
    assert!(!table.pause(&snap.id, 5));
    assert!(!table.resume(&snap.id, 5));
}

#[test]
fn event_driven_start_creates_loop() {
    let mut table = AgentLoopTable::new();
    let data = Json::object()
        .with("goal", Json::str("event goal"))
        .with("peer_id", Json::str("test:1"))
        .with("max_steps", Json::PosInt(1))
        .with("max_tool_rounds", Json::PosInt(0));
    let r = request_from_event(&Event::new("agent.loop.start", data, "test")).unwrap();
    assert!(table.start(r, 0, 200, 1).is_ok());
    let list = table.list();
    assert_eq!(list.len(), 1);
    assert_eq!(list[0].goal, "event goal");
    assert_eq!(list[0].peer_id, "test:1");
}

#[test]
fn event_without_goal_ignored() {
    let event = Event::new("agent.loop.start", Json::object(), "test");
    assert!(request_from_event(&event).is_none());
}

#[test]
fn model_failure_fails_the_loop() {
    let mut table = AgentLoopTable::new();
    let (snap, _) = table.start(request("g", None, 5), 0, 200, 1).unwrap();
    let mut run = LoopRun::new(&snap, 0, 60);
    take(run.on_begin(false, false, 0), &mut table);
    take(run.on_prepared(vec![], &vec![], vec![]), &mut table);
    let out = run.on_answer(Err(LoopAskError::Llm("down".into())), false, 1, 2);
    assert!(take(out, &mut table));
    let s = table.get(&snap.id).unwrap();
    assert_eq!(s.status, AgentLoopStatus::Failed);
    assert!(s.error.unwrap().contains("down"));
}

#[test]
fn loop_that_runs_too_long_ends() {
    let mut table = AgentLoopTable::new();
    let (snap, _) = table.start(request("g", None, 5), 0, 200, 1).unwrap();
    let mut run = LoopRun::new(&snap, 10, 60);
    let out = run.on_begin(false, false, 10);
    assert!(take(out, &mut table));
    assert_eq!(run.stage(), RunStage::Done);
}

#[test]
fn denied_tools_are_answered_without_being_run() {
    let mut table = AgentLoopTable::new();
    let mut r = request("g", None, 5);
    r.max_tool_rounds = Some(2);
    let (snap, _) = table.start(r, 0, 200, 1).unwrap();
    let mut run = LoopRun::new(&snap, 0, 60);
    take(run.on_begin(false, false, 0), &mut table);
    let def = ToolDef {
        name: "shutdown".into(),
        description: "d".into(),
        parameters: Json::object(),
        internal: false,
    };
    let out = run.on_prepared(vec![], &vec![def], vec!["shutdown".into()]);
    match out.action {
        LoopAction::Ask { request, .. } => assert!(request.tools.is_empty()),
        _ => panic!("the model is asked"),
    }
    let mut answer = response("");
    answer.tool_calls = vec![ToolCall {
        id: "c1".into(),
        name: "shutdown".into(),
        arguments: Json::object(),
    }];
    let out = run.on_answer(Ok(answer), false, 1, 2);
    match out.action {
        LoopAction::Ask { request, .. } => {
            assert_eq!(request.assistant_tool_calls.len(), 1);
            assert_eq!(request.tool_results.len(), 1);
            assert!(request.tool_results[0].contains("shutdown"));
        }
        _ => panic!("the model is asked again"),
    }
}

#[test]
fn allowed_tools_are_run_and_counted() {
    let mut table = AgentLoopTable::new();
    let mut r = request("g", None, 5);
    r.max_tool_rounds = Some(2);
    let (snap, _) = table.start(r, 0, 200, 1).unwrap();
    let mut run = LoopRun::new(&snap, 0, 60);
    take(run.on_begin(false, false, 0), &mut table);
    take(run.on_prepared(vec![], &vec![], vec![]), &mut table);
    let mut answer = response("");
    answer.tool_calls = vec![ToolCall {
        id: "c1".into(),
        name: "echo".into(),
        arguments: Json::object(),
    }];
    let out = run.on_answer(Ok(answer), false, 1, 2);
    match out.action {
        LoopAction::RunTool { name, .. } => assert_eq!(name, "echo"),
        _ => panic!("the tool is run"),
    }
    let out = run.on_tool_result(Some(ToolResult::ok("fine")));
    assert!(out.effects.iter().any(|e| matches!(e, Effect::RecordTool { success: true, .. })));
    match out.action {
        LoopAction::Ask { request, .. } => assert!(request.tool_results[0].contains("fine")),
        _ => panic!("the model is asked again"),
    }
}

#[test]
fn restored_loops_do_not_run_on() {
    let mut table = AgentLoopTable::new();
    let changed = table.restore(make_snapshot("a", AgentLoopStatus::Running), 9);
    assert_eq!(changed.unwrap().status, AgentLoopStatus::Failed);
    assert_eq!(table.get("a").unwrap().status, AgentLoopStatus::Failed);
    assert!(table.restore(make_snapshot("b", AgentLoopStatus::Completed), 9).is_none());
}

#[test]
fn limits_of_loops_have_defaults() {
    assert_eq!(agent_loop_max_concurrent(None), 0);
    assert_eq!(agent_loop_max_concurrent(Some("3")), 3);
    assert_eq!(agent_loop_max_duration_secs(None), 0);
    assert_eq!(agent_loop_max_duration_secs(Some("90")), 90);
    assert_eq!(agent_loop_max_sleep_secs(None), 60);
    assert_eq!(agent_loop_max_sleep_secs(Some("-1")), 60);
    assert_eq!(agent_loop_max_keep(None), 200);
    assert_eq!(agent_loop_max_keep(Some("7")), 7);
    assert!(agent_loop_tool_deny(None).is_empty());
    assert_eq!(agent_loop_tool_deny(Some(" a, ,b ")), vec!["a".to_string(), "b".to_string()]);
}
