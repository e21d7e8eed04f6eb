use bn_agent::chat::LlmResponse;
use bn_agent::effect::{Effect, Next, Step};
use bn_agent::event::Event;
use bn_agent::inbound::{build_proactive_prompt, job_from_event, job_from_text};
use bn_agent::json::Json;
use bn_agent::peer::{chat_id_from_peer_id, derive_peer_id};
use bn_agent::pipeline::{max_tool_rounds, AskError, Exchange, Stage};
use bn_agent::tool::{ToolCall, ToolDef, ToolResult};
use bn_agent::usage::BudgetCheck;

#[test]
fn proactive_prompt_with_note_is_reminder_only() {
    let prompt = build_proactive_prompt("3秒后叫主人", "scheduled", None);

    assert!(prompt.contains("[系统·定时提醒]"));
    assert!(prompt.contains("只完成这条定时提醒"));
    assert!(prompt.contains("不要问“叫我干嘛”"));
}

#[test]
fn proactive_prompt_without_note_stays_open_ended() {
    let prompt = build_proactive_prompt("", "scheduled", None);

    assert!(prompt.contains("[系统·主动消息]"));
    assert!(!prompt.contains("[系统·定时提醒]"));
}

#[test]
fn proactive_prompt_for_autonomous_idle_is_distinct() {
    let prompt = build_proactive_prompt("", "autonomous_idle", Some(1800));

    assert!(prompt.contains("[系统·自主主动]"));
    assert!(prompt.contains("用户已经沉默约 1800 秒"));
    assert!(prompt.contains("[NO_PROACTIVE]"));
    assert!(prompt.contains("不要提及系统提示、沉默时间或主动插件"));
}

fn answer(content: &str, calls: &[&str]) -> LlmResponse {
    LlmResponse {
        content: content.into(),
        model: "m".into(),
        prompt_tokens: 3,
        completion_tokens: 4,
        prompt_cache_hit_tokens: 0,
        prompt_cache_miss_tokens: 3,
        tool_calls: calls
            .iter()
            .map(|n| ToolCall {
                id: format!("id-{n}"),
                name: n.to_string(),
                arguments: Json::object(),
            })
            .collect(),
    }
}

fn asking(text: &str) -> Exchange {
    let mut e = Exchange::new(job_from_text(text, "web", "u", "web:1"), 5);
    e.on_rate_limit(true);
    e.budget_with(None, "id".into());
    e.on_prepared(vec![], &vec![]);
    e
}

fn published(step: &Step) -> Vec<&Event> {
    step.effects
        .iter()
        .filter_map(|e| match e {
            Effect::Publish(event) => Some(event),
            _ => None,
        })
        .collect()
}

fn stored(step: &Step) -> Vec<Json> {
    step.effects
        .iter()
        .filter_map(|e| match e {
            Effect::Store { message_json, .. } => Json::parse(message_json),
            _ => None,
        })
        .collect()
}

#[test]
fn limited_message_is_told_so_and_not_asked() {
    let mut e = Exchange::new(job_from_text("hi", "web", "u", "web:1"), 5);
    let step = e.on_rate_limit(false);
    assert_eq!(published(&step)[0].data.str_at("text"), Some("⏳ 请求过于频繁，请稍后再试。"));
    assert!(matches!(step.next, Next::Finish));
    assert_eq!(e.stage(), Stage::Done);
}

#[test]
fn used_up_budget_stops_the_message() {
    let mut e = Exchange::new(job_from_text("hi", "web", "u", "web:1"), 5);
    e.on_rate_limit(true);
    let step = e.on_budget(Some(BudgetCheck {
        allowed: false,
        period: Some("daily".into()),
        used: 9,
        limit: 8,
    }));
    let text = published(&step)[0].data.str_at("text").unwrap().to_string();
    assert_eq!(text, "🪙 Token 额度（daily）已用尽（9/8），请稍后再试。");
    assert_eq!(e.stage(), Stage::Done);
}

#[test]
fn first_request_carries_the_visible_tools() {
    let mut e = Exchange::new(job_from_text("hi", "web", "u", "web:1"), 5);
    e.on_rate_limit(true);
    e.on_budget(Some(BudgetCheck::allow()));
    let defs: Vec<ToolDef> = ["a", "b"]
        .iter()
        .map(|n| ToolDef {
            name: n.to_string(),
            description: "d".into(),
            parameters: Json::object(),
            internal: *n == "b",
        })
        .collect();
    let step = e.on_prepared(vec!["ctx".into()], &defs);
    match step.next {
        Next::Ask { request, max_retries } => {
            assert_eq!(max_retries, 3);
            assert_eq!(request.tools.len(), 1);
            assert_eq!(request.contexts, vec!["ctx".to_string()]);
            assert_eq!(request.request_id.len(), 36);
            assert!(request.stream);
        }
        _ => panic!("the model is asked"),
    }
}

#[test]
fn plain_answer_is_published_once() {
    let mut e = asking("hi");
    let step = e.on_answer(Ok(answer("hello", &[])));
    let events = published(&step);
    assert_eq!(events.len(), 1);
    assert_eq!(events[0].topic, "route.message");
    assert_eq!(events[0].data.str_at("text"), Some("hello"));
    assert!(stored(&step).is_empty());
    assert!(step.effects.iter().any(|e| matches!(e, Effect::RecordUsage { prompt_tokens: 3, .. })));
    assert_eq!(e.stage(), Stage::Done);
}

#[test]
fn failure_is_told_and_recorded() {
    let mut e = asking("hi");
    let step = e.on_answer(Err(AskError::Llm("down".into())));
    assert_eq!(published(&step)[0].data.str_at("text"), Some("抱歉，出错了：down"));
    assert!(step.effects.iter().any(|e| matches!(e, Effect::RecordError { category } if category == "llm_api")));
    assert_eq!(e.stage(), Stage::Done);
}

#[test]
fn rounds_of_tools_are_handed_back_and_stored() {
    let mut e = asking("hi");
    let step = e.on_answer(Ok(answer("", &["a", "b"])));
    assert!(matches!(step.next, Next::RunTool { ref name, .. } if name == "a"));
    let step = e.on_tool_result(Some(ToolResult::ok("ra")));
    assert!(matches!(step.next, Next::RunTool { ref name, .. } if name == "b"));
    let step = e.on_tool_result(None);
    match step.next {
        Next::Ask { request, .. } => {
            assert_eq!(request.assistant_tool_calls.len(), 2);
            assert_eq!(request.tool_results.len(), 2);
            assert!(request.skip_store);
            assert_eq!(request.request_id, "id-t1");
        }
        _ => panic!("the model is asked again"),
    }
    let step = e.on_answer(Ok(answer("done", &[])));
    let messages = stored(&step);
    assert_eq!(messages.len(), 4);
    assert_eq!(messages[0].str_at("role"), Some("assistant"));
    assert_eq!(messages[1].str_at("tool_call_id"), Some("id-a"));
    assert_eq!(messages[2].str_at("tool_call_id"), Some("id-b"));
    assert_eq!(messages[3].str_at("content"), Some("done"));
    assert_eq!(published(&step).len(), 1);
}

#[test]
fn reply_sent_by_a_tool_is_not_sent_twice() {
    let mut e = asking("hi");
    e.on_answer(Ok(answer("", &["tg_send_message"])));
    e.on_tool_result(Some(ToolResult::ok("sent")));
    let step = e.on_answer(Ok(answer("done", &[])));
    let events = published(&step);
    assert_eq!(events.len(), 1);
    assert_eq!(events[0].data.get("silent"), Some(&Json::Bool(true)));
}

#[test]
fn trigger_without_anything_to_say_leaves_no_trace() {
    let data = Json::object()
        .with("peer_id", Json::str("web:1"))
        .with("reason", Json::str("autonomous_idle"));
    let job = job_from_event(&Event::new("proactive.trigger", data, "p")).unwrap();
    assert!(!job.allow_tools);
    let mut e = Exchange::new(job, 5);
    e.on_rate_limit(true);
    e.budget_with(None, "id".into());
    e.on_prepared(vec![], &vec![]);
    let step = e.on_answer(Ok(answer(" [NO_PROACTIVE] ", &[])));
    assert!(published(&step).is_empty());
    assert!(stored(&step).is_empty());
}

#[test]
fn empty_messages_and_other_topics_make_no_job() {
    assert!(job_from_event(&Event::new("user.message", Json::object(), "p")).is_none());
    assert!(job_from_event(&Event::new("other", Json::object(), "p")).is_none());
}

#[test]
fn peers_are_made_and_taken_apart() {
    assert_eq!(chat_id_from_peer_id("telegram:12", "telegram").as_deref(), Some("12"));
    assert_eq!(chat_id_from_peer_id("telegram:12", "wechat"), None);
    assert_eq!(chat_id_from_peer_id("telegram:", ""), None);
    let data = Json::object().with("chat_id", Json::integer(-5));
    assert_eq!(derive_peer_id(&data, "telegram").as_deref(), Some("telegram:-5"));
    assert_eq!(max_tool_rounds(Some("x")), max_tool_rounds(None));
}

#[test]
fn picture_description_joins_the_result_of_its_call() {
    let mut e = asking("draw");
    e.on_answer(Ok(answer("", &["generate_image", "a"])));
    let drawn = ToolResult::ok_with_metadata(
        "made",
        Json::object().with("image_base64", Json::str("AAAA")),
    );
    let step = e.on_tool_result(Some(drawn));
    if let Next::DescribeImage { .. } = step.next {
        let step = e.on_description(Some(ToolResult::ok("a cat")));
        assert!(matches!(step.next, Next::RunTool { ref name, .. } if name == "a"));
        let step = e.on_tool_result(Some(ToolResult::ok("ra")));
        match step.next {
            Next::Ask { request, .. } => {
                assert_eq!(request.assistant_tool_calls.len(), 2);
                assert_eq!(request.tool_results.len(), 2);
                assert!(request.tool_results[0].ends_with("\n【自动图片理解】\na cat"));
            }
            _ => panic!("the model is asked again"),
        }
    } else {
        panic!("the picture is described");
    }
}

fn registrations(step: &Step) -> Vec<(bool, &str)> {
    step.effects
        .iter()
        .filter_map(|e| match e {
            Effect::Register { request_id } => Some((true, request_id.as_str())),
            Effect::Deregister { request_id } => Some((false, request_id.as_str())),
            _ => None,
        })
        .collect()
}

#[test]
fn request_is_registered_until_it_is_over() {
    let mut e = Exchange::new(job_from_text("hi", "web", "u", "web:1"), 5);
    assert!(registrations(&e.on_rate_limit(true)).is_empty());
    assert_eq!(registrations(&e.budget_with(None, "id".into())), vec![(true, "id")]);
    assert!(registrations(&e.on_prepared(vec![], &vec![])).is_empty());
    assert!(registrations(&e.on_answer(Ok(answer("", &["a"])))).is_empty());
    assert!(registrations(&e.on_tool_result(None)).is_empty());
    let step = e.on_answer(Ok(answer("done", &[])));
    assert_eq!(registrations(&step), vec![(false, "id")]);
    assert!(matches!(step.effects.last(), Some(Effect::Deregister { .. })));
}

#[test]
fn cancelled_request_says_nothing_more() {
    let mut e = asking("hi");
    let step = e.on_cancelled();
    assert_eq!(step.effects, vec![Effect::Deregister { request_id: "id".into() }]);
    assert!(matches!(step.next, Next::Finish));
    assert_eq!(e.stage(), Stage::Done);
}

#[test]
fn stopped_message_is_not_registered() {
    let mut e = Exchange::new(job_from_text("hi", "web", "u", "web:1"), 5);
    e.on_rate_limit(true);
    let stopped = BudgetCheck { allowed: false, period: None, used: 1, limit: 1 };
    assert!(registrations(&e.on_budget(Some(stopped))).is_empty());
}

#[test]
fn each_request_gets_its_own_id() {
    let id = || {
        let mut e = Exchange::new(job_from_text("hi", "web", "u", "web:1"), 5);
        e.on_rate_limit(true);
        let step = e.on_budget(None);
        registrations(&step)[0].1.to_string()
    };
    let (a, b) = (id(), id());
    assert_eq!(a.len(), 36);
    assert_ne!(a, b);
}
