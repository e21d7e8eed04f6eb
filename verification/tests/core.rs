use bn_agent::active::ActiveRequest;
use bn_agent::bus::{propagate, stamped, EventBus};
use bn_agent::claude::{
    build_tools_system_prompt, call_of, chat_prompt, parse_tool_calls, plain_prompt, read_command,
};
use bn_agent::core_agent::{
    answer_chat, api_port, echo, followup_request, read_user_message, tell_result, Asked,
    Conversation, ConversationStep, UserMessage,
};
use bn_agent::core_llm::{
    build_messages, build_request, describe_core_fault, history_limit, is_stored, offer_tools,
    persona_of, read_choice, read_completion, ChatRecord, ChatStore, CoreFault, LlmConfig,
    LlmResponse, RawCall,
};
use bn_agent::chat::ChatMessage;
use bn_agent::event::Event;
use bn_agent::json::Json;
use bn_agent::metrics::Metrics;
use bn_agent::rate::RateLimitConfig;
use bn_agent::tool::{ToolCall, ToolRegistry, ToolResult};

fn config() -> LlmConfig {
    LlmConfig::from_settings(Some("key"), None, None, None, Some("sys"), Some("2")).unwrap()
}

#[test]
fn settings_have_defaults_and_need_a_key() {
    let c = LlmConfig::from_settings(None, Some("k"), None, None, None, Some("x")).unwrap();
    assert_eq!(c.api_key, "k");
    assert_eq!(c.model, "deepseek-chat");
    assert_eq!(c.base_url, "https://api.deepseek.com/v1");
    assert_eq!(c.max_history_turns, 20);
    let e = LlmConfig::from_settings(None, None, None, None, None, None).err().unwrap();
    assert_eq!(e, "LLM_API_KEY 或 OPENAI_API_KEY 未设置");
    assert_eq!(persona_of(Some("  p ")).as_deref(), Some("p"));
    assert_eq!(persona_of(Some(" ")), None);
    assert_eq!(api_port(Some("70000")), 3000);
    assert_eq!(api_port(Some("80")), 80);
    assert_eq!(RateLimitConfig::from_settings(None, None), RateLimitConfig::default());
    assert_eq!(RateLimitConfig::from_settings(Some("60"), Some("x")).requests_per_minute, 60);
}

#[test]
fn history_is_kept_by_chat() {
    let mut store = ChatStore::load(vec![], 1);
    for i in 0..3 {
        assert_eq!(store.append(7, "user", &format!("m{}", i), "t"), i + 1);
    }
    store.append(8, "user", "other", "t");
    let rows = store.recent(7, 2);
    assert_eq!(rows.iter().map(|r| r.content.as_str()).collect::<Vec<_>>(), vec!["m1", "m2"]);
    assert_eq!(store.clear(7), 3);
    assert!(store.recent(7, 10).is_empty());
    assert_eq!(store.recent(8, 10).len(), 1);
    store.clear_all();
    assert!(store.recent(8, 10).is_empty());
}

#[test]
fn model_is_told_the_history_and_the_contexts() {
    let row = |role: &str| ChatRecord {
        id: 1,
        chat_id: 1,
        role: role.into(),
        content: role.into(),
        created_at: "t".into(),
    };
    let history = vec![row("user"), row("tool"), row("assistant")];
    let c = config();
    let told = build_messages(&c, &history, false, &vec!["ctx".into()], "hi");
    let roles: Vec<_> = told.iter().map(|m| m.role.as_str()).collect();
    assert_eq!(roles, vec!["system", "user", "assistant", "assistant", "user"]);
    assert_eq!(told[3].content, "ctx");
    assert_eq!(build_messages(&c, &history, true, &vec![], "hi").len(), 5);
    assert_eq!(history_limit(&c), 4);
    let (url, body) = build_request(&c, &told, true);
    assert_eq!(url, "https://api.deepseek.com/v1/chat/completions");
    assert_eq!(body.get("max_tokens"), Some(&Json::PosInt(2048)));
    assert!(body.text().contains("\"temperature\":0.7"));
    assert!(body.text().contains("json_object"));
}

#[test]
fn replies_are_read_or_refused() {
    let ok = "{\"choices\":[{\"message\":{\"content\":\"hi\"}}],\"usage\":{\"prompt_cache_hit_tokens\":5}}";
    let r = read_completion(true, "200 OK", ok).unwrap();
    assert_eq!(r.content, "hi");
    assert_eq!(r.cache_hit_tokens, 5);
    assert_eq!(r.cache_miss_tokens, 0);
    assert_eq!(read_completion(false, "500", "x").err().unwrap(), "API 错误 (x): 500");
    assert_eq!(read_completion(true, "200", "{}").err().unwrap(), "响应格式异常: {}");
    let e = read_completion(true, "200", "{").err().unwrap();
    assert!(e.starts_with("解析响应失败: EOF while parsing"));
    assert_eq!(describe_core_fault(CoreFault::Send, "e"), "请求失败: e");
}

#[test]
fn tools_and_choices_are_read() {
    let f = Json::object().with("name", Json::str("a")).with("parameters", Json::object());
    let tools = vec![Json::object().with("function", f), Json::object()];
    let got = offer_tools(&tools);
    assert_eq!(got.len(), 1);
    assert_eq!(got[0].name, "a");
    assert_eq!(got[0].description, "");
    let calls = vec![
        RawCall { id: "1".into(), name: "a".into(), arguments: "{\"x\":1}".into() },
        RawCall { id: "2".into(), name: "b".into(), arguments: "no".into() },
    ];
    let r = read_choice(None, Some(3), &calls);
    assert_eq!(r.content, "");
    assert_eq!(r.cache_hit_tokens, 3);
    assert_eq!(r.tool_calls[0].arguments.get("x"), Some(&Json::PosInt(1)));
    assert_eq!(r.tool_calls[1].arguments, Json::Null);
    assert!(is_stored(false, "a"));
    assert!(!is_stored(true, "a"));
    assert!(!is_stored(false, " "));
}

fn said(content: &str, cached: u64, calls: Vec<ToolCall>) -> Asked {
    Asked::Answered(LlmResponse {
        content: content.into(),
        cache_hit_tokens: cached,
        cache_miss_tokens: 0,
        tool_calls: calls,
    })
}

fn text_of(step: ConversationStep) -> Option<String> {
    match step {
        ConversationStep::Reply(e) => e.data.str_at("text").map(String::from),
        _ => None,
    }
}

#[test]
fn conversations_take_their_steps() {
    let data = Json::object().with("text", Json::str("hi")).with("chat_id", Json::integer(7));
    let m = read_user_message(&data);
    assert_eq!(
        m,
        UserMessage {
            text: "hi".into(),
            chat_id: Some(7),
            user_name: "unknown".into(),
            source: "".into()
        }
    );
    let (c, q) = Conversation::begin(&m, vec![], vec!["ctx".into()]);
    assert_eq!(q.chat_id, 7);
    assert!(!q.skip_store);
    let reg = ToolRegistry::new();
    assert_eq!(text_of(c.on_answer(&said("yo", 0, vec![]), &reg)).as_deref(), Some("yo"));
    assert_eq!(
        text_of(c.on_answer(&Asked::Refused("e".into()), &reg)).as_deref(),
        Some("抱歉，出错了: e")
    );
    assert!(matches!(c.on_answer(&Asked::Unreached, &reg), ConversationStep::Done));
    assert!(matches!(c.on_answer(&said(" ", 0, vec![]), &reg), ConversationStep::Done));
    match c.on_answer(&said(" ", 4, vec![]), &reg) {
        ConversationStep::Again(q) => {
            assert!(q.skip_store);
            assert!(q.contexts.is_empty());
            assert_eq!(q.message, "hi");
        }
        _ => panic!("the model is asked again"),
    }
    assert_eq!(text_of(c.on_second_answer(&said("yo", 0, vec![]))).as_deref(), Some("yo"));
    assert!(matches!(c.on_second_answer(&Asked::Unreached), ConversationStep::Done));
    let call = ToolCall { id: "1".into(), name: "none".into(), arguments: Json::object() };
    match c.on_answer(&said("", 0, vec![call]), &reg) {
        ConversationStep::Run(calls) => assert!(calls.is_empty()),
        _ => panic!("the calls are run"),
    }
    assert_eq!(echo(&m).data.str_at("text"), Some("你说: hi"));
}

#[test]
fn results_are_told_to_the_model() {
    assert_eq!(tell_result("x", &None), "工具 'x' 未找到");
    assert_eq!(tell_result("x", &Some(ToolResult::ok("r"))), "r");
    assert_eq!(tell_result("x", &Some(ToolResult::err("e"))), "错误: e");
    let q = followup_request(None, "hi", &vec![("1".into(), "r".into())]);
    assert_eq!(q.message, "用户原始消息: hi\n\n工具执行结果：\n[1] r\n");
    assert_eq!(q.chat_id, 0);
    assert!(q.tools.is_empty());
    assert_eq!(answer_chat(&Err("e".into())).status, 500);
}

#[test]
fn calls_are_cut_out_of_a_text() {
    let text = " before <tool_call>{\"name\":\"a\",\"arguments\":{\"k\":1}}</tool_call> mid <tool_call>bad</tool_call><tool_call>{}</tool_call> after ";
    let (calls, rest) = parse_tool_calls(text);
    assert_eq!(calls.len(), 2);
    assert_eq!(calls[0].id, "call_0");
    assert_eq!(calls[0].name, "a");
    assert_eq!(calls[0].arguments.get("k"), Some(&Json::PosInt(1)));
    assert_eq!(calls[1].id, "call_1");
    assert_eq!(calls[1].name, "tool");
    assert_eq!(rest, "before  mid  after");
    let (none, same) = parse_tool_calls("a <tool_call> b");
    assert!(none.is_empty());
    assert_eq!(same, "a <tool_call> b");
    assert!(call_of(&None, 0).is_none());
}

#[test]
fn command_line_models_are_asked_and_read() {
    let messages = vec![ChatMessage::system("s"), ChatMessage::user("u"), ChatMessage::with_role("x", "y")];
    assert_eq!(plain_prompt(&messages), "[System]\ns\n\nUser: u\n\nx: y");
    assert_eq!(chat_prompt(&vec![], &vec!["a".into(), "b".into()], "m"), "a\nb\n\nm");
    assert_eq!(build_tools_system_prompt(&vec![]), "");
    let f = Json::object().with("name", Json::str("t"));
    let tools = vec![Json::object().with("function", f)];
    let prompt = chat_prompt(&tools, &vec![], "m");
    assert!(prompt.contains("- t:  (null)\n"));
    assert!(prompt.ends_with("</tool_call>\n\n\nm"));
    let r = read_command("mind", true, Some(0), " hi \n", "").unwrap();
    assert_eq!(r.content, "hi");
    assert_eq!(r.model, "mind-cli");
    assert_eq!(read_command("mind", true, Some(0), " ", "").err().unwrap(), "empty response");
    assert_eq!(read_command("mind", false, None, "", " e ").err().unwrap(), "exit -1: e");
}

#[test]
fn events_reach_their_recipients() {
    let mut bus: EventBus<u32> = EventBus::new();
    bus.subscribe("a", 1);
    bus.subscribe("*", 2);
    bus.subscribe("a", 3);
    assert_eq!(bus.recipients("a"), vec![&1, &3, &2]);
    assert_eq!(bus.recipients("b"), vec![&2]);
    assert_eq!(bus.recipients("*"), vec![&2]);
    bus.unsubscribe("a", |r| *r != 1);
    assert_eq!(bus.recipients("a"), vec![&3, &2]);
    let e = stamped(Event::new("a", Json::Null, "s"), 9);
    assert_eq!(e.timestamp, 9);
    assert_eq!(propagate(4, |i| i != 1), 2);
    assert_eq!(propagate(2, |_| true), 2);
    assert_eq!(propagate(0, |_| false), 0);
}

#[test]
fn newer_requests_replace_older_ones() {
    let mut active: ActiveRequest<u32> = ActiveRequest::new();
    assert_eq!(active.register("a", 1), None);
    assert_eq!(active.register("b", 2), Some(1));
    active.deregister("a");
    assert_eq!(active.cancel(), Some(2));
    assert_eq!(active.cancel(), None);
    active.register("c", 3);
    active.deregister("c");
    assert_eq!(active.cancel(), None);
}

#[test]
fn counts_are_told() {
    let mut m = Metrics::new();
    m.record_llm_call("x");
    m.record_tool_call("t", true, 10);
    m.record_tool_call("t", false, 20);
    m.record_error("llm_api");
    assert_eq!(m.llm_calls(), 1);
    assert_eq!(m.tool_stats()[0].total_duration_ms, 30);
    assert_eq!(m.model_counts(), vec![("x".to_string(), 1)]);
    let text = m.text("1.5", "0.5", "2", &vec!["15".into()]);
    assert!(text.starts_with("# HELP bn_agent_uptime_seconds Agent uptime\n"));
    assert!(text.contains("bn_agent_llm_calls_total{model=\"x\"} 1\n"));
    assert!(text.contains("bn_agent_tool_calls_total{tool=\"t\",status=\"failure\"} 1\n"));
    assert!(text.contains("bn_agent_tool_duration_ms{tool=\"t\"} 15\n"));
    assert!(text.ends_with("bn_agent_errors_total{category=\"llm_api\"} 1\n"));
    let v = m.json(
        Json::Float("1.5".into()),
        Json::Float("0.5".into()),
        Json::Float("2.0".into()),
        &vec![Json::Float("0.5".into())],
        &vec![Json::Float("15.0".into())],
    );
    assert!(v.text().contains("\"avg_duration_ms\":15.0"));
    assert!(v.text().contains("\"errors\":{\"llm_api\":1}"));
}

#[test]
fn model_calls_add_up_whatever_the_order() {
    let mut m = Metrics::new();
    for model in ["x", "y", "x", "z", "x"] {
        m.record_error("e");
        m.record_llm_call(model);
        m.record_tool_call(model, model == "x", 1);
    }
    assert_eq!(m.llm_calls(), 5);
    assert_eq!(m.model_counts().iter().map(|(_, n)| n).sum::<u64>(), 5);
    assert_eq!((m.model_count("x"), m.model_count("y"), m.model_count("w")), (3, 1, 0));
    assert_eq!(m.error_count("e"), 5);
    let x = m.tool_count("x");
    assert_eq!((x.total, x.successes, x.failures), (3, 3, 0));
    let y = m.tool_count("y");
    assert_eq!((y.total, y.successes, y.failures), (1, 0, 1));
    assert_eq!(m.tool_stats().len(), 3);
}
