use bn_agent::chat::{ChatMessage, ChatRequest, LlmResponse};
use bn_agent::chat_store::{message_parts_from, Record};
use bn_agent::effect::Effect;
use bn_agent::event::{plugin_log, read_plugin_log, HostLogLevel};
use bn_agent::json::Json;
use bn_agent::llm_chat::{
    completions_url, immediate_context_msgs, plain_request, plain_text, ChatRun, RunStep,
};
use bn_agent::llm_config::{LlmConfig, LlmSettings};
use bn_agent::llm_reply::{describe_refusal, read_reply, should_fallback_to_tools};
use bn_agent::llm_stream::StreamState;
use bn_agent::llm_text::{build_tool_hint, load_jailbreak_prompts, prompts_of_rows, truncate_preview};
use bn_agent::numbers::{parse_i64, parse_u64, signed_decimal_string};
use bn_agent::order::sort_places;
use bn_agent::server::web_chat_request;
use bn_agent::text::{is_word, split_at_char, trimmed};

fn settings() -> LlmSettings {
    LlmSettings {
        llm_api_key: Some("k".into()),
        openai_api_key: None,
        model: None,
        base_url: Some("http://x/v1/".into()),
        max_history: None,
        max_tokens: None,
        thinking: None,
        image_model: None,
        image_base_url: None,
        image_api_key: None,
        video_model: None,
        video_base_url: None,
        video_api_key: None,
        persona: None,
        jailbreak_prompts: vec![],
    }
}

fn config(prompts: Vec<String>) -> LlmConfig {
    let mut s = settings();
    s.jailbreak_prompts = prompts;
    LlmConfig::from_settings(s).unwrap()
}

fn request(message: &str) -> ChatRequest {
    web_chat_request(message, vec![], vec![], "id")
}

fn answer(content: &str) -> LlmResponse {
    LlmResponse {
        content: content.into(),
        model: "m".into(),
        prompt_tokens: 0,
        completion_tokens: 0,
        prompt_cache_hit_tokens: 0,
        prompt_cache_miss_tokens: 0,
        tool_calls: vec![],
    }
}

fn temperature() -> Json {
    Json::Float("0.7".into())
}

fn system_text(body: &Json) -> String {
    body.get("messages").unwrap().item(0).unwrap().str_at("content").unwrap().to_string()
}

#[test]
fn configuration_has_defaults_and_needs_a_key() {
    let c = config(vec![]);
    assert_eq!(c.model, "deepseek-chat");
    assert_eq!(c.image_base_url, "http://x/v1/");
    assert_eq!(c.max_tokens, 384000);
    let mut s = settings();
    s.llm_api_key = None;
    assert_eq!(
        LlmConfig::from_settings(s).err().unwrap(),
        "LLM_API_KEY or OPENAI_API_KEY not set"
    );
    assert_eq!(completions_url("http://x/v1/"), "http://x/v1/chat/completions");
}

#[test]
fn drawn_prompt_is_one_of_the_list() {
    let tool = Json::object().with("function", Json::object().with("name", Json::str("t")));
    for _ in 0..20 {
        let mut r = request("hi");
        r.tools = vec![tool.clone()];
        let prompts = vec!["P-one".to_string(), "P-two".to_string()];
        let (_, call) = ChatRun::start(config(prompts), r, &vec![], temperature());
        let system = system_text(&call.body);
        assert!(system.contains("P-one") != system.contains("P-two"));
    }
    let mut r = request("hi");
    r.jailbreak_index = Some(1);
    let prompts = vec!["P-one".to_string(), "P-two".to_string()];
    let (_, call) = ChatRun::start_with(config(prompts), r, &vec![], temperature(), 0);
    assert!(system_text(&call.body).contains("P-two"));
}

#[test]
fn history_goes_before_the_message() {
    let records = vec![
        Record { role: "user".into(), content: "old".into(), created_at: 1, message_json: None },
        Record {
            role: "tool".into(),
            content: "".into(),
            created_at: 2,
            message_json: Some("{\"role\":\"tool\",\"content\":\"r\"}".into()),
        },
    ];
    let (_, call) = ChatRun::start(config(vec![]), request("new"), &records, temperature());
    let text = call.body.text();
    assert!(text.find("old").unwrap() < text.find("new").unwrap());
    assert_eq!(call.api_url, "http://x/v1/chat/completions");
    assert_eq!(call.api_key, "k");
    assert!(call.stream);
    assert_eq!(call.body.get("stream"), Some(&Json::Bool(true)));
}

#[test]
fn picture_that_is_not_understood_is_tried_without() {
    let mut r = request("look");
    r.image_base64 = Some("AAAA".into());
    let (mut run, call) = ChatRun::start(config(vec![]), r, &vec![], temperature());
    assert_eq!(call.body.str_at("model"), Some("mimo-v2.5"));
    match run.on_result(Err("no".into()), temperature()) {
        RunStep::Call(c) => {
            assert_eq!(c.body.str_at("model"), Some("deepseek-chat"));
            assert!(c.body.text().contains("image_understand"));
        }
        _ => panic!("it is tried again"),
    }
    match run.on_result(Ok(answer("fine")), temperature()) {
        RunStep::Finish { result, effects } => {
            assert_eq!(result.unwrap().content, "fine");
            let stored: Vec<String> = effects
                .iter()
                .filter_map(|e| match e {
                    Effect::Store { message_json, .. } => Some(message_json.clone()),
                    _ => None,
                })
                .collect();
            assert_eq!(
                stored,
                vec![
                    "{\"content\":\"look\",\"role\":\"user\"}",
                    "{\"content\":\"fine\",\"role\":\"assistant\"}"
                ]
            );
        }
        _ => panic!("it is done"),
    }
}

#[test]
fn failures_are_not_kept() {
    let (mut run, _) = ChatRun::start(config(vec![]), request("q"), &vec![], temperature());
    match run.on_result(Err("no".into()), temperature()) {
        RunStep::Finish { effects, .. } => assert!(effects.is_empty()),
        _ => panic!("it is done"),
    }
    assert!(should_fallback_to_tools(&Ok(answer(" x "))));
    assert!(!should_fallback_to_tools(&Ok(answer("xy"))));
}

#[test]
fn plain_requests_have_their_own_limits() {
    let (call, event) =
        plain_request(&config(vec![]), &vec![ChatMessage::user("q")], None, temperature(), None);
    assert_eq!(call.body.get("max_tokens"), Some(&Json::PosInt(1024)));
    assert!(!call.stream);
    assert_eq!(event.topic, "llm.request");
}

#[test]
fn streams_are_put_together_whatever_the_pieces() {
    let text = "data: {\"model\":\"m\",\"choices\":[{\"delta\":{\"content\":\"he\"}}]}\n\ndata: {\"choices\":[{\"delta\":{\"content\":\"llo\",\"tool_calls\":[{\"index\":0,\"id\":\"1\",\"function\":{\"name\":\"t\",\"arguments\":\"{\\\"a\\\"\"}}]}}]}\ndata: {\"choices\":[{\"delta\":{\"tool_calls\":[{\"index\":0,\"function\":{\"arguments\":\":1}\"}}]}}],\"usage\":{\"prompt_tokens\":3}}\ndata: [DONE]\n";
    let mut whole = StreamState::new();
    assert!(whole.has_room(text));
    let events = whole.push(text);
    let mut parts = StreamState::new();
    let mut seen = 0;
    for c in text.chars() {
        seen += parts.push(&c.to_string()).len();
    }
    assert_eq!(events.len(), seen);
    let (a, _) = whole.finish();
    let (b, event) = parts.finish();
    assert_eq!(a, b);
    assert_eq!(a.content, "hello");
    assert_eq!(a.prompt_tokens, 3);
    assert_eq!(a.tool_calls.len(), 1);
    assert_eq!(a.tool_calls[0].arguments.get("a"), Some(&Json::PosInt(1)));
    assert!(event.topic.starts_with("llm."));
}

#[test]
fn replies_are_read() {
    let body = Json::parse("{\"choices\":[{\"message\":{\"content\":\"hi\"}}],\"model\":\"m\",\"usage\":{\"completion_tokens\":2}}").unwrap();
    let (r, _) = read_reply(true, 200, &body);
    let r = r.unwrap();
    assert_eq!(r.content, "hi");
    assert_eq!(r.completion_tokens, 2);
    let refused = Json::parse("{\"error\":{\"message\":\"bad key\"}}").unwrap();
    assert_eq!(describe_refusal(401, &refused), "LLM API error (401): bad key");
    let (r, _) = read_reply(false, 401, &refused);
    assert_eq!(r.err().unwrap(), "LLM API error (401): bad key");
    assert_eq!(describe_refusal(500, &Json::Null), "LLM API error (500): unknown error");
}

#[test]
fn prompts_come_from_the_third_field() {
    let data = b"id,name,prompt\n1,a,\" first, one \"\n2,b,\n3,c,second\n";
    assert_eq!(load_jailbreak_prompts(data), vec!["first, one".to_string(), "second".to_string()]);
    let rows = vec![None, Some(vec!["a".to_string()]), Some(vec!["".into(), "".into(), " x ".into()])];
    assert_eq!(prompts_of_rows(&rows), vec!["x".to_string()]);
}

#[test]
fn json_is_read_and_written() {
    let j = Json::parse(" { \"b\" : [1, -2, 2.5, null, true] , \"a\":\"x\" } ").unwrap();
    assert_eq!(j.text(), "{\"a\":\"x\",\"b\":[1,-2,2.5,null,true]}");
    assert_eq!(j.get("b").unwrap().item(1).unwrap().as_i64(), Some(-2));
    assert_eq!(j.get("b").unwrap().as_array().unwrap().len(), 5);
    assert!(Json::parse("{").is_none());
    assert!(Json::parse_or_reason("{").err().unwrap().contains("EOF"));
    assert_eq!(Json::object().with("k", Json::Null).set("k", Json::Bool(true)).text(), "{\"k\":true}");
    assert_eq!(Json::object().with("k", Json::Null).with_default("k", Json::Bool(true)).text(), "{\"k\":null}");
}

#[test]
fn plugin_lines_are_sent_and_read() {
    let e = plugin_log("p", "warn", "careful");
    let line = read_plugin_log(&e).unwrap();
    assert_eq!(line.level, HostLogLevel::Warn);
    assert_eq!(line.plugin, "p");
    assert_eq!(line.message, "careful");
}

#[test]
fn numbers_texts_and_orders() {
    assert_eq!(parse_i64("-42"), Some(-42));
    assert_eq!(parse_u64("+7"), Some(7));
    assert_eq!(parse_u64("-7"), None);
    assert_eq!(parse_u64("18446744073709551616"), None);
    assert_eq!(signed_decimal_string(-9), "-9");
    assert_eq!(trimmed("\u{3000} a \n"), "a");
    assert_eq!(split_at_char("a,,b", ','), vec!["a", "", "b"]);
    assert!(is_word("DeBuG", "debug"));
    assert_eq!(sort_places(&vec![3, 1, 2], false), vec![1, 2, 0]);
    assert_eq!(sort_places(&vec![3, 1, 2], true), vec![0, 2, 1]);
    assert_eq!(truncate_preview("abc", 10), "abc");
    let f = Json::object().with("name", Json::str("send_it")).with("description", Json::str("d"));
    let hint = build_tool_hint(&vec![Json::object(), Json::object().with("function", f)]);
    assert!(hint.ends_with("\n\n【Send Tools (direct to user chat)】\n- send_it：d\n"));
    assert_eq!(build_tool_hint(&vec![]), build_tool_hint(&vec![Json::object()]));
}

#[test]
fn written_message_is_found_under_its_role_and_text() {
    for content in ["hi", "", "say \"x\"\n{}", "你好"] {
        let raw = plain_text("assistant", content);
        let parts = message_parts_from(&raw, &Json::parse(&raw));
        assert_eq!(parts, ("assistant".to_string(), content.to_string()));
    }
}

#[test]
fn told_history_is_limited_by_a_setting() {
    assert_eq!(immediate_context_msgs(None), 200);
    assert_eq!(immediate_context_msgs(Some("12")), 12);
    assert_eq!(immediate_context_msgs(Some("many")), 200);
}

#[test]
fn every_streamed_call_is_in_the_answer() {
    let mut state = StreamState::new();
    state.push("data: {\"choices\":[{\"delta\":{\"tool_calls\":[{\"index\":0,\"id\":\"c1\",\"function\":{\"name\":\"f\",\"arguments\":\"{\"}}]}}]}\n");
    state.push("data: {\"choices\":[{\"delta\":{\"tool_calls\":[{\"index\":0,\"id\":\"\",\"function\":{\"arguments\":\"}\"}}]}}]}\n");
    state.push("data: {\"choices\":[{\"delta\":{\"tool_calls\":[{\"index\":1,\"id\":\"c2\",\"function\":{\"name\":\"g\",\"arguments\":\"{}\"}}]}}]}\n");
    state.push("data: [DONE]\n");
    let (r, _) = state.finish();
    let calls: Vec<(&str, &str, String)> = r
        .tool_calls
        .iter()
        .map(|c| (c.id.as_str(), c.name.as_str(), c.arguments.text()))
        .collect();
    assert_eq!(calls, vec![("c1", "f", "{}".to_string()), ("c2", "g", "{}".to_string())]);
}

#[test]
fn streamed_parts_before_any_call_are_dropped() {
    let mut state = StreamState::new();
    state.push("data: {\"choices\":[{\"delta\":{\"tool_calls\":[{\"function\":{\"name\":\"f\"}}]}}]}\n");
    assert!(state.finish().0.tool_calls.is_empty());
}

#[test]
fn configured_rounds_limit_the_told_history() {
    let records: Vec<Record> = (0..6)
        .map(|i| Record {
            role: if i % 2 == 0 { "user".into() } else { "assistant".into() },
            content: format!("m{}", i),
            created_at: i,
            message_json: None,
        })
        .collect();
    let told = |turns: &str| {
        let mut s = settings();
        s.max_history = Some(turns.into());
        let c = LlmConfig::from_settings(s).unwrap();
        let (_, call) = ChatRun::start(c, request("new"), &records, temperature());
        let messages = call.body.get("messages").unwrap();
        let mut out = Vec::new();
        for i in 1..messages.as_array().unwrap().len() {
            out.push(messages.item(i).unwrap().str_at("content").unwrap().to_string());
        }
        out
    };
    assert_eq!(told("1"), vec!["m4", "m5", "new"]);
    assert_eq!(told("2"), vec!["m2", "m3", "m4", "m5", "new"]);
    assert_eq!(told("20").len(), 7);
    assert_eq!(told("0"), vec!["new"]);
    assert_eq!(told("18446744073709551615").len(), 7);
}
