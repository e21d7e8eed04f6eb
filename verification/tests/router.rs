use bn_agent::event::Event;
use bn_agent::json::Json;
use bn_agent::router::{build_route_payload, peer_id_from_data, ChannelState, MessageRouter};

fn ch(source: &str, chat_id: Option<&str>) -> ChannelState {
    ChannelState {
        source: source.to_string(),
        chat_id: chat_id.map(String::from),
        peer_id: chat_id.map(|c| format!("{}:{}", source, c)),
        updated_at: 0,
    }
}

fn registry(items: Vec<ChannelState>) -> MessageRouter {
    let mut router = MessageRouter::new();
    for item in items {
        router.insert(item);
    }
    router
}

#[test]
fn empty_source_broadcasts_to_all() {
    let reg = registry(vec![ch("telegram", Some("1")), ch("feishu", Some("oc_x"))]);
    assert_eq!(reg.resolve_targets("", &None, &None, 0).len(), 2);
}

#[test]
fn unknown_source_broadcasts() {
    let reg = registry(vec![ch("telegram", Some("1"))]);
    assert_eq!(reg.resolve_targets("unknown", &None, &None, 0).len(), 1);
}

#[test]
fn known_source_targets_single() {
    let reg = registry(vec![ch("telegram", Some("1")), ch("feishu", Some("oc_x"))]);
    let targets = reg.resolve_targets("feishu", &None, &None, 0);
    assert_eq!(targets.len(), 1);
    assert_eq!(targets[0].source, "feishu");
}

#[test]
fn unknown_named_source_falls_back_to_broadcast() {
    let reg = registry(vec![ch("telegram", Some("1")), ch("feishu", Some("oc_x"))]);
    assert_eq!(reg.resolve_targets("wechat", &None, &None, 0).len(), 2);
}

#[test]
fn no_channels_uses_requested_as_temp() {
    let reg = MessageRouter::new();
    let targets = reg.resolve_targets(
        "telegram",
        &Some("123".to_string()),
        &Some("telegram:123".to_string()),
        0,
    );
    assert_eq!(targets.len(), 1);
    assert_eq!(targets[0].source, "telegram");
    assert_eq!(targets[0].chat_id.as_deref(), Some("123"));
}

#[test]
fn payload_numeric_chat_id_is_i64() {
    let p = build_route_payload("hi", "telegram", &Some("123".to_string()), &None);
    assert_eq!(p.get("chat_id"), Some(&Json::integer(123)));
    assert_eq!(p.str_at("text"), Some("hi"));
    assert_eq!(p.str_at("source"), Some("telegram"));
}

#[test]
fn payload_non_numeric_chat_id_is_string() {
    let p = build_route_payload("hi", "wechat", &Some("wxid_abc".to_string()), &None);
    assert_eq!(p.get("chat_id"), Some(&Json::str("wxid_abc")));
}

#[test]
fn payload_includes_peer_id_and_omits_missing_chat_id() {
    let p = build_route_payload("hi", "telegram", &None, &Some("telegram:1".to_string()));
    assert_eq!(p.get("peer_id"), Some(&Json::str("telegram:1")));
    assert!(p.get("chat_id").is_none());
}

#[test]
fn user_messages_make_channels_known() {
    let mut router = MessageRouter::new();
    let data = Json::object().with("platform", Json::str("feishu")).with("chat_id", Json::integer(7));
    assert!(router.on_event(&Event::new("user.message", data, "x"), 5).is_empty());
    let out = router.on_event(
        &Event::new("route.message", Json::object().with("text", Json::str("hi")), "x"),
        6,
    );
    assert_eq!(out.len(), 1);
    assert_eq!(out[0].topic, "assistant.message");
    assert_eq!(out[0].source, "message-router");
    assert_eq!(out[0].data.str_at("peer_id"), Some("feishu:7"));
    assert_eq!(out[0].data.get("chat_id"), Some(&Json::integer(7)));
}

#[test]
fn blank_messages_and_other_topics_are_dropped() {
    let mut router = registry(vec![ch("telegram", Some("1"))]);
    let blank = Json::object().with("text", Json::str("  "));
    assert!(router.on_event(&Event::new("proactive.message", blank, "x"), 1).is_empty());
    let text = Json::object().with("text", Json::str("hi"));
    assert!(router.on_event(&Event::new("other", text, "x"), 1).is_empty());
}

#[test]
fn peers_are_named_or_made_of_source_and_id() {
    let named = Json::object().with("peer_id", Json::str(" p:1 "));
    assert_eq!(peer_id_from_data(&named, "s").as_deref(), Some("p:1"));
    let user = Json::object().with("user_id", Json::str("u"));
    assert_eq!(peer_id_from_data(&user, "s").as_deref(), Some("s:u"));
    assert_eq!(peer_id_from_data(&user, ""), None);
    assert_eq!(peer_id_from_data(&Json::object(), "s"), None);
}
