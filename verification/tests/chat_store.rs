use bn_agent::chat_store::{
    chat_history_max_per_peer,
    message_parts_from, normalize_session_list_limit, to_records, HistoryRow, HistoryStore,
};
use bn_agent::json::Json;
use bn_agent::session_text::{
    build_session_summary, compact_whitespace, derive_session_title, truncate_chars,
};

fn store_of(messages: &[(&str, &str, &str)]) -> HistoryStore {
    let mut rows: Vec<HistoryRow> = Vec::new();
    for (peer, role, content) in messages {
        rows.push(HistoryRow {
            id: rows.len() as i64 + 1,
            role: role.to_string(),
            content: content.to_string(),
            peer_id: peer.to_string(),
            message_json: None,
            created_at: 0,
        });
    }
    let next = rows.len() as i64 + 1;
    HistoryStore::load(rows, None, next).unwrap()
}

fn store_with(counts: &[(&str, usize)]) -> HistoryStore {
    let mut rows: Vec<HistoryRow> = Vec::new();
    for (peer, n) in counts {
        for i in 0..*n {
            rows.push(HistoryRow {
                id: rows.len() as i64 + 1,
                role: "user".into(),
                content: format!("msg-{}", i),
                peer_id: peer.to_string(),
                message_json: None,
                created_at: 0,
            });
        }
    }
    let next = rows.len() as i64 + 1;
    HistoryStore::load(rows, None, next).unwrap()
}

fn count(store: &HistoryStore, peer: &str) -> usize {
    store.rows().iter().filter(|r| r.peer_id == peer).count()
}

#[test]
fn chat_store_prune_keeps_when_under_limit() {
    let mut store = store_with(&[("p1", 5)]);
    assert_eq!(store.prune_peer_history("p1", 10), 0);
    assert_eq!(count(&store, "p1"), 5);
}

#[test]
fn prune_removes_excess_oldest() {
    let mut store = store_with(&[("p1", 10)]);
    assert_eq!(store.prune_peer_history("p1", 3), 7);
    assert_eq!(count(&store, "p1"), 3);
}

#[test]
fn prune_zero_keep_disables() {
    let mut store = store_with(&[("p1", 5)]);
    assert_eq!(store.prune_peer_history("p1", 0), 0);
    assert_eq!(count(&store, "p1"), 5);
}

#[test]
fn prune_only_affects_target_peer() {
    let mut store = store_with(&[("p1", 10), ("p2", 4)]);
    store.prune_peer_history("p1", 2);
    assert_eq!(count(&store, "p1"), 2);
    assert_eq!(count(&store, "p2"), 4);
}

#[test]
fn prune_keeps_most_recent() {
    let mut store = store_with(&[("p1", 5)]);
    store.prune_peer_history("p1", 2);
    let contents: Vec<String> = store
        .rows()
        .iter()
        .filter(|r| r.peer_id == "p1")
        .map(|r| r.content.clone())
        .collect();
    assert_eq!(contents, vec!["msg-3", "msg-4"]);
}

#[test]
fn derive_session_title_prefers_first_user_message() {
    let title =
        derive_session_title(Some("  hello\nthere  "), Some("assistant fallback"), "telegram:1");
    assert_eq!(title, "hello there");
}

#[test]
fn refresh_session_metadata_builds_title_and_summary() {
    let mut store = store_of(&[
        ("telegram:1", "assistant", "先打个招呼"),
        ("telegram:1", "user", "  我 想 记录 一件事  "),
        ("telegram:1", "assistant", "好的，继续说"),
    ]);

    let session = store.refresh_session_metadata("telegram:1", 7).expect("session summary");

    assert_eq!(session.peer_id, "telegram:1");
    assert_eq!(session.title, "我 想 记录 一件事");
    assert_eq!(session.message_count, 3);
    assert!(session.summary.contains("助手：先打个招呼"));
    assert!(session.summary.contains("用户：我 想 记录 一件事"));
}

#[test]
fn rebuild_all_session_metadata_indexes_existing_peers() {
    let mut store =
        store_of(&[("telegram:1", "user", "第一段对话"), ("wechat:2", "user", "第二段对话")]);

    assert_eq!(store.rebuild_all_session_metadata(7), 2);
    let sessions = store.list_session_summaries(None, 0);

    assert_eq!(sessions.len(), 2);
    assert!(sessions.iter().any(|s| s.peer_id == "telegram:1"));
    assert!(sessions.iter().any(|s| s.peer_id == "wechat:2"));
}

#[test]
fn list_session_summaries_can_filter_exact_peer() {
    let mut store =
        store_of(&[("telegram:1", "user", "第一段对话"), ("wechat:2", "user", "第二段对话")]);
    store.rebuild_all_session_metadata(7);

    let sessions = store.list_session_summaries(Some("wechat:2"), 100);

    assert_eq!(sessions.len(), 1);
    assert_eq!(sessions[0].peer_id, "wechat:2");
    assert_eq!(sessions[0].title, "第二段对话");
}

#[test]
fn fetch_long_summary_batch_excludes_recent_window() {
    let mut store = store_with(&[("telegram:1", 6)]);

    let batch = store.fetch_long_summary_batch("telegram:1", 2, 10, 7).expect("summary batch");

    assert_eq!(batch.peer_id, "telegram:1");
    assert_eq!(batch.summarized_until_id, 0);
    let contents: Vec<_> = batch.records.iter().map(|r| r.content.as_str()).collect();
    assert_eq!(contents, vec!["msg-0", "msg-1", "msg-2", "msg-3"]);
}

#[test]
fn update_long_summary_advances_cursor() {
    let mut store = store_with(&[("telegram:1", 6)]);
    let batch = store.fetch_long_summary_batch("telegram:1", 2, 10, 7).expect("summary batch");
    let until = batch.records.last().unwrap().id;

    let summary =
        store.update_chat_long_summary("telegram:1", "长期摘要", until, 8).expect("long summary");

    assert_eq!(summary.summary, "长期摘要");
    assert_eq!(summary.summarized_until_id, until);
    assert!(store.fetch_long_summary_batch("telegram:1", 2, 10, 9).is_none());
}

#[test]
fn long_summary_never_goes_back() {
    let mut store = store_with(&[("telegram:1", 6)]);
    store.fetch_long_summary_batch("telegram:1", 2, 10, 7);
    store.update_chat_long_summary("telegram:1", "new", 4, 8);
    let kept = store.update_chat_long_summary("telegram:1", "old", 2, 9).unwrap();
    assert_eq!(kept.summarized_until_id, 4);
}

#[test]
fn appended_messages_are_read_back_in_order() {
    let mut store = HistoryStore::new();
    store.append_pair("q", "a", "web:1", 0, 5);
    store.append_record("user", "again", "web:1", 0, 6);
    let rows = store.fetch_recent(2, "web:1");
    let contents: Vec<_> = rows.iter().map(|r| r.content.as_str()).collect();
    assert_eq!(contents, vec!["a", "again"]);
    assert_eq!(to_records(&rows)[0].role, "assistant");
}

#[test]
fn stored_json_keeps_its_text_and_its_parts() {
    let mut store = HistoryStore::new();
    let text = Json::object()
        .with("role", Json::str("assistant"))
        .with("content", Json::str("hi"))
        .text();
    store.append_json_message(&text, "web:1", 0, 5);
    let row = &store.rows()[0];
    assert_eq!(row.role, "assistant");
    assert_eq!(row.content, "hi");
    assert_eq!(row.message_json.as_deref(), Some(text.as_str()));
}

#[test]
fn message_that_is_no_json_has_a_role_all_the_same() {
    let (role, content) = message_parts_from("plain", &Json::parse("plain"));
    assert!(!role.is_empty());
    assert_eq!(content, "plain");
}

#[test]
fn owner_gets_stray_messages_and_stays_owner() {
    let mut store = store_of(&[("", "user", "stray"), ("other:1", "user", "x")]);
    assert_eq!(store.ensure_owner_peer("web:me", 5).as_deref(), Some("web:me"));
    assert_eq!(count(&store, "web:me"), 1);
    assert_eq!(count(&store, "other:1"), 1);
    store.ensure_owner_peer("web:you", 6);
    assert_eq!(count(&store, "web:me"), 1);
    assert_eq!(count(&store, "web:you"), 0);
}

#[test]
fn clear_all_counts_the_rows() {
    let mut store = store_with(&[("p1", 3), ("p2", 2)]);
    assert_eq!(store.clear_all(), 5);
    assert!(store.rows().is_empty());
}

#[test]
fn list_limit_has_a_default_and_a_cap() {
    assert_eq!(normalize_session_list_limit(0), 100);
    assert_eq!(normalize_session_list_limit(7), 7);
    assert_eq!(normalize_session_list_limit(9999), 500);
}

#[test]
fn whitespace_is_compacted_and_long_text_cut() {
    assert_eq!(compact_whitespace("  a \n b\t c "), "a b c");
    assert_eq!(truncate_chars("abc", 5), "abc");
    assert!(truncate_chars("abcdef", 3).starts_with("ab"));
    let lines = vec![("user".to_string(), "q".to_string()), ("assistant".to_string(), "a".to_string())];
    let summary = build_session_summary(&lines, 100);
    assert!(summary.contains("用户：q"));
    assert!(summary.contains("助手：a"));
}

#[test]
fn kept_history_is_limited_by_a_setting() {
    assert_eq!(chat_history_max_per_peer(None), 1000);
    assert_eq!(chat_history_max_per_peer(Some("0")), 0);
    assert_eq!(chat_history_max_per_peer(Some("x")), 1000);
}
