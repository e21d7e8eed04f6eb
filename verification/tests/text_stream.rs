use bn_agent::text_stream::{visible_segment, TextStreamState};

#[test]
fn text_stream_buffers_until_sentence_boundary() {
    let mut state = TextStreamState::default();
    assert!(state.push_chunk("req", "你好").is_empty());
    assert_eq!(state.push_chunk("req", "呀！"), vec!["你好呀！"]);
    assert!(state.take_streamed_request("req"));
}

#[test]
fn text_stream_flushes_remainder() {
    let mut state = TextStreamState::default();
    assert!(state.push_chunk("req", "未结束的一句").is_empty());
    assert_eq!(state.flush("req"), vec!["未结束的一句"]);
    assert!(state.take_streamed_request("req"));
    assert!(state.flush("req").is_empty());
}

#[test]
fn text_stream_ignores_tiny_fragments() {
    let mut state = TextStreamState::default();
    assert!(state.push_chunk("req", "！").is_empty());
    assert!(!state.take_streamed_request("req"));
}

#[test]
fn several_sentences_come_out_one_by_one() {
    let mut state = TextStreamState::default();
    let got = state.push_chunk("r", "One. two!  Three?\nrest");
    assert_eq!(got, vec!["One. two!", "Three?"]);
    assert_eq!(state.flush("r"), vec!["rest"]);
}

#[test]
fn long_text_comes_out_without_an_end() {
    let mut state = TextStreamState::default();
    let long: String = "ab".repeat(80);
    assert_eq!(state.push_chunk("r", &long[..159]).len(), 0);
    assert_eq!(state.push_chunk("r", "b"), vec![long]);
    assert!(state.flush("r").is_empty());
}

#[test]
fn streamed_request_is_taken_once() {
    let mut state = TextStreamState::default();
    state.push_chunk("r", "ok!");
    assert!(state.take_streamed_request("r"));
    assert!(!state.take_streamed_request("r"));
    assert!(state.push_chunk("  ", "ok!").is_empty());
    assert!(state.push_chunk("r", "").is_empty());
    assert!(!state.take_streamed_request(" "));
}

#[test]
fn no_more_than_the_limit_is_remembered() {
    let mut state = TextStreamState::default();
    for i in 0..300 {
        state.push_chunk(&format!("r{}", i), "ok!");
    }
    let mut known = 0;
    for i in 0..300 {
        if state.take_streamed_request(&format!("r{}", i)) {
            known += 1;
        }
    }
    assert_eq!(known, 256);
}

#[test]
fn one_character_is_not_worth_showing() {
    assert!(!visible_segment(" a "));
    assert!(visible_segment("a b"));
    assert!(!visible_segment(""));
}

#[test]
fn newest_request_is_never_forgotten() {
    let mut state = TextStreamState::default();
    for i in 0..600 {
        state.push_chunk(&format!("r{}", i), "ok!");
        if i % 2 == 1 {
            assert!(state.take_streamed_request(&format!("r{}", i)));
        }
    }
    state.push_chunk("last", "ok!");
    assert!(state.take_streamed_request("last"));
}

#[test]
fn answer_follows_what_was_handed_on() {
    let mut state = TextStreamState::default();
    state.push_chunk("a", "one!");
    state.push_chunk("b", "no end");
    assert!(!state.take_streamed_request("b"));
    assert!(state.take_streamed_request("a"));
    assert_eq!(state.flush("b"), vec!["no end"]);
    assert!(!state.take_streamed_request("a"));
    state.push_chunk("a", "two!");
    assert!(state.take_streamed_request("b"));
    assert!(state.take_streamed_request("a"));
}

#[test]
fn asking_for_another_request_with_all_places_taken_forgets_none() {
    let mut state = TextStreamState::default();
    for i in 0..256 {
        state.push_chunk(&format!("r{}", i), "ok!");
    }
    assert!(!state.take_streamed_request("other"));
    assert!(state.push_chunk("other", "no end").is_empty());
    for i in 0..256 {
        assert!(state.take_streamed_request(&format!("r{}", i)));
    }
}
