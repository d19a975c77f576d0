use codex_usage_tray::json::Json;
use codex_usage_tray::json_text::parse_json;
use codex_usage_tray::sessions::{
    first_bytes, scan_session_file, split_lines, tally_event, token_count_from_event, token_i64,
    Tally,
};

fn json(text: &str) -> Json {
    parse_json(text).expect("a JSON document")
}

#[test]
fn token_count_parser_ignores_prompt_content() {
    let event = json(
        r#"{
            "timestamp": "2026-06-16T10:00:00Z",
            "type": "event_msg",
            "payload": {
                "type": "token_count",
                "info": {"last_token_usage": {"input_tokens": 10, "cached_input_tokens": 3, "output_tokens": 4}}
            },
            "message": "this prompt text is ignored"
        }"#,
    );
    assert_eq!(token_count_from_event(&event), 17);
}

#[test]
fn tokens_of_events() {
    let tokens = |text: &str| token_count_from_event(&json(text));
    assert_eq!(tokens("null"), 0);
    assert_eq!(tokens(r#"{"payload": {"type": "message", "input_tokens": 5}}"#), 0);
    assert_eq!(tokens(r#"{"payload": {"type": "token_count", "input_tokens": 5}}"#), 5);
    assert_eq!(
        tokens(r#"{"payload": {"type": "x"}, "event_msg": {"type": "token_count", "output_tokens": 6}}"#),
        6
    );
    assert_eq!(
        tokens(r#"{"payload": {"type": "token_count", "info": {"total_token_usage": {"cache_read_input_tokens": 7}}}}"#),
        7
    );
    assert_eq!(
        tokens(r#"{"payload": {"type": "token_count", "info": {"last_token_usage": null, "total_token_usage": {"input_tokens": 7}}}}"#),
        0
    );
    assert_eq!(tokens(r#"{"payload": {"type": "token_count", "input_tokens": -5, "output_tokens": 2}}"#), 0);
    assert_eq!(tokens(r#"{"payload": {"type": "token_count", "input_tokens": 1.5, "output_tokens": 2}}"#), 2);
    assert_eq!(token_i64(&json(r#"{"a": -3}"#), "a"), -3);
    assert_eq!(token_i64(&json(r#"{"a": 9223372036854775808}"#), "a"), 0);
    assert_eq!(token_i64(&json("[]"), "a"), 0);
}

#[test]
fn only_the_payload_counts() {
    let plain = json(r#"{"payload": {"type": "token_count", "input_tokens": 8}}"#);
    let noisy = json(r#"{"input_tokens": 99, "text": "token_count", "payload": {"type": "token_count", "input_tokens": 8}}"#);
    assert_eq!(token_count_from_event(&plain), token_count_from_event(&noisy));
}

#[test]
fn lines_agree_with_those_of_a_text() {
    for s in ["", "a", "a\n", "a\nb", "a\r\nb\r\n", "\n\n", "a\r", "\r\n\r", "天\n地"] {
        let expected: Vec<&str> = s.lines().collect();
        assert_eq!(split_lines(s), expected, "{:?}", s);
    }
}

#[test]
fn first_bytes_end_between_characters() {
    for s in ["", "2026-06-16T10", "2026-06-1", "2026-06-16", "天天天天", "aé天a\u{10000}b", "2026-06-1é"] {
        for bytes in 0..14 {
            assert_eq!(first_bytes(s, bytes).as_deref(), s.get(..bytes), "{:?} {}", s, bytes);
        }
    }
}

const LOG: &str =
    "{\"timestamp\":\"2026-06-16T10:00:00Z\",\"payload\":{\"type\":\"token_count\",\"input_tokens\":10}}\r\n\
     not json but token_count\n\
     {\"timestamp\":\"2026-06-16T23:00:00Z\",\"payload\":{\"type\":\"token_count\",\"output_tokens\":5}}\n\
     {\"timestamp\":\"2026-06-17T00:00:00Z\",\"payload\":{\"type\":\"token_count\"}}\n\
     {\"timestamp\":\"short\",\"payload\":{\"type\":\"token_count\",\"output_tokens\":5}}\n\
     {\"payload\":{\"type\":\"token_count\",\"output_tokens\":5}}\n\
     {\"timestamp\":\"2026-06-18T00:00:00Z\",\"payload\":{\"type\":\"token\\u005fcount\",\"output_tokens\":5}}\n\
     {\"timestamp\":\"2026-06-19T00:00:00Z\",\"event_msg\":{\"type\":\"token_count\",\"output_tokens\":2}}";

#[test]
fn logs_are_counted_by_day() {
    let mut tally = Tally::new();
    assert_eq!(tally.max(), 0);
    scan_session_file(LOG, &mut tally);
    assert_eq!(tally.get("2026-06-16"), 15);
    assert_eq!(tally.get("2026-06-17"), 0);
    assert_eq!(tally.get("2026-06-18"), 0);
    assert_eq!(tally.get("2026-06-19"), 2);
    assert_eq!(tally.get("short"), 0);
    assert_eq!(tally.max(), 15);
    scan_session_file(LOG, &mut tally);
    assert_eq!(tally.get("2026-06-16"), 30);
    assert_eq!(tally.max(), 30);
}

#[test]
fn order_of_logs_does_not_matter() {
    let other = "{\"timestamp\":\"2026-06-16\",\"payload\":{\"type\":\"token_count\",\"input_tokens\":1}}";
    let mut a = Tally::new();
    scan_session_file(LOG, &mut a);
    scan_session_file(other, &mut a);
    let mut b = Tally::new();
    scan_session_file(other, &mut b);
    scan_session_file(LOG, &mut b);
    for day in ["2026-06-16", "2026-06-19"] {
        assert_eq!(a.get(day), b.get(day));
    }
    assert_eq!(a.get("2026-06-16"), 16);
}

#[test]
fn tallies_add_up() {
    let mut tally = Tally::new();
    tally.credit("a", 3);
    tally.credit("b", 9);
    tally.credit("a", 4);
    assert_eq!(tally.get("a"), 7);
    assert_eq!(tally.get("b"), 9);
    assert_eq!(tally.get("c"), 0);
    assert_eq!(tally.max(), 9);
    tally.credit("b", u64::MAX);
    assert_eq!(tally.get("b"), 8);
    tally_event(
        &mut tally,
        &json(r#"{"timestamp": "2026-01-02T", "payload": {"type": "token_count", "input_tokens": 1}}"#),
    );
    assert_eq!(tally.get("2026-01-02"), 1);
}

#[test]
fn two_logs_count_like_one() {
    let first = "{\"timestamp\":\"2026-06-16\",\"payload\":{\"type\":\"token_count\",\"input_tokens\":1}}\n";
    let second = "{\"timestamp\":\"2026-06-16\",\"payload\":{\"type\":\"token_count\",\"input_tokens\":9223372036854775807}}\n";
    let mut apart = Tally::new();
    scan_session_file(first, &mut apart);
    scan_session_file(second, &mut apart);
    let mut joined = Tally::new();
    scan_session_file(&format!("{}{}", first, second), &mut joined);
    assert_eq!(apart.get("2026-06-16"), 9223372036854775808);
    assert_eq!(joined.get("2026-06-16"), 9223372036854775808);
    scan_session_file(second, &mut joined);
    scan_session_file(first, &mut joined);
    assert_eq!(joined.get("2026-06-16"), 0);
}

#[test]
fn counts_of_either_sign_are_summed() {
    let tokens = |text: &str| token_count_from_event(&json(text));
    assert_eq!(tokens(r#"{"payload": {"type": "token_count", "input_tokens": -5, "cached_input_tokens": 9, "output_tokens": 2}}"#), 6);
    assert_eq!(tokens(r#"{"payload": {"type": "token_count", "input_tokens": -5, "cached_input_tokens": 5}}"#), 0);
    assert_eq!(
        tokens(r#"{"payload": {"type": "token_count", "input_tokens": 9223372036854775807, "cached_input_tokens": -7}}"#),
        9223372036854775800
    );
}
