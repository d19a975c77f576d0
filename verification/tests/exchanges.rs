use codex_usage_tray::exchange::{request_lines, response_payload, Event, Exchange, Flow, Step};
use codex_usage_tray::executable::codex_app_server_help;
use codex_usage_tray::json::Json;
use codex_usage_tray::json_text::parse_json;
use codex_usage_tray::settings::Platform;
use codex_usage_tray::time::Timestamp;

const NOW: Timestamp = Timestamp { secs: 1_781_600_000, nanos: 0 };
const ACCOUNT: &str = r#"{"id": 2, "result": {"email": "u@example.com", "planType": "plus"}}"#;
const LIMITS: &str = r#"{"id": 3, "result": {"rateLimits": {"primary": {"usedPercent": 44}}}}"#;

fn json(text: &str) -> Json {
    parse_json(text).expect("a JSON document")
}

#[test]
fn requests_are_compact_lines() {
    assert_eq!(
        request_lines("1.2.3"),
        vec![
            r#"{"id":1,"method":"initialize","params":{"clientInfo":{"name":"win-codex-usage-tray","title":"Codex Usage Tray","version":"1.2.3"}}}"#,
            r#"{"method":"initialized"}"#,
            r#"{"id":2,"method":"account/read","params":{"refreshToken":false}}"#,
            r#"{"id":3,"method":"account/rateLimits/read","params":{}}"#,
        ]
    );
}

#[test]
fn requests_escape_the_version() {
    assert!(request_lines("\"\n")[0].ends_with(r#""version":"\"\n"}}}"#));
}

#[test]
fn content_of_replies() {
    let content = |text: &str| response_payload(&json(text)).map(|v| format!("{:?}", v));
    let expected = |text: &str| Some(format!("{:?}", json(text)));
    assert_eq!(content(r#"{"params": 1, "result": 2}"#), expected("2"));
    assert_eq!(content(r#"{"payload": [1, {"a": null}], "params": false}"#), expected("false"));
    assert_eq!(content(r#"{"payload": [1, {"a": null}]}"#), expected(r#"[1, {"a": null}]"#));
    assert_eq!(content(r#"{"result": null}"#), expected("null"));
    assert_eq!(content("{}"), None);
    assert_eq!(content("[]"), None);
}

#[test]
fn both_replies_make_a_snapshot() {
    let mut exchange = Exchange::new();
    assert!(matches!(exchange.next_step(20_000_000_000), Step::Wait(250_000_000)));
    assert!(matches!(exchange.take_event(Event::Line(format!("  {}\r\n", LIMITS))), Flow::Continue));
    assert!(matches!(exchange.next_step(1_000), Step::Wait(1_000)));
    assert!(matches!(exchange.take_event(Event::Silence), Flow::Continue));
    assert!(matches!(exchange.take_event(Event::Line(ACCOUNT.to_string())), Flow::Continue));
    assert!(matches!(exchange.next_step(0), Step::Conclude));
    assert!(!exchange.timed_out);
    let usage = exchange.conclude_at(None, Platform::Other, NOW).unwrap();
    assert_eq!(usage.account_email.as_deref(), Some("u@example.com"));
    assert_eq!(usage.plan_type.as_deref(), Some("plus"));
    assert_eq!(usage.updated_at, NOW);
}

#[test]
fn order_of_replies_does_not_matter() {
    let read = |lines: [&str; 2]| {
        let mut exchange = Exchange::new();
        for line in lines {
            exchange.take_line(line);
        }
        format!("{:?}", exchange.conclude_at(None, Platform::Other, NOW))
    };
    assert_eq!(read([ACCOUNT, LIMITS]), read([LIMITS, ACCOUNT]));
}

#[test]
fn rate_limits_suffice() {
    let mut exchange = Exchange::new();
    exchange.take_line(LIMITS);
    exchange.take_line(r#"{"id": 2, "error": {"code": -1}}"#);
    assert!(matches!(exchange.next_step(0), Step::Conclude));
    assert!(exchange.timed_out);
    let usage = exchange.conclude(Some("exit status: 1".to_string()), Platform::MacOs).unwrap();
    assert_eq!(usage.account_email, None);
    assert!(usage.updated_at.secs > 1_700_000_000);
}

#[test]
fn other_lines_are_ignored() {
    let mut exchange = Exchange::new();
    for line in ["", "  ", "[1]", "{oops", "2", "{}", r#"{"id": "2", "result": 1}"#, r#"{"id": 4, "result": 1}"#, r#"{"id": 2.0, "result": 1}"#] {
        exchange.take_line(line);
    }
    assert!(exchange.account.is_none());
    assert!(exchange.rate_limits.is_none());
    assert!(exchange.last_error.is_none());
}

#[test]
fn reply_without_content_takes_content_back() {
    let mut exchange = Exchange::new();
    exchange.take_line(LIMITS);
    assert!(exchange.rate_limits.is_some());
    exchange.take_line(r#"{"id": 3}"#);
    assert!(exchange.rate_limits.is_none());
}

#[test]
fn last_error_is_the_complaint() {
    let mut exchange = Exchange::new();
    exchange.take_line(r#"{"error": "first"}"#);
    exchange.take_line(r#"{"id": 3, "error": { "code" : -32600, "message": "bad" }}"#);
    exchange.next_step(0);
    assert_eq!(
        exchange.conclude_at(Some("x".to_string()), Platform::Other, NOW).unwrap_err(),
        r#"{"code":-32600,"message":"bad"}"#
    );
    let mut exchange = Exchange::new();
    exchange.absorb(&json("{}"), Some("given".to_string()));
    assert_eq!(exchange.conclude_at(None, Platform::Other, NOW).unwrap_err(), "given");
}

#[test]
fn complaints_without_an_error() {
    let hint = codex_app_server_help(Platform::Windows);
    let mut late = Exchange::new();
    assert!(matches!(late.next_step(0), Step::Conclude));
    assert_eq!(
        late.conclude_at(Some("x".to_string()), Platform::Windows, NOW).unwrap_err(),
        format!("{} 20 秒内没有收到完整响应。", hint)
    );
    let mut ended = Exchange::new();
    assert!(matches!(ended.take_event(Event::End), Flow::Conclude));
    assert_eq!(
        ended.conclude_at(Some("exit code: 3".to_string()), Platform::Windows, NOW).unwrap_err(),
        format!("{} codex 进程退出状态: exit code: 3", hint)
    );
    assert_eq!(Exchange::new().conclude_at(None, Platform::Windows, NOW).unwrap_err(), hint);
}

#[test]
fn failure_to_read_ends_the_exchange() {
    match Exchange::new().take_event(Event::Failed("broken".to_string())) {
        Flow::Abort(message) => assert_eq!(message, "broken"),
        other => panic!("{:?}", other),
    }
}

#[test]
fn noise_between_replies_has_no_effect() {
    let read = |lines: &[&str]| {
        let mut exchange = Exchange::new();
        for line in lines {
            exchange.take_line(line);
        }
        format!("{:?}", exchange)
    };
    assert_eq!(
        read(&[ACCOUNT, "warning: {\"id\": 3}", "{broken", "", LIMITS]),
        read(&[ACCOUNT, LIMITS])
    );
}
