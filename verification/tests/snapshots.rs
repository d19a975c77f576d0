use codex_usage_tray::json::{Json, JsonNumber};
use codex_usage_tray::json_text::parse_json;
use codex_usage_tray::snapshot::{
    build_usage_snapshot, build_usage_snapshot_at, build_usage_snapshot_from_app_server,
    build_usage_snapshot_from_app_server_at, empty_usage, empty_usage_at,
};
use codex_usage_tray::time::Timestamp;
use codex_usage_tray::usage::{
    dedupe_rate_windows, extract_account_email, extract_account_plan_type,
    extract_additional_rate_limits, extract_credits, extract_rate_limits_by_id, json_f64,
    parse_additional_rate_limit, parse_window, plan_label, RateWindow, Reading,
};

const NOW: Timestamp = Timestamp { secs: 1_781_600_000, nanos: 0 };

fn json(text: &str) -> Json {
    parse_json(text).expect("a JSON document")
}

fn value(reading: &Reading) -> f64 {
    match reading {
        Reading::Zero => 0.0,
        Reading::Number(JsonNumber::PosInt(n)) => *n as f64,
        Reading::Number(JsonNumber::NegInt(n)) => *n as f64,
        Reading::Number(JsonNumber::Float(bits)) => f64::from_bits(*bits),
        Reading::Text(text) => text.parse::<f64>().unwrap_or(0.0),
    }
}

#[test]
fn parses_usage_windows_and_spark_limits() {
    let usage = build_usage_snapshot(
        &json(
            r#"{
                "plan_type": "pro",
                "rate_limit": {
                    "primary_window": {"used_percent": 75, "limit_window_seconds": 18000},
                    "secondary_window": {"used_percent": 59, "limit_window_seconds": 604800}
                },
                "additional_rate_limits": [{
                    "limit_name": "Codex Spark",
                    "metered_feature": "codex_spark",
                    "rate_limit": {"primary_window": {"used_percent": 98, "limit_window_seconds": 18000}}
                }],
                "credits": {"has_credits": true, "unlimited": false, "balance": 12.7}
            }"#,
        ),
        None,
    );
    assert_eq!(value(&usage.primary.used_percent), 75.0);
    assert_eq!(usage.secondary.unwrap().window_minutes, Some(10080));
    assert_eq!(usage.extra_rate_windows[0].id, "codex-spark");
    assert_eq!(value(&usage.credits.unwrap().balance), 12.7);
}

#[test]
fn parses_app_server_camel_case_rate_limits() {
    let usage = build_usage_snapshot_from_app_server(
        Some(&json(r#"{"email": "u@example.com", "planType": "plus"}"#)),
        &json(
            r#"{
                "rateLimits": {
                    "primary": {"usedPercent": 44, "windowDurationMins": 300, "resetsAt": "2026-06-16T12:00:00Z"},
                    "secondary": {"usedPercent": 12, "windowDurationMins": 10080}
                },
                "rateLimitsByLimitId": {
                    "codex_spark": {
                        "limitName": "Codex Spark",
                        "primary": {"usedPercent": 8, "windowDurationMins": 300}
                    }
                }
            }"#,
        ),
        None,
    );
    assert_eq!(usage.account_email.as_deref(), Some("u@example.com"));
    assert_eq!(value(&usage.primary.used_percent), 44.0);
    assert_eq!(usage.secondary.unwrap().window_minutes, Some(10080));
    assert_eq!(usage.extra_rate_windows[0].title, "Codex Spark");
    assert_eq!(usage.source, "app-server");
}

#[test]
fn snapshot_at_an_instant_is_exact() {
    let usage = build_usage_snapshot_at(
        &json(
            r#"{
                "planType": "edu",
                "rateLimits": {
                    "primary": {"usagePercent": "  7.25 ", "reset_at": 1781607260},
                    "code_review": {"used_percent": -3, "windowDurationMins": 60}
                }
            }"#,
        ),
        Some("u@example.com".to_string()),
        NOW,
    );
    assert_eq!(usage.account_email.as_deref(), Some("u@example.com"));
    assert_eq!(usage.plan_type.as_deref(), Some("edu"));
    assert_eq!(usage.login_method.as_deref(), Some("ChatGPT Education"));
    assert_eq!(usage.primary.id, "codex-primary");
    assert_eq!(usage.primary.title, "5小时");
    assert_eq!(value(&usage.primary.used_percent), 7.25);
    assert_eq!(usage.primary.reset_at, Some(Timestamp { secs: 1_781_607_260, nanos: 0 }));
    assert_eq!(usage.primary.reset_description.as_deref(), Some("2h 1m"));
    assert!(usage.secondary.is_none());
    let review = usage.model_specific.unwrap();
    assert_eq!(review.id, "codex-code-review");
    assert_eq!(review.title, "Code Review");
    assert_eq!(value(&review.used_percent), -3.0);
    assert_eq!(review.window_minutes, Some(60));
    assert!(usage.extra_rate_windows.is_empty());
    assert!(usage.credits.is_none());
    assert_eq!(usage.updated_at, NOW);
    assert!(!usage.stale);
    assert!(usage.error.is_none());
}

#[test]
fn windows_come_from_a_list_or_the_document_itself() {
    let listed = build_usage_snapshot_at(
        &json(r#"{"rate_limits": [{"used_percent": 1}, {"used_percent": 2}]}"#),
        None,
        NOW,
    );
    assert_eq!(value(&listed.primary.used_percent), 1.0);
    let weekly = listed.secondary.unwrap();
    assert_eq!(weekly.id, "codex-weekly");
    assert_eq!(weekly.title, "7天");
    assert_eq!(value(&weekly.used_percent), 2.0);
    assert!(listed.model_specific.is_none());

    let flat = build_usage_snapshot_at(
        &json(r#"{"secondary_window": {"used_percent": 9}, "usage_percent": 4}"#),
        None,
        NOW,
    );
    assert_eq!(flat.primary.title, "Codex");
    assert_eq!(value(&flat.primary.used_percent), 4.0);
    assert_eq!(value(&flat.secondary.unwrap().used_percent), 9.0);

    let nothing = build_usage_snapshot_at(&json("[]"), None, NOW);
    assert_eq!(nothing.primary.id, "codex-primary");
    assert_eq!(value(&nothing.primary.used_percent), 0.0);
    assert!(nothing.plan_type.is_none());
    assert!(nothing.login_method.is_none());
}

#[test]
fn names_of_windows_are_interchangeable() {
    let service = build_usage_snapshot_at(
        &json(r#"{"primary_window": {"used_percent": 5}, "secondary_window": {"used_percent": 6}}"#),
        None,
        NOW,
    );
    let server = build_usage_snapshot_at(
        &json(r#"{"primary": {"used_percent": 5}, "secondary": {"used_percent": 6}}"#),
        None,
        NOW,
    );
    assert_eq!(format!("{:?}", service), format!("{:?}", server));
}

#[test]
fn window_minutes_prefer_seconds_and_keep_low_bits() {
    let seconds = parse_window(
        "a",
        "A",
        &json(r#"{"limit_window_seconds": 119, "windowDurationMins": 7}"#),
        NOW,
    );
    assert_eq!(seconds.window_minutes, Some(1));
    let minutes = parse_window("a", "A", &json(r#"{"window_duration_mins": 7}"#), NOW);
    assert_eq!(minutes.window_minutes, Some(7));
    let negative = parse_window("a", "A", &json(r#"{"limit_window_seconds": -119}"#), NOW);
    assert_eq!(negative.window_minutes, Some((-1i64) as u32));
    let wide = parse_window("a", "A", &json(r#"{"windowDurationMins": 4294967297}"#), NOW);
    assert_eq!(wide.window_minutes, Some(1));
    let float = parse_window("a", "A", &json(r#"{"windowDurationMins": 7.0}"#), NOW);
    assert_eq!(float.window_minutes, None);
    let text = parse_window(
        "a",
        "A",
        &json(r#"{"limit_window_seconds": "60", "windowDurationMins": 3}"#),
        NOW,
    );
    assert_eq!(text.window_minutes, Some(3));
}

#[test]
fn reset_instants_come_from_seconds_or_text() {
    let reset = |text: &str| parse_window("a", "A", &json(text), NOW).reset_at;
    assert_eq!(reset(r#"{"reset_at": 5}"#), Some(Timestamp { secs: 5, nanos: 0 }));
    assert_eq!(reset(r#"{"resetAt": -5}"#), Some(Timestamp { secs: -5, nanos: 0 }));
    assert_eq!(
        reset(r#"{"resetsAt": "1970-01-01T01:00:00.5+01:00"}"#),
        Some(Timestamp { secs: 0, nanos: 500_000_000 })
    );
    assert_eq!(
        reset(r#"{"reset_at": "x", "resetAt": "1970-01-01T00:00:07Z"}"#),
        Some(Timestamp { secs: 7, nanos: 0 })
    );
    assert_eq!(reset(r#"{"reset_at": "1970-01-01T00:00:07Z"}"#), None);
    assert_eq!(reset(r#"{"resetsAt": "soon"}"#), None);
    assert_eq!(reset("{}"), None);
}

#[test]
fn reset_instants_end_where_the_calendar_does() {
    let reset = |secs: i64| {
        parse_window("a", "A", &json(&format!("{{\"reset_at\": {}}}", secs)), NOW).reset_at
    };
    let last = chrono::DateTime::<chrono::Utc>::MAX_UTC.timestamp();
    let first = chrono::DateTime::<chrono::Utc>::MIN_UTC.timestamp();
    assert_eq!(reset(last), Some(Timestamp { secs: last, nanos: 0 }));
    assert_eq!(reset(last + 1), None);
    assert_eq!(reset(first), Some(Timestamp { secs: first, nanos: 0 }));
    assert_eq!(reset(first - 1), None);
    assert_eq!(reset(i64::MAX), None);
    assert_eq!(reset(i64::MIN), None);
}

#[test]
fn additional_limits_are_named_and_filtered() {
    let limits = extract_additional_rate_limits(
        &json(
            r#"{"additionalRateLimits": [
                {"limitName": "big_MODEL run", "rateLimit": {"primary": {"used_percent": 1}}},
                {"meteredFeature": "Other--Feature", "secondary": {"used_percent": 2}},
                {"limit_name": "empty", "primary": {}},
                {"limit_name": "none"},
                {"limit_name": "My Sparkling limit", "primary_window": {"limit_window_seconds": 604800}},
                {"limit_name": "x", "metered_feature": "CODEX_Spark", "secondary_window": {"used_percent": 3}},
                {"limit_name": "x", "metered_feature": "codex_spark", "secondary": {"used_percent": 4}},
                {"primary": 17}
            ]}"#,
        ),
        NOW,
    );
    let ids: Vec<&str> = limits.iter().map(|w| w.id.as_str()).collect();
    assert_eq!(
        ids,
        vec![
            "codex-big-model-run",
            "codex-other-feature",
            "codex-spark-weekly",
            "codex-spark-weekly",
            "codex-spark",
            "codex-",
        ]
    );
    let titles: Vec<&str> = limits.iter().map(|w| w.title.as_str()).collect();
    assert_eq!(
        titles,
        vec![
            "Big Model Run",
            "Other Feature",
            "Codex Spark Weekly",
            "Codex Spark Weekly",
            "Codex Spark 5-hour",
            "",
        ]
    );
    assert!(extract_additional_rate_limits(&json(r#"{"additional_rate_limits": 1}"#), NOW).is_empty());
    assert!(parse_additional_rate_limit(&json("null"), NOW).is_none());
}

#[test]
fn limits_by_identifier_leave_codex_out() {
    let limits = extract_rate_limits_by_id(
        &json(
            r#"{"rate_limits_by_limit_id": {
                "CodeX": {"primary": {"usedPercent": 1}},
                "alpha_one": {"usedPercent": 2},
                "beta": {"limit_name": "the-beta", "secondary_window": {"usedPercent": 3}},
                "gamma": {},
                "delta": {"primary": {}}
            }}"#,
        ),
        NOW,
    );
    let found: Vec<(&str, &str, f64)> = limits
        .iter()
        .map(|w| (w.id.as_str(), w.title.as_str(), value(&w.used_percent)))
        .collect();
    assert_eq!(found, vec![("codex-alpha-one", "Alpha One", 2.0), ("codex-beta", "The Beta", 3.0)]);
    assert!(extract_rate_limits_by_id(&json("{}"), NOW).is_empty());
}

#[test]
fn first_window_of_an_identifier_stays() {
    let window = |id: &str, title: &str| RateWindow::simple(id, title, Reading::Zero);
    let mut windows = vec![
        window("a", "1"),
        window("b", "2"),
        window("a", "3"),
        window("c", "4"),
        window("b", "5"),
    ];
    dedupe_rate_windows(&mut windows);
    let titles: Vec<&str> = windows.iter().map(|w| w.title.as_str()).collect();
    assert_eq!(titles, vec!["1", "2", "4"]);
    dedupe_rate_windows(&mut windows);
    assert_eq!(windows.len(), 3);
    let mut none: Vec<RateWindow> = Vec::new();
    dedupe_rate_windows(&mut none);
    assert!(none.is_empty());
}

#[test]
fn extra_windows_of_an_account_are_distinct() {
    let usage = build_usage_snapshot_from_app_server_at(
        None,
        &json(
            r#"{
                "rate_limits": {"additional_rate_limits": [
                    {"limit_name": "alpha", "primary": {"used_percent": 1}},
                    {"limit_name": "Alpha", "primary": {"used_percent": 2}}
                ]},
                "rateLimitsByLimitId": {"alpha": {"primary": {"used_percent": 3}}, "beta": {"primary": {"used_percent": 4}}}
            }"#,
        ),
        None,
        NOW,
    );
    let found: Vec<(&str, f64)> = usage
        .extra_rate_windows
        .iter()
        .map(|w| (w.id.as_str(), value(&w.used_percent)))
        .collect();
    assert_eq!(found, vec![("codex-alpha", 1.0), ("codex-beta", 4.0)]);
}

#[test]
fn plan_and_credits_fall_back() {
    let account = json(r#"{"account": {"plan_type": "team", "email": "  "}, "user": {"email": "b@example.com"}}"#);
    let usage = build_usage_snapshot_from_app_server_at(
        Some(&account),
        &json(r#"{"rateLimits": {}, "credits": {"remaining": 3}}"#),
        None,
        NOW,
    );
    assert_eq!(usage.plan_type.as_deref(), Some("team"));
    assert_eq!(usage.login_method.as_deref(), Some("ChatGPT Team"));
    assert_eq!(usage.account_email, None);
    assert_eq!(value(&usage.credits.unwrap().balance), 3.0);

    let usage = build_usage_snapshot_from_app_server_at(
        Some(&account),
        &json(r#"{"rateLimits": {"plan_type": "x", "credits": {"balance": 1}}, "credits": {"balance": 3}}"#),
        Some(&json(r#"{"creditBalance": {"balance": 2}}"#)),
        NOW,
    );
    assert_eq!(usage.plan_type.as_deref(), Some("x"));
    assert_eq!(usage.login_method.as_deref(), Some("x"));
    assert_eq!(value(&usage.credits.unwrap().balance), 1.0);

    let usage = build_usage_snapshot_from_app_server_at(
        None,
        &json(r#"{"credits": {"unlimited": true}}"#),
        Some(&json(r#"{"credit_balance": {"remainingBalance": "2.5"}}"#)),
        NOW,
    );
    assert_eq!(value(&usage.credits.unwrap().balance), 2.5);
}

#[test]
fn tokens_of_an_account_never_show() {
    let limits = json(r#"{"rateLimits": {"primary": {"usedPercent": 1}}}"#);
    let plain = build_usage_snapshot_from_app_server_at(
        Some(&json(r#"{"email": "a@example.com", "planType": "pro"}"#)),
        &limits,
        None,
        NOW,
    );
    let secret = build_usage_snapshot_from_app_server_at(
        Some(&json(
            r#"{"email": "a@example.com", "planType": "pro", "access_token": "abc", "tokens": {"refresh_token": "def"}}"#,
        )),
        &limits,
        None,
        NOW,
    );
    assert_eq!(format!("{:?}", plain), format!("{:?}", secret));
}

#[test]
fn credits_need_a_balance_that_ends() {
    assert!(extract_credits(&json("{}")).is_none());
    assert!(extract_credits(&json(r#"{"credits": {"hasCredits": false, "balance": 1}}"#)).is_none());
    assert!(extract_credits(&json(r#"{"credits": {"unlimited": true, "balance": 1}}"#)).is_none());
    let odd = extract_credits(&json(r#"{"credits": {"has_credits": "no", "unlimited": 1}}"#)).unwrap();
    assert_eq!(value(&odd.balance), 0.0);
    assert_eq!(odd.currency, "USD");
    assert_eq!(odd.label, "Credits");
}

#[test]
fn account_fields_are_found_in_order() {
    assert_eq!(
        extract_account_email(&json(r#"{"account": {"email": "a"}, "user": {"email": "b"}}"#)).as_deref(),
        Some("a")
    );
    assert_eq!(
        extract_account_email(&json(r#"{"account": {}, "user": {"email": "b"}}"#)).as_deref(),
        Some("b")
    );
    assert_eq!(extract_account_email(&json(r#"{"email": null, "user": {"email": "b"}}"#)), None);
    assert_eq!(extract_account_email(&json(r#"{"email": " \t"}"#)), None);
    assert_eq!(
        extract_account_plan_type(&json(r#"{"plan_type": " go ", "account": {"planType": "x"}}"#)).as_deref(),
        Some(" go ")
    );
    assert_eq!(
        extract_account_plan_type(&json(r#"{"account": {"planType": "x", "plan_type": "y"}}"#)).as_deref(),
        Some("x")
    );
    assert_eq!(extract_account_plan_type(&json("[]")), None);
}

#[test]
fn plan_labels() {
    let labels = [
        ("free", "ChatGPT Free"),
        ("go", "Codex Go"),
        ("plus", "ChatGPT Plus"),
        ("pro", "ChatGPT Pro"),
        ("team", "ChatGPT Team"),
        ("business", "ChatGPT Business"),
        ("enterprise", "ChatGPT Enterprise"),
        ("education", "ChatGPT Education"),
        ("edu", "ChatGPT Education"),
        ("Pro", "Pro"),
        ("", ""),
    ];
    for (plan, label) in labels {
        assert_eq!(plan_label(plan), label);
        assert_eq!(plan_label(&plan_label(plan)), label);
    }
}

#[test]
fn quantities_are_numbers_or_text() {
    let quantity = |text: &str| json_f64(&json(text)).map(|r| value(&r));
    assert_eq!(quantity("18446744073709551615"), Some(18446744073709551615.0));
    assert_eq!(quantity("-7"), Some(-7.0));
    assert_eq!(quantity("1e300"), Some(1e300));
    assert_eq!(quantity("-0.0"), Some(0.0));
    assert_eq!(quantity("\" 12.5\\n\""), Some(12.5));
    assert_eq!(quantity("true"), None);
    assert_eq!(quantity("{}"), None);
    match json_f64(&json("\"  +1.5E2 \"")) {
        Some(Reading::Text(text)) => assert_eq!(text, "+1.5E2"),
        other => panic!("{:?}", other),
    }
    assert!(json_f64(&json("\"  abc \"")).is_none());
    assert!(json_f64(&json("\"\"")).is_none());
    assert!(json_f64(&json("\"1 2\"")).is_none());
    assert!(quantity("\"NaN\"").unwrap().is_nan());
    assert_eq!(quantity("\"-Infinity\""), Some(f64::NEG_INFINITY));
}

#[test]
fn text_that_is_no_number_counts_as_zero() {
    let window = parse_window("a", "A", &json(r#"{"used_percent": "12%"}"#), NOW);
    assert!(matches!(window.used_percent, Reading::Zero));
    let cost = extract_credits(&json(r#"{"credits": {"balance": "$3"}}"#)).unwrap();
    assert!(matches!(cost.balance, Reading::Zero));
}

#[test]
fn missing_usage_is_stale() {
    let empty = empty_usage_at("no reply", NOW);
    assert_eq!(empty.primary.id, "codex-primary");
    assert_eq!(empty.primary.title, "Codex");
    assert_eq!(value(&empty.primary.used_percent), 0.0);
    assert_eq!(empty.source, "none");
    assert!(empty.stale);
    assert_eq!(empty.error.as_deref(), Some("no reply"));
    assert_eq!(empty.updated_at, NOW);
    assert!(empty_usage("x").updated_at.secs > 1_700_000_000);
}

#[test]
fn clones_of_snapshots_are_equal() {
    let usage = build_usage_snapshot_at(
        &json(
            r#"{"plan_type": "pro", "credits": {"balance": 1.5}, "primary": {"reset_at": 9, "used_percent": "x"},
                "secondary": {"used_percent": 2}, "code_review": {}, "additional_rate_limits": [{"primary": 1}]}"#,
        ),
        Some("m".to_string()),
        NOW,
    );
    assert_eq!(format!("{:?}", usage.clone()), format!("{:?}", usage));
}

#[test]
fn extra_identifiers_begin_alike() {
    let usage = build_usage_snapshot_from_app_server_at(
        None,
        &json(
            r#"{
                "additional_rate_limits": [{"metered_feature": "codex_spark", "primary": 1}, {"primary": 2}, {"limit_name": "天", "primary": 3}],
                "rate_limits_by_limit_id": {"x y": {"primary": 4}}
            }"#,
        ),
        None,
        NOW,
    );
    let ids: Vec<&str> = usage.extra_rate_windows.iter().map(|w| w.id.as_str()).collect();
    assert_eq!(ids, vec!["codex-spark", "codex-", "codex-x-y"]);
}
