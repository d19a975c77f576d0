use codex_usage_tray::json::{Json, JsonNumber};
use codex_usage_tray::json_text::{parse_json, parse_with_field};

#[test]
fn documents_are_read_in_full() {
    let json = parse_json(
        r#" {"b": [null, true, 7, -7, 1.5, "天\n"], "a": {}, "big": 18446744073709551615, "bigger": 18446744073709551616} "#,
    )
    .unwrap();
    let names: Vec<&str> = json.as_object().unwrap().iter().map(|f| f.0.as_str()).collect();
    assert_eq!(names, vec!["a", "b", "big", "bigger"]);
    let items = json.get("b").unwrap().as_array().unwrap();
    assert!(matches!(items[0], Json::Null));
    assert_eq!(items[1].as_bool(), Some(true));
    assert_eq!(items[2].as_i64(), Some(7));
    assert_eq!(items[3].as_i64(), Some(-7));
    assert!(matches!(items[4], Json::Number(JsonNumber::Float(bits)) if f64::from_bits(bits) == 1.5));
    assert_eq!(items[4].as_i64(), None);
    assert_eq!(items[5].as_str(), Some("天\n"));
    assert!(matches!(json.get("big"), Some(Json::Number(JsonNumber::PosInt(u64::MAX)))));
    assert_eq!(json.get("big").unwrap().as_i64(), None);
    assert!(matches!(json.get("bigger"), Some(Json::Number(JsonNumber::Float(_)))));
    assert!(json.get("c").is_none());
    assert_eq!(format!("{:?}", json.clone()), format!("{:?}", json));
}

#[test]
fn last_of_repeated_fields_counts() {
    let json = parse_json(r#"{"a": 1, "a": 2}"#).unwrap();
    assert_eq!(json.as_object().unwrap().len(), 1);
    assert_eq!(json.get("a").unwrap().as_i64(), Some(2));
}

#[test]
fn other_texts_are_no_documents() {
    for text in ["", "{", "{} x", "'a'", "NaN", "[1,]"] {
        assert!(parse_json(text).is_none(), "{:?}", text);
        assert!(parse_with_field(text, "a").is_none());
    }
}

#[test]
fn first_of_several_fields() {
    let json = parse_json(r#"{"b": 2, "c": 3, "d": 4, "n": null}"#).unwrap();
    let number = |v: Option<&Json>| v.and_then(Json::as_i64);
    assert_eq!(number(json.get2("a", "b")), Some(2));
    assert_eq!(number(json.get2("c", "b")), Some(3));
    assert_eq!(number(json.get3("a", "x", "c")), Some(3));
    assert_eq!(number(json.get4("a", "x", "y", "d")), Some(4));
    assert!(matches!(json.get2("n", "b"), Some(Json::Null)));
    assert!(Json::Array(Vec::new()).get("a").is_none());
}

#[test]
fn text_of_a_field() {
    let (json, field) = parse_with_field(r#"{"e": {"y" : [1.50, "q\""], "x": 1e3}}"#, "e").unwrap();
    assert_eq!(field.as_deref(), Some(r#"{"x":1000.0,"y":[1.5,"q\""]}"#));
    assert!(json.get("e").is_some());
    let (_, none) = parse_with_field("[]", "e").unwrap();
    assert_eq!(none, None);
}
