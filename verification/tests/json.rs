use gemini_live_transcribe::json::{parse_json, Json};
use gemini_live_transcribe::transcriber::FunctionCallRequest;

#[test]
fn json_is_read_and_written() {
    let value = parse_json(r#" {"b": [1, -2, 2.5, null], "a": {"t": "x\né"}, "c": true} "#)
        .expect("JSON should parse");
    assert_eq!(
        value.to_text(),
        "{\"a\":{\"t\":\"x\\n\u{e9}\"},\"b\":[1,-2,2.5,null],\"c\":true}"
    );
    assert_eq!(parse_json(&value.to_text()), Ok(value));
}

#[test]
fn later_members_replace_earlier_ones() {
    let value = parse_json(r#"{"a": 1, "a": 2}"#).expect("JSON should parse");
    assert_eq!(value.get("a").and_then(|a| a.as_u64()), Some(2));
    let built = Json::object().with("a", Json::unsigned(1)).with("a", Json::unsigned(3));
    assert_eq!(built.to_text(), r#"{"a":3}"#);
    assert_eq!(built.get("a").and_then(|a| a.as_u64()), Some(3));
}

#[test]
fn text_that_is_not_json_is_refused() {
    let error = parse_json("{").expect_err("half an object");
    assert!(error.contains("EOF while parsing"));
    assert!(parse_json("").is_err());
    assert!(parse_json("1 2").is_err());
}

#[test]
fn values_are_told_apart() {
    assert_eq!(Json::text("x").as_str(), Some("x"));
    assert_eq!(Json::text("x").as_bool(), None);
    assert_eq!(Json::flag(true).as_bool(), Some(true));
    assert_eq!(Json::flag(true).as_str(), None);
    assert_eq!(Json::unsigned(u64::MAX).as_u64(), Some(u64::MAX));
    assert_eq!(parse_json("-1").expect("number").as_u64(), None);
    assert_eq!(parse_json("1.0").expect("number").as_u64(), None);
    assert_eq!(Json::single(Json::Null).as_array().map(|items| items.len()), Some(1));
    assert_eq!(Json::Null.as_array(), None);
    assert_eq!(Json::Null.get("x"), None);
    assert_eq!(
        Json::texts(&vec!["a".to_string(), "b".to_string()]).to_text(),
        r#"["a","b"]"#
    );
    let value = parse_json(r#"{"a":[1,{"b":null}]}"#).expect("JSON should parse");
    assert_eq!(value.clone(), value);
}

#[test]
fn objects_are_equal_whatever_the_order_of_their_members() {
    let built = Json::object()
        .with("b", Json::unsigned(9))
        .with("b", Json::unsigned(2))
        .with("a", Json::single(Json::Null));
    let parsed = parse_json(r#"{"a": [null], "b": 2}"#).expect("JSON should parse");
    assert_eq!(built, parsed);
    let call = |args: Json| FunctionCallRequest { id: "1".into(), name: "f".into(), args };
    assert_eq!(call(built.clone()), call(parsed.clone()));
    assert_ne!(built, parse_json(r#"{"a": [null], "b": 9}"#).expect("JSON should parse"));
    assert_ne!(built, parse_json(r#"{"a": [null]}"#).expect("JSON should parse"));
    assert_ne!(parse_json(r#"{"a": [null]}"#).expect("JSON should parse"), built);
    assert_ne!(built, parse_json(r#"{"a": [null, null], "b": 2}"#).expect("JSON should parse"));
}

#[test]
fn values_of_different_kinds_are_not_equal() {
    let texts = ["null", "true", "false", "1", "1.0", "-1", "\"1\"", "[]", "[1]", "{}", "[2]"];
    for (i, first) in texts.iter().enumerate() {
        for (j, second) in texts.iter().enumerate() {
            assert_eq!(parse_json(first) == parse_json(second), i == j, "{first} {second}");
        }
    }
    assert_eq!(parse_json("0.0"), parse_json("-0.0"));
}

#[test]
fn pretty_text_is_indented() {
    let value = Json::object().with("b", Json::single(Json::flag(true))).with("a", Json::Null);
    assert_eq!(
        value.to_pretty_bytes(),
        Ok(b"{\n  \"a\": null,\n  \"b\": [\n    true\n  ]\n}".to_vec())
    );
}
