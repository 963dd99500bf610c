use helix_vue_proxy::codec::{decode, encode, from_serde, to_serde, NESTING_LIMIT};
use helix_vue_proxy::json::{JsonValue, Object};
use serde_json::Value;

#[test]
fn members_come_out_by_key() {
    let value = decode(br#" { "b" : [1, -2.50, "x"], "a" : null, "b" : true } "#).unwrap();
    assert_eq!(encode(&value), r#"{"a":null,"b":true}"#);
}

#[test]
fn values_keep_what_they_hold() {
    for text in [
        "null",
        "true",
        "-1",
        "9223372036854775808",
        "1.5",
        "1e300",
        "\"\"",
        "\"ü\\u0001\"",
        "[]",
        "[1,[2,[]],{}]",
        r#"{"a":{"b":[{"c":0}]},"d":""}"#,
    ] {
        let outside: Value = serde_json::from_str(text).unwrap();
        let value = from_serde(outside.clone());
        assert_eq!(to_serde(&value), outside, "{text}");
        assert_eq!(to_serde(&value.clone()), outside, "{text}");
        assert_eq!(to_serde(&decode(encode(&value).as_bytes()).unwrap()), outside, "{text}");
        assert_eq!(encode(&value), serde_json::to_string(&outside).unwrap(), "{text}");
    }
}

#[test]
fn an_integer_is_the_same_in_either_type() {
    assert_eq!(to_serde(&JsonValue::Signed(5)), to_serde(&JsonValue::Unsigned(5)));
    assert_eq!(encode(&JsonValue::Signed(-5)), "-5");
    assert_eq!(JsonValue::Unsigned(5).as_i64(), Some(5));
    assert_eq!(JsonValue::Unsigned(u64::MAX).as_i64(), None);
}

#[test]
fn text_that_is_not_json() {
    for text in ["", "{", "[1,]", "{\"a\":1,}", "nul", "'a'", "1 2", "\"\u{1}\"", "01"] {
        assert!(decode(text.as_bytes()).is_err(), "{text:?}");
    }
    assert!(decode(b"\"\xff\"").is_err());
}

#[test]
fn nesting_has_a_limit() {
    let nested = |levels: usize| format!("{}{}", "[".repeat(levels), "]".repeat(levels));
    assert!(decode(nested(NESTING_LIMIT).as_bytes()).is_ok());
    assert!(decode(nested(NESTING_LIMIT + 1).as_bytes()).is_err());
    let deepest = decode(nested(NESTING_LIMIT).as_bytes()).unwrap();
    assert_eq!(encode(&deepest), nested(NESTING_LIMIT));
    let deeper = JsonValue::Array(vec![deepest]);
    assert!(decode(encode(&deeper).as_bytes()).is_err());
}

#[test]
fn members_of_an_object() {
    let mut object = Object::new();
    assert!(object.get("a").is_none());
    object.insert("a".to_string(), JsonValue::Signed(1));
    object.insert("b".to_string(), JsonValue::Bool(false));
    object.insert("a".to_string(), JsonValue::Signed(2));
    assert_eq!(object.get("a").unwrap().as_i64(), Some(2));
    assert_eq!(object.members().len(), 2);
    let value = JsonValue::Object(object);
    assert!(value.get("b").is_some());
    assert!(value.get("c").is_none());
    assert!(value.get("a").unwrap().get("a").is_none());
    assert_eq!(encode(&value), r#"{"a":2,"b":false}"#);
}

#[test]
fn looking_into_values() {
    let value = decode(br#"["x", 1.0, {}]"#).unwrap();
    let items = value.as_array().unwrap();
    assert_eq!(items[0].as_str(), Some("x"));
    assert_eq!(items[1].as_i64(), None);
    assert_eq!(items[1].as_str(), None);
    assert!(items[2].as_array().is_none());
    assert!(value.as_str().is_none());
}
