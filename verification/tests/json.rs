use hass_backend::json::{Json, Number};
use serde_json::Value;

fn number(n: &serde_json::Number) -> Number {
    if let Some(n) = n.as_u64() {
        Number::PosInt(n)
    } else if let Some(n) = n.as_i64() {
        Number::NegInt(n)
    } else {
        Number::Float(n.as_f64().unwrap().to_bits())
    }
}

fn convert(value: &Value) -> Json {
    match value {
        Value::Null => Json::Null,
        Value::Bool(b) => Json::Bool(*b),
        Value::Number(n) => Json::Number(number(n)),
        Value::String(s) => Json::Text(s.clone()),
        Value::Array(list) => Json::List(list.iter().map(convert).collect()),
        Value::Object(map) => {
            Json::Object(map.iter().map(|(k, v)| (k.clone(), convert(v))).collect())
        }
    }
}

const DOCUMENTS: [&str; 12] = [
    "null",
    "true",
    "0",
    "-5",
    "9223372036854775807",
    "9223372036854775808",
    "1.5",
    "\"text\"",
    "[]",
    "[1, \"a\", null]",
    "{}",
    "{\"a\": {\"b\": 1}, \"b\": \"x\"}",
];

#[test]
fn documents_are_read_as_serde_json_reads_them() {
    for text in DOCUMENTS {
        let value: Value = serde_json::from_str(text).unwrap();
        let document = convert(&value);
        assert_eq!(document.as_str(), value.as_str(), "{text}");
        assert_eq!(document.as_i64(), value.as_i64(), "{text}");
        assert_eq!(
            document.as_array().map(|list| list.len()),
            value.as_array().map(|list| list.len()),
            "{text}"
        );
        assert_eq!(document.as_number().is_some(), value.as_f64().is_some());
        for key in ["a", "b", "0", ""] {
            assert_eq!(
                document.get(key).map(|d| d.copy()),
                value.get(key).map(convert),
                "{text} {key}"
            );
        }
        assert_eq!(
            document.get_in("a", "b").map(|d| d.copy()),
            value.pointer("/a/b").map(convert),
            "{text}"
        );
    }
}

#[test]
fn copies_are_equal() {
    for text in DOCUMENTS {
        let document = convert(&serde_json::from_str::<Value>(text).unwrap());
        assert_eq!(document.copy(), document);
    }
}

#[test]
fn a_later_member_replaces_an_earlier_one() {
    let document = Json::object()
        .with("a", Json::text("first"))
        .with("b", Json::Bool(true))
        .with("a", Json::text("second"));
    assert_eq!(document.get("a").and_then(|v| v.as_str()), Some("second"));
    assert_eq!(document.get("b"), Some(&Json::Bool(true)));
    assert_eq!(document.get("c"), None);
}

#[test]
fn integers_are_read_back() {
    for n in [0, 1, -1, i64::MAX, i64::MIN] {
        assert_eq!(Number::from_i64(n).as_i64(), Some(n));
    }
    assert_eq!(Number::from_i64(-3), Number::NegInt(-3));
    assert_eq!(Number::from_i64(3), Number::PosInt(3));
    assert_eq!(Number::PosInt(u64::MAX).as_i64(), None);
    assert_eq!(Number::Float(1.0f64.to_bits()).as_i64(), None);
}
