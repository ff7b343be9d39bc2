use emissary::error::EmissaryError;
use emissary::json::{parse_data, JsonMember, JsonNumber, JsonValue};
use emissary::payload::Payload;
use emissary::value::FieldValue;

fn number(integer: Option<i64>, text: &str) -> JsonValue {
    JsonValue::Number(JsonNumber { integer, text: text.to_string() })
}

fn member(name: &str, value: JsonValue) -> JsonMember {
    JsonMember { name: name.to_string(), value }
}

fn find<'a>(members: &'a [JsonMember], name: &str) -> Option<&'a JsonValue> {
    members.iter().find(|m| m.name == name).map(|m| &m.value)
}

#[test]
fn parse_data_reads_the_members_of_an_object() {
    let members = parse_data(r#"{"priority": 5, "urgent": true, "label": "x"}"#).unwrap().unwrap();
    assert_eq!(members.len(), 3);
    assert_eq!(find(&members, "priority"), Some(&number(Some(5), "5")));
    assert_eq!(find(&members, "urgent"), Some(&JsonValue::Bool(true)));
    assert_eq!(find(&members, "label"), Some(&JsonValue::Str("x".to_string())));
}

#[test]
fn parse_data_tells_the_kinds_apart() {
    let text = r#"{"a": null, "b": [1, 2], "c": {"d": 1}, "e": false, "f": "", "g": -3}"#;
    let members = parse_data(text).unwrap().unwrap();
    assert_eq!(members.len(), 6);
    assert_eq!(find(&members, "a"), Some(&JsonValue::Null));
    assert_eq!(find(&members, "b"), Some(&JsonValue::Array));
    assert_eq!(find(&members, "c"), Some(&JsonValue::Object));
    assert_eq!(find(&members, "e"), Some(&JsonValue::Bool(false)));
    assert_eq!(find(&members, "f"), Some(&JsonValue::Str(String::new())));
    assert_eq!(find(&members, "g"), Some(&number(Some(-3), "-3")));
}

#[test]
fn parse_data_reads_numbers_with_and_without_an_integer_value() {
    let text = r#"{"half": 2.5, "whole": 5.0, "big": 18446744073709551615, "max": 9223372036854775807, "min": -9223372036854775808}"#;
    let members = parse_data(text).unwrap().unwrap();
    assert_eq!(find(&members, "half"), Some(&number(None, "2.5")));
    assert_eq!(find(&members, "whole"), Some(&number(None, "5.0")));
    assert_eq!(find(&members, "big"), Some(&number(None, "18446744073709551615")));
    assert_eq!(find(&members, "max"), Some(&number(Some(i64::MAX), "9223372036854775807")));
    assert_eq!(find(&members, "min"), Some(&number(Some(i64::MIN), "-9223372036854775808")));
}

#[test]
fn parse_data_holds_each_name_once() {
    let members = parse_data(r#"{"a": 1, "a": 2, "b": 3}"#).unwrap().unwrap();
    assert_eq!(members.len(), 2);
    assert_eq!(find(&members, "a"), Some(&number(Some(2), "2")));
    assert_eq!(find(&members, "b"), Some(&number(Some(3), "3")));
}

#[test]
fn parse_data_of_json_that_is_no_object() {
    assert_eq!(parse_data("[1, 2, 3]"), Ok(None));
    assert_eq!(parse_data("5"), Ok(None));
    assert_eq!(parse_data("\"text\""), Ok(None));
    assert_eq!(parse_data("null"), Ok(None));
    assert_eq!(parse_data("{}"), Ok(Some(Vec::new())));
}

#[test]
fn parse_data_rejects_what_is_not_json() {
    assert_eq!(parse_data("{priority: 5}"), Err(EmissaryError::DataParseError));
    assert_eq!(parse_data(""), Err(EmissaryError::DataParseError));
    assert_eq!(parse_data("{\"a\": 1"), Err(EmissaryError::DataParseError));
    assert_eq!(parse_data("{\"a\": 1} trailing"), Err(EmissaryError::DataParseError));
}

#[test]
fn decode_takes_scalars_and_skips_the_rest() {
    assert_eq!(JsonValue::Str("x".to_string()).decode(), Some(FieldValue::Str("x".to_string())));
    assert_eq!(number(Some(5), "5").decode(), Some(FieldValue::Int(5)));
    assert_eq!(number(None, "2.5").decode(), Some(FieldValue::Float("2.5".to_string())));
    assert_eq!(JsonValue::Bool(true).decode(), Some(FieldValue::Bool(true)));
    assert_eq!(JsonValue::Null.decode(), None);
    assert_eq!(JsonValue::Array.decode(), None);
    assert_eq!(JsonValue::Object.decode(), None);
}

#[test]
fn merge_sets_scalars_and_replaces_what_was_there() {
    let mut payload = Payload::new();
    payload.insert("message".to_string(), FieldValue::Str("hello".to_string()));
    payload.insert("keep".to_string(), FieldValue::Int(1));
    let members = vec![
        member("message", JsonValue::Str("replaced".to_string())),
        member("keep", JsonValue::Null),
        member("list", JsonValue::Array),
        member("count", number(Some(3), "3")),
    ];
    payload.merge(&members);
    assert_eq!(payload.len(), 3);
    assert_eq!(payload.get("message"), Some(&FieldValue::Str("replaced".to_string())));
    assert_eq!(payload.get("keep"), Some(&FieldValue::Int(1)));
    assert_eq!(payload.get("count"), Some(&FieldValue::Int(3)));
    assert_eq!(payload.get("list"), None);
}

#[test]
fn merge_lets_the_last_member_of_a_name_win() {
    let mut payload = Payload::new();
    let members = vec![
        member("a", number(Some(1), "1")),
        member("a", JsonValue::Bool(false)),
        member("a", JsonValue::Null),
    ];
    payload.merge(&members);
    assert_eq!(payload.len(), 1);
    assert_eq!(payload.get("a"), Some(&FieldValue::Bool(false)));
}

#[test]
fn merge_does_not_depend_on_the_order_of_distinct_members() {
    let forward = vec![
        member("a", number(Some(1), "1")),
        member("b", JsonValue::Array),
        member("c", JsonValue::Str("x".to_string())),
    ];
    let backward = vec![
        member("c", JsonValue::Str("x".to_string())),
        member("b", JsonValue::Array),
        member("a", number(Some(1), "1")),
    ];
    let mut first = Payload::new();
    first.insert("a".to_string(), FieldValue::Bool(true));
    first.merge(&forward);
    let mut second = Payload::new();
    second.insert("a".to_string(), FieldValue::Bool(true));
    second.merge(&backward);
    assert_eq!(first.len(), 2);
    assert_eq!(second.len(), 2);
    for name in ["a", "b", "c"] {
        assert_eq!(first.get(name), second.get(name));
    }
    assert_eq!(first.get("a"), Some(&FieldValue::Int(1)));
    assert_eq!(first.get("c"), Some(&FieldValue::Str("x".to_string())));
}

#[test]
fn encode_writes_each_kind_as_its_json_scalar() {
    assert_eq!(FieldValue::Int(-12).encode(), number(Some(-12), "-12"));
    assert_eq!(FieldValue::Float("1e-7".to_string()).encode(), number(None, "1e-7"));
    assert_eq!(FieldValue::Str("x".to_string()).encode(), JsonValue::Str("x".to_string()));
    assert_eq!(FieldValue::Bool(false).encode(), JsonValue::Bool(false));
}

#[test]
fn members_of_a_payload_read_back_as_the_payload() {
    let mut payload = Payload::new();
    payload.insert("message".to_string(), FieldValue::Str("hello".to_string()));
    payload.insert("priority".to_string(), FieldValue::Int(5));
    payload.insert("ratio".to_string(), FieldValue::Float("0.25".to_string()));
    payload.insert("urgent".to_string(), FieldValue::Bool(true));
    let members = payload.members();
    assert_eq!(members.len(), 4);
    let mut back = Payload::new();
    back.merge(&members);
    assert_eq!(back.len(), payload.len());
    for field in payload.fields() {
        assert_eq!(back.get(&field.name), Some(&field.value));
    }
}

fn to_json(members: &[JsonMember]) -> serde_json::Value {
    let mut object = serde_json::Map::new();
    for m in members {
        let value = match &m.value {
            JsonValue::Null => serde_json::Value::Null,
            JsonValue::Bool(b) => serde_json::Value::Bool(*b),
            JsonValue::Number(n) => match n.integer {
                Some(i) => serde_json::Value::from(i),
                None => serde_json::Value::from(n.text.parse::<f64>().unwrap()),
            },
            JsonValue::Str(s) => serde_json::Value::String(s.clone()),
            JsonValue::Array => serde_json::Value::Array(Vec::new()),
            JsonValue::Object => serde_json::Value::Object(serde_json::Map::new()),
        };
        object.insert(m.name.clone(), value);
    }
    serde_json::Value::Object(object)
}

#[test]
fn payload_survives_json_text() {
    let mut payload = Payload::new();
    payload.insert("message".to_string(), FieldValue::Str("he said \"hi\"\n".to_string()));
    payload.insert("webhook".to_string(), FieldValue::Str("https://example.test/hook".to_string()));
    payload.insert("priority".to_string(), FieldValue::Int(-5));
    payload.insert("ratio".to_string(), FieldValue::Float("2.5".to_string()));
    payload.insert("tiny".to_string(), FieldValue::Float("1e-7".to_string()));
    payload.insert("urgent".to_string(), FieldValue::Bool(true));
    let text = serde_json::to_string(&to_json(&payload.members())).unwrap();
    let members = parse_data(&text).unwrap().unwrap();
    let mut back = Payload::new();
    back.merge(&members);
    assert_eq!(back.len(), payload.len());
    for field in payload.fields() {
        assert_eq!(back.get(&field.name), Some(&field.value));
    }
}
