use emissary::payload::Payload;
use emissary::value::FieldValue;

#[test]
fn insert_replaces_the_value_of_a_name() {
    let mut payload = Payload::new();
    assert!(payload.is_empty());
    payload.insert("a".to_string(), FieldValue::Int(1));
    payload.insert("b".to_string(), FieldValue::Bool(true));
    payload.insert("a".to_string(), FieldValue::Str("x".to_string()));
    assert_eq!(payload.len(), 2);
    assert_eq!(payload.get("a"), Some(&FieldValue::Str("x".to_string())));
    assert_eq!(payload.get("b"), Some(&FieldValue::Bool(true)));
    assert_eq!(payload.get("c"), None);
    assert!(payload.contains_key("b"));
    assert!(!payload.contains_key("c"));
}

#[test]
fn a_new_payload_is_empty() {
    let payload = Payload::new();
    assert!(payload.is_empty());
    assert_eq!(payload.len(), 0);
    assert_eq!(payload.get("webhook"), None);
    assert!(payload.fields().is_empty());
}

#[test]
fn fields_hold_each_name_once() {
    let mut payload = Payload::new();
    payload.insert("b".to_string(), FieldValue::Int(1));
    payload.insert("a".to_string(), FieldValue::Int(2));
    payload.insert("b".to_string(), FieldValue::Int(3));
    let mut names: Vec<&str> = payload.fields().iter().map(|f| f.name.as_str()).collect();
    names.sort();
    assert_eq!(names, vec!["a", "b"]);
    for field in payload.fields() {
        assert_eq!(payload.get(&field.name), Some(&field.value));
    }
    assert_eq!(payload.get("b"), Some(&FieldValue::Int(3)));
    assert!(!payload.is_empty());
}

#[test]
fn names_are_told_apart_by_every_character() {
    let mut payload = Payload::new();
    payload.insert("key".to_string(), FieldValue::Int(1));
    payload.insert("Key".to_string(), FieldValue::Int(2));
    payload.insert("key ".to_string(), FieldValue::Int(3));
    payload.insert("".to_string(), FieldValue::Int(4));
    assert_eq!(payload.len(), 4);
    assert_eq!(payload.get("key"), Some(&FieldValue::Int(1)));
    assert_eq!(payload.get("Key"), Some(&FieldValue::Int(2)));
    assert_eq!(payload.get("key "), Some(&FieldValue::Int(3)));
    assert_eq!(payload.get(""), Some(&FieldValue::Int(4)));
}
