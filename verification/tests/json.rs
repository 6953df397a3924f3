use warden_secret_operator::json::{JsonNumber, JsonObject, JsonValue};

#[test]
fn members_of_an_object() {
    let mut object = JsonObject::new();
    object.insert("a".to_owned(), JsonValue::Bool(true));
    object.insert("b".to_owned(), JsonValue::Text("x".to_owned()));
    object.insert("a".to_owned(), JsonValue::Null);
    assert!(matches!(object.get("a"), Some(JsonValue::Null)));
    assert!(object.get("c").is_none());
    assert!(matches!(object.remove("a"), Some(JsonValue::Null)));
    assert!(object.remove("a").is_none());
    assert_eq!(object.into_entries().len(), 1);
}

#[test]
fn later_entries_count() {
    let object = JsonObject::from_entries(vec![
        ("k".to_owned(), JsonValue::Bool(false)),
        ("k".to_owned(), JsonValue::Bool(true)),
    ]);
    let value = JsonValue::Object(object);
    assert!(matches!(value.get("k"), Some(JsonValue::Bool(true))));
    assert!(value.get("l").is_none());
    assert!(JsonValue::Null.get("k").is_none());
}

#[test]
fn texts_and_integers() {
    let text = JsonValue::Text("Ready".to_owned());
    assert_eq!(text.as_str(), Some("Ready"));
    assert!(text.is_text("Ready"));
    assert!(!text.is_text("True"));
    assert_eq!(JsonValue::Null.as_str(), None);
    assert!(!JsonValue::Bool(true).is_text("true"));
    assert!(matches!(JsonValue::integer(7), JsonValue::Number(JsonNumber::PosInt(7))));
    assert!(matches!(JsonValue::integer(0), JsonValue::Number(JsonNumber::PosInt(0))));
    assert!(matches!(JsonValue::integer(-7), JsonValue::Number(JsonNumber::NegInt(-7))));
}
