use gohangout_rs::event::Event;
use gohangout_rs::json::{JsonValue, ObjectMap};
use gohangout_rs::text::{compare_text, join, lower_eq, u64_text, i64_text};

#[test]
fn object_map_insert_get_remove() {
    let mut m = ObjectMap::new();
    assert!(m.is_empty());
    assert!(m.insert("b".to_string(), JsonValue::from_u64(2)).is_none());
    assert!(m.insert("a".to_string(), JsonValue::from_u64(1)).is_none());
    let old = m.insert("b".to_string(), JsonValue::from_u64(3));
    assert_eq!(old.unwrap().as_u64(), Some(2));
    assert_eq!(m.len(), 2);
    assert_eq!(m.get("b").unwrap().as_u64(), Some(3));
    assert!(m.contains_key("a"));
    let keys: Vec<&str> = m.entries().iter().map(|(k, _)| k.as_str()).collect();
    assert_eq!(keys, vec!["a", "b"]);
    assert_eq!(m.remove("a").unwrap().as_u64(), Some(1));
    assert!(m.remove("a").is_none());
    assert!(!m.contains_key("a"));
}

#[test]
fn json_text_round_trip() {
    let v = JsonValue::parse(r#"{"z": [1, -2, "s", null, true], "a": {"x": 1.5}}"#).unwrap();
    assert_eq!(v.to_json_text(), r#"{"a":{"x":1.5},"z":[1,-2,"s",null,true]}"#);
    let again = JsonValue::parse(&v.to_json_text()).unwrap();
    assert!(again.equals(&v));
    assert!(JsonValue::parse("{").is_err());
    assert_eq!(JsonValue::from_i64(-5).as_i64(), Some(-5));
    assert_eq!(JsonValue::from_i64(7).as_u64(), Some(7));
    assert!(JsonValue::empty_object().is_object());
}

#[test]
fn text_helpers() {
    assert_eq!(u64_text(0), "0");
    assert_eq!(u64_text(18446744073709551615), "18446744073709551615");
    assert_eq!(i64_text(-9223372036854775808), "-9223372036854775808");
    assert!(lower_eq("JsOn", "json"));
    assert!(!lower_eq("jsn", "json"));
    assert_eq!(compare_text("a", "b"), -1);
    assert_eq!(compare_text("b", "a"), 1);
    assert_eq!(compare_text("ab", "ab"), 0);
    assert_eq!(join(&vec!["a".to_string(), "b".to_string()], ", "), "a, b");
    assert_eq!(join(&vec![], ", "), "");
}

#[test]
fn identifiers_are_version_four_and_read_back() {
    let e = Event::new(JsonValue::empty_object());
    let id = e.id();
    assert_eq!((id >> 76) & 0xF, 4);
    assert_ne!(Event::new(JsonValue::empty_object()).id(), id);
    let text = e.to_json().unwrap();
    assert_eq!(Event::from_json(&text).unwrap().id(), id);
}
