use agile_inc::json::{string_array, JsonValue};

fn obj(entries: Vec<(&str, JsonValue)>) -> JsonValue {
    JsonValue::Object(entries.into_iter().map(|(k, v)| (k.to_string(), v)).collect())
}

#[test]
fn get_finds_the_first_entry_with_the_key() {
    let v = obj(vec![("a", JsonValue::string("x")), ("b", JsonValue::Bool(true)), ("a", JsonValue::string("y"))]);
    assert_eq!(v.get_str("a"), Some("x".to_string()));
    assert!(matches!(v.get("b"), Some(JsonValue::Bool(true))));
    assert!(v.get("c").is_none());
    assert_eq!(v.get_str("b"), None);
    assert!(JsonValue::string("a").get("a").is_none());
}

#[test]
fn set_then_get_reads_back_the_value() {
    let mut v = obj(vec![("a", JsonValue::string("x")), ("b", JsonValue::Null)]);
    v.set("a", JsonValue::string("z"));
    v.set("c", JsonValue::Number("3".to_string()));
    assert_eq!(v.get_str("a"), Some("z".to_string()));
    assert!(matches!(v.get("b"), Some(JsonValue::Null)));
    assert!(matches!(v.get("c"), Some(JsonValue::Number(n)) if n == "3"));
    assert_eq!(v.to_text(), "{\"a\":\"z\",\"b\":null,\"c\":3}");
}

#[test]
fn set_on_null_makes_an_object() {
    let mut v = JsonValue::Null;
    v.set("k", JsonValue::Bool(false));
    assert_eq!(v.to_text(), "{\"k\":false}");
}

#[test]
fn string_lists_skip_other_members() {
    let v = obj(vec![(
        "l",
        JsonValue::Array(vec![JsonValue::string("a"), JsonValue::Number("1".to_string()), JsonValue::string("b")]),
    )]);
    assert_eq!(v.get_string_list("l"), Some(vec!["a".to_string(), "b".to_string()]));
    assert_eq!(v.get_string_list("missing"), None);
    let w = obj(vec![("l", JsonValue::string("not a list"))]);
    assert_eq!(w.get_string_list("l"), None);
}

#[test]
fn string_arrays_read_back() {
    let items = vec!["x".to_string(), "y \"q\"".to_string()];
    let arr = string_array(&items);
    assert_eq!(arr.to_text(), "[\"x\",\"y \\\"q\\\"\"]");
    let holder = obj(vec![("l", arr)]);
    assert_eq!(holder.get_string_list("l"), Some(items));
}

#[test]
fn compact_text_of_values() {
    let v = obj(vec![
        ("n", JsonValue::Null),
        ("t", JsonValue::Bool(true)),
        ("num", JsonValue::Number("-1.5".to_string())),
        ("arr", JsonValue::Array(vec![])),
        ("o", obj(vec![])),
    ]);
    assert_eq!(v.to_text(), "{\"arr\":[],\"n\":null,\"num\":-1.5,\"o\":{},\"t\":true}");
}

#[test]
fn quoting_escapes_specials() {
    assert_eq!(JsonValue::string("a\"b\\c\nd").to_text(), "\"a\\\"b\\\\c\\nd\"");
    assert_eq!(JsonValue::string("").to_text(), "\"\"");
    assert_eq!(obj(vec![("k\"", JsonValue::Null)]).to_text(), "{\"k\\\"\":null}");
}

#[test]
fn copies_are_equal_in_text() {
    let v = obj(vec![("a", JsonValue::Array(vec![JsonValue::string("x"), JsonValue::Bool(false)]))]);
    assert_eq!(v.copy().to_text(), v.to_text());
}

#[test]
fn compact_text_keeps_first_of_duplicate_keys() {
    let v = JsonValue::Object(vec![
        ("a".to_string(), JsonValue::Number("1".to_string())),
        ("a".to_string(), JsonValue::Number("2".to_string())),
    ]);
    assert!(matches!(v.get("a"), Some(JsonValue::Number(n)) if n == "1"));
    assert_eq!(v.to_text(), "{\"a\":1}");
}
