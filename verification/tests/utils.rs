use serde_json::Value;
use undetected_chromedriver::utils::{can_insert_nested_pref, insert_nested_pref, merge_json};

fn json(text: &str) -> Value {
    serde_json::from_str(text).unwrap()
}

fn map(text: &str) -> serde_json::Map<String, Value> {
    json(text).as_object().unwrap().clone()
}

#[test]
fn nested_pref_insertion() {
    let mut map = serde_json::Map::new();
    insert_nested_pref(&mut map, "a.b.c", Value::Bool(true));
    assert_eq!(map["a"]["b"]["c"], Value::Bool(true));
}

#[test]
fn merge_overwrites_scalars() {
    let mut a = json(r#"{"x": 1, "y": 2}"#);
    merge_json(&mut a, json(r#"{"y": 3, "z": 4}"#));
    assert_eq!(a, json(r#"{"x": 1, "y": 3, "z": 4}"#));
}

#[test]
fn merge_deep_objects() {
    let mut a = json(r#"{"a": {"b": 1}}"#);
    merge_json(&mut a, json(r#"{"a": {"c": 2}}"#));
    assert_eq!(a, json(r#"{"a": {"b": 1, "c": 2}}"#));
}

#[test]
fn insertion_without_a_dot_is_at_the_top() {
    let mut prefs = serde_json::Map::new();
    insert_nested_pref(&mut prefs, "plain", Value::Null);
    assert_eq!(prefs, map(r#"{"plain": null}"#));
}

#[test]
fn insertion_takes_empty_keys_as_they_are() {
    let mut prefs = serde_json::Map::new();
    insert_nested_pref(&mut prefs, ".x.", Value::Bool(false));
    assert_eq!(prefs, map(r#"{"": {"x": {"": false}}}"#));
}

#[test]
fn insertion_keeps_what_stands_elsewhere() {
    let mut prefs = map(r#"{"a": {"b": 1, "c": 2}, "d": 3}"#);
    insert_nested_pref(&mut prefs, "a.c", Value::Bool(true));
    assert_eq!(prefs, map(r#"{"a": {"b": 1, "c": true}, "d": 3}"#));
}

#[test]
fn second_insertion_at_a_path_stays() {
    let mut twice = serde_json::Map::new();
    insert_nested_pref(&mut twice, "a.b", Value::Bool(false));
    insert_nested_pref(&mut twice, "a.b", Value::Bool(true));
    let mut once = serde_json::Map::new();
    insert_nested_pref(&mut once, "a.b", Value::Bool(true));
    assert_eq!(twice, once);
}

#[test]
fn insertions_at_parting_paths_commute() {
    let start = map(r#"{"z": 0, "a": {"k": 1}}"#);
    for (p, q) in [("a.x", "a.y"), ("a.x.u", "a.x.v"), ("b", "a.k"), ("c.d", "e")] {
        let (v, w) = (Value::from(1), json(r#"{"w": [2]}"#));
        let mut one = start.clone();
        insert_nested_pref(&mut one, p, v.clone());
        insert_nested_pref(&mut one, q, w.clone());
        let mut two = start.clone();
        insert_nested_pref(&mut two, q, w);
        insert_nested_pref(&mut two, p, v);
        assert_eq!(one, two);
    }
}

#[test]
fn insertion_needs_objects_on_the_way() {
    let prefs = map(r#"{"a": {"b": 1}}"#);
    assert!(can_insert_nested_pref(&prefs, "a"));
    assert!(can_insert_nested_pref(&prefs, "a.b"));
    assert!(can_insert_nested_pref(&prefs, "a.c.d"));
    assert!(can_insert_nested_pref(&prefs, "z.y.x"));
    assert!(!can_insert_nested_pref(&prefs, "a.b.c"));
}

#[test]
fn merge_replaces_a_scalar_by_an_object() {
    let mut a = json(r#"{"a": 1}"#);
    merge_json(&mut a, json(r#"{"a": {"b": 2}}"#));
    assert_eq!(a, json(r#"{"a": {"b": 2}}"#));
}

#[test]
fn merge_replaces_an_object_by_a_scalar() {
    let mut a = json(r#"{"a": {"b": 2}}"#);
    merge_json(&mut a, json(r#"{"a": [1]}"#));
    assert_eq!(a, json(r#"{"a": [1]}"#));
}

#[test]
fn merge_of_values_that_are_no_objects_replaces() {
    let mut a = json("[1, 2]");
    merge_json(&mut a, json("3"));
    assert_eq!(a, json("3"));
}

#[test]
fn merge_keeps_the_order_of_keys() {
    let mut a = json(r#"{"z": 1, "a": 2}"#);
    merge_json(&mut a, json(r#"{"m": 3, "a": 4, "b": 5}"#));
    assert_eq!(a.to_string(), r#"{"z":1,"a":4,"m":3,"b":5}"#);
}

#[test]
fn merge_a_second_time_changes_nothing() {
    let b = json(r#"{"a": {"c": 2}, "d": null}"#);
    let mut once = json(r#"{"a": {"b": 1}, "e": 5}"#);
    merge_json(&mut once, b.clone());
    let mut twice = once.clone();
    merge_json(&mut twice, b);
    assert_eq!(once, twice);
}

#[test]
fn merge_with_itself_changes_nothing() {
    let v = json(r#"{"a": {"b": [1, {"c": null}]}, "d": "x"}"#);
    let mut merged = v.clone();
    merge_json(&mut merged, v.clone());
    assert_eq!(merged, v);
}
