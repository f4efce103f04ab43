use serde_json::Value;
use undetected_chromedriver::profile::{profile_preferences, stealth_preferences};

fn json(text: &str) -> Value {
    serde_json::from_str(text).unwrap()
}

const STEALTH: &str = r#"{"credentials_enable_service":false,"profile":{"password_manager_enabled":false,"password_manager_leak_detection":false,"exit_type":null},"webrtc":{"ip_handling_policy":"disable_non_proxied_udp","multiple_routes_enabled":false,"nonproxied_udp_enabled":false}}"#;

#[test]
fn stealth_preferences_are_complete() {
    assert_eq!(stealth_preferences(), json(STEALTH));
}

#[test]
fn new_profile_holds_the_stealth_preferences() {
    assert_eq!(profile_preferences(None).unwrap(), STEALTH);
}

#[test]
fn broken_preferences_are_replaced() {
    assert_eq!(profile_preferences(Some("{not json")).unwrap(), STEALTH);
}

#[test]
fn existing_preferences_stay() {
    let old = r#"{"profile": {"name": "me", "exit_type": "Crashed"}, "theme": 7}"#;
    let written = json(&profile_preferences(Some(old)).unwrap());
    assert_eq!(written["theme"], json("7"));
    assert_eq!(written["profile"]["name"], json("\"me\""));
    assert_eq!(written["profile"]["exit_type"], Value::Null);
    assert_eq!(written["profile"]["password_manager_enabled"], Value::Bool(false));
    assert_eq!(written["webrtc"], json(STEALTH)["webrtc"]);
}

#[test]
fn preferences_that_are_no_object_are_replaced() {
    assert_eq!(profile_preferences(Some("[1]")).unwrap(), STEALTH);
}

#[test]
fn writing_a_profile_twice_changes_nothing() {
    let once = profile_preferences(Some(r#"{"a": 1, "profile": {"b": 2}}"#)).unwrap();
    assert_eq!(profile_preferences(Some(&once)).unwrap(), once);
}
