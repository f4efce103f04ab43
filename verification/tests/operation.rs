use serde_json::Value;
use undetected_chromedriver::chrome;
use undetected_chromedriver::error::ChromeError;
use undetected_chromedriver::operation::{next_ask, Answer, Ask, Operation};
use undetected_chromedriver::plan::Step;

fn json(text: &str) -> Value {
    serde_json::from_str(text).unwrap()
}

fn after(reply: Value) -> Answer {
    Answer { reply: Some(reply), windows: 0 }
}

fn nothing() -> Answer {
    Answer { reply: None, windows: 0 }
}

fn performed(operation: &Operation, stage: usize, answer: &Answer) -> Vec<Step> {
    match next_ask(operation, stage, answer) {
        Ok(Some(Ask::Perform(steps))) => steps,
        _ => panic!("no plan to perform"),
    }
}

fn probed(operation: &Operation) -> Vec<Step> {
    match next_ask(operation, 0, &nothing()) {
        Ok(Some(Ask::Probe(steps))) => steps,
        _ => panic!("no plan to probe"),
    }
}

fn done(operation: &Operation, stage: usize) -> bool {
    matches!(next_ask(operation, stage, &nothing()), Ok(None))
}

#[test]
fn navigating_in_stages() {
    let props = json(r#"["cdc_x"]"#);
    let goto = Operation::Goto("u".to_string());
    assert_eq!(performed(&goto, 0, &nothing()), chrome::goto_check());
    assert_eq!(performed(&goto, 1, &after(props.clone())), chrome::goto(&props, "u").unwrap());
    assert!(done(&goto, 2));
    let uc_get = Operation::UcGet("u".to_string());
    assert_eq!(performed(&uc_get, 0, &nothing()), chrome::uc_get_check());
    assert_eq!(performed(&uc_get, 1, &after(props.clone())), chrome::uc_get(&props, "u").unwrap());
    assert!(done(&uc_get, 2));
}

#[test]
fn challenge_after_navigating() {
    let bypass = Operation::BypassCloudflare("u".to_string());
    assert_eq!(performed(&bypass, 0, &nothing()), chrome::goto_check());
    assert_eq!(
        performed(&bypass, 1, &after(json("[]"))),
        chrome::goto(&json("[]"), "u").unwrap()
    );
    assert_eq!(performed(&bypass, 2, &nothing()), chrome::bypass_cloudflare());
    assert!(done(&bypass, 3));
}

#[test]
fn tab_in_stages() {
    let tab = Operation::OpenWithTab("u".to_string());
    let with = |windows| Answer { reply: None, windows };
    assert_eq!(performed(&tab, 0, &nothing()), chrome::uc_open_with_tab("u"));
    assert!(matches!(next_ask(&tab, 1, &nothing()), Ok(Some(Ask::ReadWindows))));
    assert_eq!(performed(&tab, 2, &with(2)), chrome::close_original_window(2));
    assert!(matches!(next_ask(&tab, 3, &with(2)), Ok(Some(Ask::ReadWindows))));
    assert_eq!(performed(&tab, 4, &with(1)), chrome::enter_last_window(1));
    assert!(done(&tab, 5));
}

#[test]
fn asking_before_clicking() {
    let click = Operation::ClickIfVisible("#a".to_string());
    assert_eq!(probed(&click), chrome::is_element_visible("#a"));
    assert_eq!(
        performed(&click, 1, &after(Value::Bool(true))),
        chrome::click_if_visible(true, "#a")
    );
    assert!(performed(&click, 1, &nothing()).is_empty());
    assert!(done(&click, 2));
}

#[test]
fn one_of_two_clicks_a_box() {
    let check = Operation::CheckIfUnchecked("#a".to_string());
    let uncheck = Operation::UncheckIfChecked("#a".to_string());
    assert_eq!(probed(&check), chrome::is_checked("#a"));
    assert_eq!(probed(&uncheck), chrome::is_checked("#a"));
    assert_eq!(performed(&check, 1, &nothing()), chrome::uc_click("#a"));
    assert!(performed(&uncheck, 1, &nothing()).is_empty());
    assert!(performed(&check, 1, &after(Value::Bool(true))).is_empty());
    assert_eq!(performed(&uncheck, 1, &after(Value::Bool(true))), chrome::uc_click("#a"));
}

#[test]
fn hovering_in_stages() {
    let hover = Operation::HoverElement("#a".to_string());
    assert_eq!(performed(&hover, 0, &nothing()), chrome::element_center("#a"));
    assert_eq!(
        performed(&hover, 1, &after(json("[1, 2]"))),
        chrome::hover_element(&json("[1, 2]")).unwrap()
    );
    match next_ask(&hover, 1, &after(Value::Null)) {
        Err(ChromeError::Other(s)) => assert_eq!(s, "hover: missing x coordinate"),
        _ => panic!("no error"),
    }
}

#[test]
fn windows_in_stages() {
    let target = json(r#"{"windowId": 3}"#);
    let rect = Operation::SetWindowRect(1, 2, 3, 4);
    for operation in [&Operation::GetWindowRect, &rect, &Operation::Maximize, &Operation::Minimize]
    {
        assert_eq!(performed(operation, 0, &nothing()), chrome::find_window());
        assert!(done(operation, 2));
    }
    let answer = after(target.clone());
    assert_eq!(
        performed(&Operation::GetWindowRect, 1, &answer),
        chrome::get_window_rect(&target)
    );
    assert_eq!(performed(&rect, 1, &answer), chrome::set_window_rect(&target, 1, 2, 3, 4));
    assert_eq!(performed(&Operation::Maximize, 1, &answer), chrome::maximize(&target));
    assert_eq!(performed(&Operation::Minimize, 1, &answer), chrome::minimize(&target));
}
