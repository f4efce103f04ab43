use serde_json::Value;
use undetected_chromedriver::error::ChromeError;
use undetected_chromedriver::plan::{Action, OnError};
use undetected_chromedriver::waiting::{
    answer_dialog, connect_failed, look_for_element, look_for_text, poll, reconnect_failed,
    wait_for_alert, wait_for_element, wait_for_text, Poll, Retry,
};

fn words<T>(r: Result<T, ChromeError>) -> String {
    match r {
        Err(ChromeError::Other(s)) => s,
        _ => panic!("no error in words"),
    }
}

#[test]
fn poll_looks_before_it_times_out() {
    assert_eq!(poll(true, 9, 5), Poll::Found);
    assert_eq!(poll(false, 4, 5), Poll::Again);
    assert_eq!(poll(false, 5, 5), Poll::TimedOut);
}

#[test]
fn waiting_for_an_element() {
    assert_eq!(wait_for_element(true, 10, 10, "#a", "2").unwrap(), None);
    assert_eq!(wait_for_element(false, 9, 10, "#a", "2").unwrap(), Some(200));
    assert_eq!(
        words(wait_for_element(false, 10, 10, "#a", "2.5")),
        "wait_for_element: '#a' not found within 2.5s"
    );
    let steps = look_for_element("#a");
    assert_eq!(steps.len(), 1);
    assert_eq!(steps[0].action, Action::FindCss("#a".to_string()));
    assert_eq!(steps[0].on_error, OnError::Fail);
}

#[test]
fn waiting_for_a_text() {
    let (yes, no, number) = (Value::Bool(true), Value::Bool(false), Value::from(1));
    assert_eq!(wait_for_text(Some(&yes), 9, 1, "t", "#a", "1").unwrap(), None);
    assert_eq!(wait_for_text(Some(&no), 0, 1, "t", "#a", "1").unwrap(), Some(200));
    assert_eq!(wait_for_text(Some(&number), 0, 1, "t", "#a", "1").unwrap(), Some(200));
    assert_eq!(
        words(wait_for_text(None, 1, 1, "t", "#a", "1")),
        "wait_for_text: 't' not in '#a' within 1s"
    );
    assert_eq!(
        look_for_text("t", "#a")[0].action,
        Action::Execute(
            "const e=document.querySelector('#a');return e?e.innerText.includes('t'):false;"
                .to_string()
        )
    );
}

#[test]
fn waiting_for_a_dialog() {
    assert_eq!(wait_for_alert(true, 3, 2, true, "1").unwrap(), None);
    assert_eq!(wait_for_alert(false, 1, 2, true, "1").unwrap(), Some(200));
    assert_eq!(
        words(wait_for_alert(false, 2, 2, true, "1.5")),
        "wait_for_and_accept_alert: timed out after 1.5s"
    );
    assert_eq!(
        words(wait_for_alert(false, 2, 2, false, "3")),
        "wait_for_and_dismiss_alert: timed out after 3s"
    );
    assert_eq!(
        answer_dialog(false)[0].action,
        Action::CommandWith(
            "Page.handleJavaScriptDialog".to_string(),
            serde_json::from_str(r#"{"accept": false}"#).unwrap()
        )
    );
}

#[test]
fn twenty_attempts_are_made() {
    let mut retry = Retry::new();
    let mut made = 0;
    while retry.may_try() {
        made += 1;
        assert_eq!(retry.attempt_failed(), 250);
    }
    assert_eq!(made, 20);
}

#[test]
fn errors_after_the_last_attempt() {
    assert_eq!(
        words::<()>(Err(connect_failed())),
        "Failed to create WebDriver after 20 attempts"
    );
    assert_eq!(words::<()>(Err(reconnect_failed())), "Failed to reconnect WebDriver");
}
