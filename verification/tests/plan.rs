use serde_json::Value;
use undetected_chromedriver::error::ChromeError;
use undetected_chromedriver::plan::{followed_by, may, must, or_stop, Action, Run, Step};

fn open(url: &str) -> Action {
    Action::Navigate(url.to_string())
}

fn perform(steps: Vec<Step>, outcomes: Vec<Option<i64>>) -> (usize, Result<Value, String>) {
    let mut run = Run::new(steps);
    let mut performed = 0;
    for outcome in outcomes {
        if run.action().is_none() {
            break;
        }
        performed += 1;
        let outcome = match outcome {
            Some(n) => Ok(Value::from(n)),
            None => Err(ChromeError::from(format!("step {performed}"))),
        };
        if let Err(e) = run.report(outcome) {
            assert!(run.action().is_none());
            return match e {
                ChromeError::Other(s) => (performed, Err(s)),
                _ => panic!("another error"),
            };
        }
    }
    (performed, Ok(run.into_reply()))
}

#[test]
fn run_performs_every_step() {
    let steps = vec![must(open("a")), may(open("b")), must(open("c"))];
    assert_eq!(perform(steps, vec![Some(1), None, Some(3)]), (3, Ok(Value::from(3))));
}

#[test]
fn reply_is_that_of_the_last_success() {
    let steps = vec![must(open("a")), may(open("b"))];
    assert_eq!(perform(steps, vec![Some(1), None]), (2, Ok(Value::from(1))));
    assert_eq!(perform(vec![may(open("a"))], vec![None]), (1, Ok(Value::Null)));
}

#[test]
fn run_ends_with_the_error_of_a_required_step() {
    let steps = vec![may(open("a")), must(open("b")), must(open("c"))];
    assert_eq!(
        perform(steps, vec![None, None, Some(3)]),
        (2, Err("step 2".to_string()))
    );
}

#[test]
fn run_stops_quietly() {
    let steps = vec![or_stop(open("a")), must(open("b"))];
    assert_eq!(perform(steps, vec![None, Some(2)]), (1, Ok(Value::Null)));
    let steps = vec![or_stop(open("a")), must(open("b"))];
    assert_eq!(perform(steps, vec![Some(1), Some(2)]), (2, Ok(Value::from(2))));
}

#[test]
fn run_without_steps_is_finished() {
    assert!(Run::new(Vec::new()).action().is_none());
    assert_eq!(Run::new(Vec::new()).into_reply(), Value::Null);
}

#[test]
fn action_is_the_next_one() {
    let mut run = Run::new(vec![must(open("a")), must(open("b"))]);
    assert_eq!(run.action(), Some(&open("a")));
    run.report(Ok(Value::Null)).unwrap();
    assert_eq!(run.action(), Some(&open("b")));
}

#[test]
fn plans_follow_each_other() {
    let all = followed_by(vec![must(open("a"))], vec![may(open("b")), may(open("c"))]);
    assert_eq!(all, vec![must(open("a")), may(open("b")), may(open("c"))]);
}
