//! Waiting: polling the page until a deadline, and trying again a limited number of times.

use vstd::prelude::*;
use vstd::string::*;

use serde_json::Value;

use crate::chrome::flag_reply;
use crate::chrome::running;
use crate::commands::dialog;
use crate::commands::dialog_command;
use crate::error::says;
use crate::error::ChromeError;
use crate::json::{json_of, Json};
use crate::plan::{must, Action, Step};
use crate::plan::{plan, required, ActionView};
use crate::scripts;

verus! {

/// How long a poll waits before it looks again, in milliseconds.
pub const POLL_INTERVAL: u64 = 200;

/// What a poll does after it has looked.
#[derive(Debug, Clone, Copy, PartialEq, Eq, Structural)]
pub enum Poll {
    /// It found what it looked for.
    Found,
    /// It found nothing, and the deadline has come.
    TimedOut,
    /// It found nothing yet: it looks again after a pause.
    Again,
}

/// What a poll does after it has looked at the time `now`.
pub open spec fn polled(found: bool, now: nat, deadline: nat) -> Poll {
    if found {
        Poll::Found
    } else if now >= deadline {
        Poll::TimedOut
    } else {
        Poll::Again
    }
}

/// What a poll does after it has looked. Both times are nanoseconds since the same moment.
pub fn poll(found: bool, now: u128, deadline: u128) -> (r: Poll)
    ensures
        r == polled(found, now as nat, deadline as nat),
{
    if found {
        Poll::Found
    } else if now >= deadline {
        Poll::TimedOut
    } else {
        Poll::Again
    }
}

/// What comes of a poll: nothing more to do, a pause in milliseconds, or an error in the given
/// words.
fn settle(step: Poll, timed_out: String) -> (r: Result<Option<u64>, ChromeError>)
    ensures
        match step {
            Poll::Found => r is Ok && r->Ok_0 is None,
            Poll::Again => r is Ok && r->Ok_0 == Some(POLL_INTERVAL),
            Poll::TimedOut => r is Err && says(r->Err_0, timed_out@),
        },
{
    match step {
        Poll::Found => Ok(None),
        Poll::Again => Ok(Some(POLL_INTERVAL)),
        Poll::TimedOut => Err(ChromeError::from(timed_out)),
    }
}

// ─── Elements ────────────────────────────────────────────────────────────────

/// Look for an element.
pub fn look_for_element(css_selector: &str) -> (r: Vec<Step>)
    ensures
        plan(r@) == seq![required(ActionView::FindCss(css_selector@))],
{
    vec![must(Action::FindCss(css_selector.to_string()))]
}

/// One round of waiting for an element, after looking for it; `timeout_secs` is the timeout as
/// it is written.
pub fn wait_for_element(
    found: bool,
    now: u128,
    deadline: u128,
    css_selector: &str,
    timeout_secs: &str,
) -> (r: Result<Option<u64>, ChromeError>)
    ensures
        match polled(found, now as nat, deadline as nat) {
            Poll::Found => r is Ok && r->Ok_0 is None,
            Poll::Again => r is Ok && r->Ok_0 == Some(POLL_INTERVAL),
            Poll::TimedOut => r is Err && says(
                r->Err_0,
                "wait_for_element: '"@ + css_selector@ + "' not found within "@ + timeout_secs@
                    + "s"@,
            ),
        },
{
    let mut words: String = "wait_for_element: '".to_string();
    words.append(css_selector);
    words.append("' not found within ");
    words.append(timeout_secs);
    words.append("s");
    settle(poll(found, now, deadline), words)
}

// ─── Text ────────────────────────────────────────────────────────────────────

/// Ask whether an element shows a text.
pub fn look_for_text(text: &str, css_selector: &str) -> (r: Vec<Step>)
    ensures
        plan(r@) == seq![running(scripts::text_shown_script(css_selector@, text@))],
{
    vec![must(Action::Execute(scripts::text_shown(css_selector, text)))]
}

/// One round of waiting for a text, after asking for it: the text is there where there is a
/// reply and it is `true`.
pub fn wait_for_text(
    reply: Option<&Value>,
    now: u128,
    deadline: u128,
    text: &str,
    css_selector: &str,
    timeout_secs: &str,
) -> (r: Result<Option<u64>, ChromeError>)
    ensures
        match polled(
            reply matches Some(v) && json_of(*v) == Json::Bool(true),
            now as nat,
            deadline as nat,
        ) {
            Poll::Found => r is Ok && r->Ok_0 is None,
            Poll::Again => r is Ok && r->Ok_0 == Some(POLL_INTERVAL),
            Poll::TimedOut => r is Err && says(
                r->Err_0,
                "wait_for_text: '"@ + text@ + "' not in '"@ + css_selector@ + "' within "@
                    + timeout_secs@ + "s"@,
            ),
        },
{
    let mut words: String = "wait_for_text: '".to_string();
    words.append(text);
    words.append("' not in '");
    words.append(css_selector);
    words.append("' within ");
    words.append(timeout_secs);
    words.append("s");
    settle(poll(flag_reply(reply), now, deadline), words)
}

// ─── Alerts ──────────────────────────────────────────────────────────────────

/// Accept or dismiss a JavaScript dialog.
pub fn answer_dialog(accept: bool) -> (r: Vec<Step>)
    ensures
        plan(r@) == seq![required(dialog_command(accept))],
{
    vec![must(dialog(accept))]
}

/// One round of waiting for a dialog, after trying to answer it.
pub fn wait_for_alert(
    answered: bool,
    now: u128,
    deadline: u128,
    accept: bool,
    timeout_secs: &str,
) -> (r: Result<Option<u64>, ChromeError>)
    ensures
        match polled(answered, now as nat, deadline as nat) {
            Poll::Found => r is Ok && r->Ok_0 is None,
            Poll::Again => r is Ok && r->Ok_0 == Some(POLL_INTERVAL),
            Poll::TimedOut => r is Err && says(
                r->Err_0,
                "wait_for_and_"@ + (if accept {
                    "accept"@
                } else {
                    "dismiss"@
                }) + "_alert: timed out after "@ + timeout_secs@ + "s"@,
            ),
        },
{
    let mut words: String = "wait_for_and_".to_string();
    words.append(
        if accept {
            "accept"
        } else {
            "dismiss"
        },
    );
    words.append("_alert: timed out after ");
    words.append(timeout_secs);
    words.append("s");
    settle(poll(answered, now, deadline), words)
}

// ─── Laws of a poll ──────────────────────────────────────────────────────────

/// One look of a poll: whether it found what it looked for, and when.
pub struct Look {
    pub found: bool,
    pub at: nat,
}

/// Where a row of looks ends: found, timed out, or still waiting.
pub open spec fn waited(looks: Seq<Look>, deadline: nat) -> Poll
    decreases looks.len(),
{
    if looks.len() == 0 {
        Poll::Again
    } else {
        match polled(looks[0].found, looks[0].at, deadline) {
            Poll::Again => waited(looks.drop_first(), deadline),
            over => over,
        }
    }
}

/// The poll goes on after every look before `at`.
pub open spec fn goes_on_until(looks: Seq<Look>, deadline: nat, at: int) -> bool {
    &&& 0 <= at < looks.len()
    &&& forall|i: int|
        0 <= i < at ==> !(#[trigger] looks[i]).found && looks[i].at < deadline
}

/// Law: a poll succeeds exactly where a look finds something and every look before it came
/// before the deadline; the first look counts however late it is.
pub proof fn law_poll_finds(looks: Seq<Look>, deadline: nat)
    ensures
        waited(looks, deadline) == Poll::Found <==> exists|at: int|
            #[trigger] goes_on_until(looks, deadline, at) && looks[at].found,
        looks.len() > 0 && looks[0].found ==> waited(looks, deadline) == Poll::Found,
    decreases looks.len(),
{
    if looks.len() > 0 {
        if polled(looks[0].found, looks[0].at, deadline) == Poll::Again {
            let rest = looks.drop_first();
            law_poll_finds(rest, deadline);
            if waited(rest, deadline) == Poll::Found {
                let at = choose|at: int|
                    #[trigger] goes_on_until(rest, deadline, at) && rest[at].found;
                lemma_goes_on_shifted(looks, deadline, at);
                assert(goes_on_until(looks, deadline, at + 1) && looks[at + 1].found);
            }
            if exists|at: int| #[trigger] goes_on_until(looks, deadline, at) && looks[at].found {
                let at = choose|at: int|
                    #[trigger] goes_on_until(looks, deadline, at) && looks[at].found;
                assert(at > 0);
                lemma_goes_on_shifted(looks, deadline, at - 1);
                assert(goes_on_until(rest, deadline, at - 1) && rest[at - 1].found);
            }
        } else if looks[0].found {
            assert(goes_on_until(looks, deadline, 0) && looks[0].found);
        }
    }
}

/// Law: a poll times out exactly where a look comes at the deadline or later and finds nothing,
/// and every look before it came before the deadline.
pub proof fn law_poll_times_out(looks: Seq<Look>, deadline: nat)
    ensures
        waited(looks, deadline) == Poll::TimedOut <==> exists|at: int|
            #[trigger] goes_on_until(looks, deadline, at) && !looks[at].found && looks[at].at
                >= deadline,
    decreases looks.len(),
{
    if looks.len() > 0 {
        if polled(looks[0].found, looks[0].at, deadline) == Poll::Again {
            let rest = looks.drop_first();
            law_poll_times_out(rest, deadline);
            if waited(rest, deadline) == Poll::TimedOut {
                let at = choose|at: int|
                    #[trigger] goes_on_until(rest, deadline, at) && !rest[at].found && rest[at].at
                        >= deadline;
                lemma_goes_on_shifted(looks, deadline, at);
                assert(goes_on_until(looks, deadline, at + 1));
            }
            if exists|at: int| #[trigger]
                goes_on_until(looks, deadline, at) && !looks[at].found && looks[at].at
                    >= deadline {
                let at = choose|at: int| #[trigger]
                    goes_on_until(looks, deadline, at) && !looks[at].found && looks[at].at
                        >= deadline;
                assert(at > 0);
                lemma_goes_on_shifted(looks, deadline, at - 1);
                assert(goes_on_until(rest, deadline, at - 1));
            }
        } else if !looks[0].found {
            assert(goes_on_until(looks, deadline, 0));
        }
    }
}

/// Whether a poll goes on past its first look can be read off the looks behind it.
proof fn lemma_goes_on_shifted(looks: Seq<Look>, deadline: nat, at: int)
    requires
        looks.len() > 0,
        !looks[0].found,
        looks[0].at < deadline,
        at >= 0,
    ensures
        goes_on_until(looks, deadline, at + 1) <==> goes_on_until(
            looks.drop_first(),
            deadline,
            at,
        ),
{
    let rest = looks.drop_first();
    if goes_on_until(looks, deadline, at + 1) {
        assert forall|i: int| 0 <= i < at implies !(#[trigger] rest[i]).found && rest[i].at
            < deadline by {
            assert(!looks[i + 1].found && looks[i + 1].at < deadline);
        }
    }
    if goes_on_until(rest, deadline, at) {
        assert forall|i: int| 0 <= i < at + 1 implies !(#[trigger] looks[i]).found && looks[i].at
            < deadline by {
            if i > 0 {
                assert(!rest[i - 1].found && rest[i - 1].at < deadline);
            }
        }
    }
}

// ─── Trying again ────────────────────────────────────────────────────────────

/// How often a connection is tried.
pub const MAX_ATTEMPTS: u32 = 20;

/// How long to wait after an attempt that failed, in milliseconds.
pub const RETRY_INTERVAL: u64 = 250;

/// Another attempt may be made after a number of failures.
pub open spec fn may_try_after(failures: nat) -> bool {
    failures < MAX_ATTEMPTS
}

/// Attempts at a connection.
pub struct Retry {
    failures: u32,
}

impl Retry {
    /// How many attempts have failed.
    pub closed spec fn failed_attempts(self) -> nat {
        self.failures as nat
    }

    /// No more attempts have failed than may be made.
    #[verifier::type_invariant]
    spec fn limited(self) -> bool {
        self.failures <= MAX_ATTEMPTS
    }

    /// No attempt has been made yet.
    pub fn new() -> (r: Retry)
        ensures
            r.failed_attempts() == 0,
    {
        Retry { failures: 0 }
    }

    /// Whether another attempt may be made.
    pub fn may_try(&self) -> (r: bool)
        ensures
            r == may_try_after(self.failed_attempts()),
    {
        self.failures < MAX_ATTEMPTS
    }

    /// Record that an attempt failed; the result is how long to wait.
    pub fn attempt_failed(&mut self) -> (r: u64)
        requires
            may_try_after(old(self).failed_attempts()),
        ensures
            final(self).failed_attempts() == old(self).failed_attempts() + 1,
            r == RETRY_INTERVAL,
    {
        self.failures = self.failures + 1;
        RETRY_INTERVAL
    }
}

/// The error after the last attempt at a first connection.
pub fn connect_failed() -> (r: ChromeError)
    ensures
        says(r, "Failed to create WebDriver after 20 attempts"@),
{
    ChromeError::from("Failed to create WebDriver after 20 attempts")
}

/// The error after the last attempt at reconnecting.
pub fn reconnect_failed() -> (r: ChromeError)
    ensures
        says(r, "Failed to reconnect WebDriver"@),
{
    ChromeError::from("Failed to reconnect WebDriver")
}

/// The attempts that are made where `outcomes` says of each whether it would succeed: how many,
/// and whether the last one succeeded.
pub open spec fn attempts(outcomes: Seq<bool>, failures: nat) -> (nat, bool)
    decreases outcomes.len(),
{
    if outcomes.len() == 0 || !may_try_after(failures) {
        (failures, false)
    } else if outcomes[0] {
        (failures + 1, true)
    } else {
        attempts(outcomes.drop_first(), failures + 1)
    }
}

/// Law: attempts stop at the first success, and after [`MAX_ATTEMPTS`] failures at the latest.
pub proof fn law_attempts(outcomes: Seq<bool>)
    requires
        outcomes.len() >= MAX_ATTEMPTS,
    ensures
        attempts(outcomes, 0).0 <= MAX_ATTEMPTS,
        attempts(outcomes, 0).1 ==> attempts(outcomes, 0).0 >= 1 && outcomes[attempts(
            outcomes,
            0,
        ).0 - 1],
        attempts(outcomes, 0).1 ==> forall|i: int|
            0 <= i < attempts(outcomes, 0).0 - 1 ==> !#[trigger] outcomes[i],
        !attempts(outcomes, 0).1 ==> attempts(outcomes, 0).0 == MAX_ATTEMPTS,
        !attempts(outcomes, 0).1 ==> forall|i: int|
            0 <= i < MAX_ATTEMPTS ==> !#[trigger] outcomes[i],
{
    assert(outcomes.skip(0) =~= outcomes);
    lemma_attempts(outcomes, 0);
}

/// Law: a `Retry` allows exactly the attempts that are counted: where it allows none, none is
/// counted; an attempt that succeeds is the last; and after one that fails the count goes on as
/// the `Retry` does that recorded the failure.
pub proof fn law_retry_allows_the_attempts(before: Retry, after: Retry, outcomes: Seq<bool>)
    requires
        outcomes.len() > 0,
        after.failed_attempts() == before.failed_attempts() + 1,
    ensures
        !may_try_after(before.failed_attempts()) ==> attempts(outcomes, before.failed_attempts())
            == (before.failed_attempts(), false),
        may_try_after(before.failed_attempts()) && outcomes[0] ==> attempts(
            outcomes,
            before.failed_attempts(),
        ) == (before.failed_attempts() + 1, true),
        may_try_after(before.failed_attempts()) && !outcomes[0] ==> attempts(
            outcomes,
            before.failed_attempts(),
        ) == attempts(outcomes.drop_first(), after.failed_attempts()),
{
}

proof fn lemma_attempts(outcomes: Seq<bool>, failures: nat)
    requires
        outcomes.len() >= MAX_ATTEMPTS,
        failures <= MAX_ATTEMPTS,
        forall|i: int| 0 <= i < failures ==> !#[trigger] outcomes[i],
    ensures
        ({
            let made = attempts(outcomes.skip(failures as int), failures);
            &&& failures <= made.0 <= MAX_ATTEMPTS
            &&& made.1 ==> made.0 > 0 && outcomes[made.0 - 1]
            &&& made.1 ==> forall|i: int| 0 <= i < made.0 - 1 ==> !#[trigger] outcomes[i]
            &&& !made.1 ==> made.0 == MAX_ATTEMPTS
            &&& !made.1 ==> forall|i: int| 0 <= i < MAX_ATTEMPTS ==> !#[trigger] outcomes[i]
        }),
    decreases MAX_ATTEMPTS - failures,
{
    if failures < MAX_ATTEMPTS {
        let left = outcomes.skip(failures as int);
        if !left[0] {
            assert(left.drop_first() =~= outcomes.skip(failures as int + 1));
            lemma_attempts(outcomes, failures + 1);
        }
    }
}

/// Law: what a poll does after a look is decided by the look first and by the deadline after it;
/// at the deadline itself the time is up.
pub proof fn law_poll_decides(found: bool, now: nat, deadline: nat)
    ensures
        polled(found, now, deadline) == Poll::Found <==> found,
        polled(found, now, deadline) == Poll::TimedOut <==> !found && deadline <= now,
        polled(found, now, deadline) == Poll::Again <==> !found && now < deadline,
        POLL_INTERVAL == 200,
{
}

/// Law: twenty attempts may be made, with a quarter of a second after each.
pub proof fn law_twenty_attempts(failures: nat, outcomes: Seq<bool>)
    requires
        outcomes.len() >= 20,
    ensures
        may_try_after(failures) <==> failures < 20,
        RETRY_INTERVAL == 250,
        attempts(outcomes, 0).1 <==> exists|i: int| 0 <= i < 20 && #[trigger] outcomes[i],
        attempts(outcomes, 0).0 <= 20,
{
    law_attempts(outcomes);
    let made = attempts(outcomes, 0);
    if made.1 {
        assert(outcomes[made.0 - 1]);
    }
}

} // verus!
