//! Plans: what is asked of the browser, step by step, and what becomes of a step that fails.
//!
//! The library decides which steps are taken and in what order; whoever holds the session
//! performs them one at a time through [`Run`].

use vstd::prelude::*;
use vstd::string::*;

use serde_json::Value;

use crate::error::ChromeError;
use crate::json::null;
use crate::json::{json_of, Json};

verus! {

/// One thing to ask of the browser session.
#[derive(Debug, PartialEq)]
pub enum Action {
    /// Run a script in the page; the reply is what it returns.
    Execute(String),
    /// Send a DevTools command without parameters.
    Command(String),
    /// Send a DevTools command with parameters; the reply is its result.
    CommandWith(String, Value),
    /// Open an address in the current tab.
    Navigate(String),
    /// Wait for a number of milliseconds.
    Sleep(u64),
    /// Enter the frame with a number.
    EnterFrame(u16),
    /// Find the element at an XPath, which later steps act on.
    FindXPath(String),
    /// Find the element under a CSS selector, which later steps act on.
    FindCss(String),
    /// Wait until the found element can be clicked.
    WaitClickable,
    /// Click the found element.
    Click,
    /// Type a text into the found element.
    SendKeys(String),
    /// Switch to the window at a place in the list of windows that was read last.
    SwitchWindow(usize),
    /// Close the current window.
    CloseWindow,
    /// End the session.
    Quit,
}

/// What an action asks for.
pub enum ActionView {
    Execute(Seq<char>),
    Command(Seq<char>),
    CommandWith(Seq<char>, Json),
    Navigate(Seq<char>),
    Sleep(nat),
    EnterFrame(nat),
    FindXPath(Seq<char>),
    FindCss(Seq<char>),
    WaitClickable,
    Click,
    SendKeys(Seq<char>),
    SwitchWindow(nat),
    CloseWindow,
    Quit,
}

impl View for Action {
    type V = ActionView;

    open spec fn view(&self) -> ActionView {
        match self {
            Action::Execute(s) => ActionView::Execute(s@),
            Action::Command(c) => ActionView::Command(c@),
            Action::CommandWith(c, v) => ActionView::CommandWith(c@, json_of(*v)),
            Action::Navigate(u) => ActionView::Navigate(u@),
            Action::Sleep(ms) => ActionView::Sleep(*ms as nat),
            Action::EnterFrame(n) => ActionView::EnterFrame(*n as nat),
            Action::FindXPath(p) => ActionView::FindXPath(p@),
            Action::FindCss(s) => ActionView::FindCss(s@),
            Action::WaitClickable => ActionView::WaitClickable,
            Action::Click => ActionView::Click,
            Action::SendKeys(t) => ActionView::SendKeys(t@),
            Action::SwitchWindow(n) => ActionView::SwitchWindow(*n as nat),
            Action::CloseWindow => ActionView::CloseWindow,
            Action::Quit => ActionView::Quit,
        }
    }
}

/// What becomes of the run when a step fails.
#[derive(Debug, Clone, Copy, PartialEq, Eq, Structural)]
pub enum OnError {
    /// The run ends with the step's error.
    Fail,
    /// The run goes on with the next step.
    Skip,
    /// The run ends without an error.
    Stop,
}

/// An action, and what becomes of the run when it fails.
#[derive(Debug, PartialEq)]
pub struct Step {
    pub action: Action,
    pub on_error: OnError,
}

/// What a step asks for.
pub struct StepView {
    pub action: ActionView,
    pub on_error: OnError,
}

impl View for Step {
    type V = StepView;

    open spec fn view(&self) -> StepView {
        StepView { action: self.action@, on_error: self.on_error }
    }
}

/// What the steps of a plan ask for, in order.
pub open spec fn plan(steps: Seq<Step>) -> Seq<StepView> {
    steps.map_values(|s: Step| s@)
}

/// A step that has to succeed.
pub open spec fn required(action: ActionView) -> StepView {
    StepView { action, on_error: OnError::Fail }
}

/// A step that may fail.
pub open spec fn optional(action: ActionView) -> StepView {
    StepView { action, on_error: OnError::Skip }
}

/// A step after whose failure the rest of the plan is left out.
pub open spec fn last_resort(action: ActionView) -> StepView {
    StepView { action, on_error: OnError::Stop }
}

/// A step that has to succeed.
pub fn must(action: Action) -> (r: Step)
    ensures
        r@ == required(action@),
{
    Step { action, on_error: OnError::Fail }
}

/// A step that may fail.
pub fn may(action: Action) -> (r: Step)
    ensures
        r@ == optional(action@),
{
    Step { action, on_error: OnError::Skip }
}

/// A step after whose failure the rest of the plan is left out.
pub fn or_stop(action: Action) -> (r: Step)
    ensures
        r@ == last_resort(action@),
{
    Step { action, on_error: OnError::Stop }
}

/// Two plans, one after the other.
pub fn followed_by(first: Vec<Step>, second: Vec<Step>) -> (r: Vec<Step>)
    ensures
        plan(r@) == plan(first@) + plan(second@),
{
    let mut all = first;
    let mut rest = second;
    all.append(&mut rest);
    all
}

// ─── Running a plan ──────────────────────────────────────────────────────────

/// A plan that is being performed.
pub struct Run {
    steps: Vec<Step>,
    next: usize,
    over: bool,
    reply: Option<Value>,
}

/// How far a run has come.
pub struct RunView {
    /// The steps of the plan.
    pub steps: Seq<StepView>,
    /// How many of them have been performed.
    pub next: nat,
    /// Whether a failure ended the run.
    pub over: bool,
    /// Whether the run ended with an error.
    pub failed: bool,
    /// The reply to the last step that succeeded.
    pub reply: Option<Json>,
}

impl RunView {
    /// Nothing is left to perform.
    pub open spec fn finished(self) -> bool {
        self.over || self.next >= self.steps.len()
    }
}

/// A run at its start.
pub open spec fn started(steps: Seq<StepView>) -> RunView {
    RunView { steps, next: 0, over: false, failed: false, reply: None }
}

/// A run after its next step: the reply where it succeeded, nothing where it failed.
pub open spec fn advanced(run: RunView, outcome: Option<Json>) -> RunView {
    match outcome {
        Some(reply) => RunView { next: run.next + 1, reply: Some(reply), ..run },
        None => match run.steps[run.next as int].on_error {
            OnError::Skip => RunView { next: run.next + 1, ..run },
            OnError::Stop => RunView { next: run.next + 1, over: true, ..run },
            OnError::Fail => RunView { next: run.next + 1, over: true, failed: true, ..run },
        },
    }
}

impl Run {
    /// How far the run has come.
    pub closed spec fn progress(self) -> RunView {
        RunView {
            steps: plan(self.steps@),
            next: self.next as nat,
            over: self.over,
            failed: self.over && self.next > 0 && self.steps@[self.next - 1].on_error
                == OnError::Fail,
            reply: match self.reply {
                Some(v) => Some(json_of(v)),
                None => None,
            },
        }
    }

    /// The run has performed no more steps than it has, and was ended by a step that it
    /// performed.
    #[verifier::type_invariant]
    spec fn in_bounds(self) -> bool {
        &&& self.next <= self.steps@.len()
        &&& self.over ==> self.next > 0
    }

    /// A run of a plan, at its start.
    pub fn new(steps: Vec<Step>) -> (r: Run)
        ensures
            r.progress() == started(plan(steps@)),
    {
        Run { steps, next: 0, over: false, reply: None }
    }

    /// The action to perform next; nothing where the run is finished.
    pub fn action(&self) -> (r: Option<&Action>)
        ensures
            r is Some <==> !self.progress().finished(),
            r matches Some(a) ==> a@ == self.progress().steps[self.progress().next as int].action,
    {
        if self.over || self.next >= self.steps.len() {
            None
        } else {
            Some(&self.steps[self.next].action)
        }
    }

    /// Record what came of the action: its reply, or its error. The error comes back where it
    /// ends the run.
    pub fn report(&mut self, outcome: Result<Value, ChromeError>) -> (r: Result<(), ChromeError>)
        requires
            !old(self).progress().finished(),
        ensures
            final(self).progress() == advanced(
                old(self).progress(),
                match outcome {
                    Ok(v) => Some(json_of(v)),
                    Err(_) => None,
                },
            ),
            r is Err <==> final(self).progress().failed,
            r matches Err(e) ==> outcome == Err::<Value, ChromeError>(e),
    {
        proof {
            use_type_invariant(&*self);
        }
        let total: usize = self.steps.len();
        assert(self.next < total);
        let policy: OnError = self.steps[self.next].on_error;
        assert(self.progress().steps[self.progress().next as int].on_error == policy);
        match outcome {
            Ok(v) => {
                self.next = self.next + 1;
                self.reply = Some(v);
                Ok(())
            },
            Err(e) => {
                self.next = self.next + 1;
                match policy {
                    OnError::Skip => Ok(()),
                    OnError::Stop => {
                        self.over = true;
                        Ok(())
                    },
                    OnError::Fail => {
                        self.over = true;
                        Err(e)
                    },
                }
            },
        }
    }

    /// The reply to the last step that succeeded; null where none did.
    pub fn into_reply(self) -> (r: Value)
        ensures
            json_of(r) == (match self.progress().reply {
                Some(v) => v,
                None => Json::Null,
            }),
    {
        match self.reply {
            Some(v) => v,
            None => null(),
        }
    }
}

// ─── Laws of a run ───────────────────────────────────────────────────────────

/// A run after a row of outcomes, one for each step that is performed.
pub open spec fn ran(run: RunView, outcomes: Seq<Option<Json>>) -> RunView
    decreases outcomes.len(),
{
    if outcomes.len() == 0 || run.finished() {
        run
    } else {
        ran(advanced(run, outcomes[0]), outcomes.drop_first())
    }
}

/// A run goes past a step where the step succeeds or may fail.
pub open spec fn passes(step: StepView, outcome: Option<Json>) -> bool {
    outcome is Some || step.on_error == OnError::Skip
}

/// The run passes the steps before `at` and fails there.
pub open spec fn fails_at(steps: Seq<StepView>, outcomes: Seq<Option<Json>>, at: int) -> bool {
    &&& 0 <= at < steps.len()
    &&& at < outcomes.len()
    &&& forall|i: int| 0 <= i < at ==> #[trigger] passes(steps[i], outcomes[i])
    &&& outcomes[at] is None
    &&& steps[at].on_error == OnError::Fail
}

/// Law: where every step that may not be skipped succeeds, the run performs all its steps and
/// does not fail.
pub proof fn law_run_completes(steps: Seq<StepView>, outcomes: Seq<Option<Json>>)
    requires
        outcomes.len() >= steps.len(),
        forall|i: int| 0 <= i < steps.len() ==> #[trigger] passes(steps[i], outcomes[i]),
    ensures
        ran(started(steps), outcomes).next == steps.len(),
        ran(started(steps), outcomes).finished(),
        !ran(started(steps), outcomes).failed,
{
    lemma_ran_completes(started(steps), outcomes);
}

proof fn lemma_ran_completes(run: RunView, outcomes: Seq<Option<Json>>)
    requires
        run.next <= run.steps.len(),
        !run.over,
        !run.failed,
        outcomes.len() >= run.steps.len() - run.next,
        forall|i: int|
            0 <= i < run.steps.len() - run.next ==> #[trigger] passes(
                run.steps[run.next + i],
                outcomes[i],
            ),
    ensures
        ran(run, outcomes).next == run.steps.len(),
        !ran(run, outcomes).over,
        !ran(run, outcomes).failed,
        ran(run, outcomes).steps == run.steps,
    decreases outcomes.len(),
{
    if outcomes.len() > 0 && !run.finished() {
        assert(passes(run.steps[run.next as int + 0], outcomes[0]));
        let after = advanced(run, outcomes[0]);
        let rest = outcomes.drop_first();
        assert forall|i: int| 0 <= i < after.steps.len() - after.next implies #[trigger] passes(
            after.steps[after.next + i],
            rest[i],
        ) by {
            assert(passes(run.steps[run.next + (i + 1)], outcomes[i + 1]));
        }
        lemma_ran_completes(after, rest);
    }
}

/// Law: a run fails exactly where it comes to a step that has to succeed and does not; that step
/// is the last one performed.
pub proof fn law_run_fails(steps: Seq<StepView>, outcomes: Seq<Option<Json>>)
    ensures
        ran(started(steps), outcomes).failed <==> exists|at: int| fails_at(steps, outcomes, at),
        forall|at: int|
            #[trigger] fails_at(steps, outcomes, at) ==> ran(started(steps), outcomes).next == at
                + 1,
{
    assert(outcomes.skip(0) =~= outcomes);
    lemma_ran_fails(started(steps), outcomes, outcomes);
}

proof fn lemma_ran_fails(run: RunView, left: Seq<Option<Json>>, outcomes: Seq<Option<Json>>)
    requires
        run.next <= run.steps.len(),
        run.next <= outcomes.len(),
        left == outcomes.skip(run.next as int),
        !run.over,
        !run.failed,
        forall|i: int|
            0 <= i < run.next ==> #[trigger] passes(run.steps[i], outcomes[i]),
    ensures
        ran(run, left).failed <==> exists|at: int| fails_at(run.steps, outcomes, at),
        forall|at: int|
            #[trigger] fails_at(run.steps, outcomes, at) ==> ran(run, left).next == at + 1,
    decreases left.len(),
{
    let n = run.next as int;
    assert forall|at: int| #[trigger] fails_at(run.steps, outcomes, at) implies at >= n by {
        if at < n {
            assert(passes(run.steps[at], outcomes[at]));
        }
    }
    if left.len() > 0 && !run.finished() {
        let after = advanced(run, left[0]);
        let rest = left.drop_first();
        assert(left[0] == outcomes[n]);
        if passes(run.steps[n], outcomes[n]) {
            assert(rest =~= outcomes.skip(n + 1));
            lemma_ran_fails(after, rest, outcomes);
        } else {
            assert(ran(after, rest) == after);
            if after.failed {
                assert(fails_at(run.steps, outcomes, n));
            }
            assert forall|at: int| #[trigger] fails_at(run.steps, outcomes, at) implies at == n by {
                if at > n {
                    assert(passes(run.steps[n], outcomes[n]));
                }
            }
        }
    }
}

/// Law: a plan in which no step has to succeed never fails.
pub proof fn law_lenient_plan_never_fails(steps: Seq<StepView>, outcomes: Seq<Option<Json>>)
    requires
        forall|i: int| 0 <= i < steps.len() ==> (#[trigger] steps[i]).on_error != OnError::Fail,
    ensures
        !ran(started(steps), outcomes).failed,
{
    law_run_fails(steps, outcomes);
}

// ─── Laws of plans ───────────────────────────────────────────────────────────

/// Law: a plan asks for what its steps ask for, each in its place.
pub proof fn law_plan(steps: Seq<Step>)
    ensures
        plan(steps).len() == steps.len(),
        forall|i: int|
            0 <= i < steps.len() ==> (#[trigger] plan(steps)[i]).action == steps[i].action@
                && plan(steps)[i].on_error == steps[i].on_error,
{
}

/// Law: what an action asks for is what it holds, unchanged.
pub proof fn law_action_views(s: String, t: String, v: Value, ms: u64, frame: u16, at: usize)
    ensures
        Action::Execute(s)@ == ActionView::Execute(s@),
        Action::Command(s)@ == ActionView::Command(s@),
        Action::CommandWith(t, v)@ == ActionView::CommandWith(t@, json_of(v)),
        Action::Navigate(s)@ == ActionView::Navigate(s@),
        Action::Sleep(ms)@ == ActionView::Sleep(ms as nat),
        Action::EnterFrame(frame)@ == ActionView::EnterFrame(frame as nat),
        Action::FindXPath(s)@ == ActionView::FindXPath(s@),
        Action::FindCss(s)@ == ActionView::FindCss(s@),
        Action::WaitClickable@ == ActionView::WaitClickable,
        Action::Click@ == ActionView::Click,
        Action::SendKeys(s)@ == ActionView::SendKeys(s@),
        Action::SwitchWindow(at)@ == ActionView::SwitchWindow(at as nat),
        Action::CloseWindow@ == ActionView::CloseWindow,
        Action::Quit@ == ActionView::Quit,
{
}

/// Law: a step that has to succeed, one that may fail, and one after whose failure the plan is
/// left differ in that alone.
pub proof fn law_policies(action: ActionView)
    ensures
        required(action).action == action && required(action).on_error == OnError::Fail,
        optional(action).action == action && optional(action).on_error == OnError::Skip,
        last_resort(action).action == action && last_resort(action).on_error == OnError::Stop,
{
}

/// Law: a step takes a run one further, whatever came of it; a success leaves its reply, a failure
/// leaves the reply that was there, and only the failure of a step that has to succeed, or after
/// which the plan is left, ends the run.
pub proof fn law_one_step(run: RunView, reply: Json)
    requires
        !run.finished(),
        !run.failed,
    ensures
        run.next < run.steps.len() && !run.over,
        advanced(run, Some(reply)).reply == Some(reply),
        advanced(run, None).reply == run.reply,
        advanced(run, Some(reply)).next == run.next + 1,
        advanced(run, None).next == run.next + 1,
        advanced(run, Some(reply)).steps == run.steps,
        advanced(run, None).steps == run.steps,
        !advanced(run, Some(reply)).over && !advanced(run, Some(reply)).failed,
        advanced(run, None).failed <==> run.steps[run.next as int].on_error == OnError::Fail,
        advanced(run, None).over <==> run.steps[run.next as int].on_error != OnError::Skip,
{
}

/// Law: a run begins at its first step, without a reply.
pub proof fn law_start(steps: Seq<StepView>)
    ensures
        started(steps).steps == steps,
        started(steps).next == 0,
        !started(steps).over && !started(steps).failed,
        started(steps).reply is None,
        started(steps).finished() <==> steps.len() == 0,
{
}

} // verus!
