//! Operations of more than one stage: the answer to one stage decides what is asked next.

use vstd::prelude::*;
use vstd::string::*;

use serde_json::Value;

use crate::chrome;
use crate::chrome::{
    asking_bounds, checking, clicking, clicking_visible, closing_current, entering_last, finding_window,
    going_to, hovering, opening_tab, passing_challenge, running, setting_bounds, setting_state,
    toggling,
};
use crate::error::says;
use crate::error::ChromeError;
use crate::json::null;
use crate::json::{json_of, Json};
use crate::plan::Step;
use crate::plan::{plan, ActionView, StepView};
use crate::scripts;
use crate::stealth::scrubbing;

verus! {

/// An operation of more than one stage.
pub enum Operation {
    /// Navigate with pre/post CDC scrub.
    Goto(String),
    /// Navigate with a scrub more before and after.
    UcGet(String),
    /// Navigate to a page with a challenge, and click its box.
    BypassCloudflare(String),
    /// Open an address in a new tab, close the original one, and go on in the last.
    OpenWithTab(String),
    /// Click an element where it is visible.
    ClickIfVisible(String),
    /// Click a box where it is not checked.
    CheckIfUnchecked(String),
    /// Click a box where it is checked.
    UncheckIfChecked(String),
    /// Move the mouse over an element.
    HoverElement(String),
    /// Ask for the bounds of the window.
    GetWindowRect,
    /// Set the left, top, width and height of the window.
    SetWindowRect(i64, i64, i64, i64),
    /// Maximize the window.
    Maximize,
    /// Minimize the window.
    Minimize,
}

/// What an operation asks for.
pub enum Ask {
    /// Perform a plan. Where it fails, the operation ends with the error; else its reply is the
    /// answer.
    Perform(Vec<Step>),
    /// Perform a plan. Its reply is the answer; where it fails there is none.
    Probe(Vec<Step>),
    /// Read the list of windows. Where that fails, the operation ends with the error; else their
    /// number is the answer.
    ReadWindows,
}

/// What is asked for.
pub enum AskView {
    Perform(Seq<StepView>),
    Probe(Seq<StepView>),
    ReadWindows,
}

impl View for Ask {
    type V = AskView;

    open spec fn view(&self) -> AskView {
        match self {
            Ask::Perform(steps) => AskView::Perform(plan(steps@)),
            Ask::Probe(steps) => AskView::Probe(plan(steps@)),
            Ask::ReadWindows => AskView::ReadWindows,
        }
    }
}

/// What came of a stage.
pub struct Answer {
    /// The reply, where there is one.
    pub reply: Option<Value>,
    /// The number of windows that were read last.
    pub windows: usize,
}

impl Answer {
    /// The reply; null where there is none.
    pub open spec fn value(self) -> Json {
        match self.reply {
            Some(v) => json_of(v),
            None => Json::Null,
        }
    }

    /// The reply is `true`.
    pub open spec fn yes(self) -> bool {
        self.value() == Json::Bool(true)
    }
}

/// A plan to perform.
pub open spec fn perform(steps: Seq<StepView>) -> Result<Option<AskView>, Seq<char>> {
    Ok(Some(AskView::Perform(steps)))
}

/// The stages of navigating.
pub open spec fn goto_asks(url: Seq<char>, stage: nat, answer: Answer) -> Result<
    Option<AskView>,
    Seq<char>,
> {
    if stage == 0 {
        perform(checking())
    } else if stage == 1 {
        perform(going_to(answer.value(), url))
    } else {
        Ok(None)
    }
}

/// The stages of navigating with a scrub more before and after.
pub open spec fn uc_get_asks(url: Seq<char>, stage: nat, answer: Answer) -> Result<
    Option<AskView>,
    Seq<char>,
> {
    if stage == 0 {
        perform(seq![scrubbing()] + checking())
    } else if stage == 1 {
        perform(going_to(answer.value(), url).push(scrubbing()))
    } else {
        Ok(None)
    }
}

/// The stages of moving to a new tab.
pub open spec fn tab_asks(url: Seq<char>, stage: nat, answer: Answer) -> Result<
    Option<AskView>,
    Seq<char>,
> {
    if stage == 0 {
        perform(opening_tab(url))
    } else if stage == 1 || stage == 3 {
        Ok(Some(AskView::ReadWindows))
    } else if stage == 2 {
        perform(closing_current(answer.windows as nat))
    } else if stage == 4 {
        perform(entering_last(answer.windows as nat))
    } else {
        Ok(None)
    }
}

/// The stages of an operation that asks about an element first and acts on the answer.
pub open spec fn probe_asks(script: Seq<char>, stage: nat, action: Seq<StepView>) -> Result<
    Option<AskView>,
    Seq<char>,
> {
    if stage == 0 {
        Ok(Some(AskView::Probe(seq![running(script)])))
    } else if stage == 1 {
        perform(action)
    } else {
        Ok(None)
    }
}

/// The stages of an operation on the window.
pub open spec fn window_asks(stage: nat, action: Seq<StepView>) -> Result<
    Option<AskView>,
    Seq<char>,
> {
    if stage == 0 {
        perform(finding_window())
    } else if stage == 1 {
        perform(action)
    } else {
        Ok(None)
    }
}

/// What an operation asks for at a stage, given the answer to the stage before: nothing where it
/// is done, and the words of the error where the answer does not do.
pub open spec fn asks(operation: Operation, stage: nat, answer: Answer) -> Result<
    Option<AskView>,
    Seq<char>,
> {
    match operation {
        Operation::Goto(url) => goto_asks(url@, stage, answer),
        Operation::UcGet(url) => uc_get_asks(url@, stage, answer),
        Operation::BypassCloudflare(url) => if stage == 2 {
            perform(passing_challenge())
        } else {
            goto_asks(url@, stage, answer)
        },
        Operation::OpenWithTab(url) => tab_asks(url@, stage, answer),
        Operation::ClickIfVisible(css) => probe_asks(
            scripts::visible_script(css@),
            stage,
            clicking_visible(answer.yes(), css@),
        ),
        Operation::CheckIfUnchecked(css) => probe_asks(
            scripts::checked_script(css@),
            stage,
            toggling(answer.yes(), true, css@),
        ),
        Operation::UncheckIfChecked(css) => probe_asks(
            scripts::checked_script(css@),
            stage,
            toggling(answer.yes(), false, css@),
        ),
        Operation::HoverElement(css) => if stage == 0 {
            perform(seq![running(scripts::center_script(css@))])
        } else if stage == 1 {
            match hovering(answer.value()) {
                Ok(steps) => perform(steps),
                Err(words) => Err(words),
            }
        } else {
            Ok(None)
        },
        Operation::GetWindowRect => window_asks(stage, asking_bounds(answer.value())),
        Operation::SetWindowRect(x, y, w, h) => window_asks(
            stage,
            setting_bounds(answer.value(), x as int, y as int, w as int, h as int),
        ),
        Operation::Maximize => window_asks(stage, setting_state(answer.value(), "maximized"@)),
        Operation::Minimize => window_asks(stage, setting_state(answer.value(), "minimized"@)),
    }
}

/// The result is what is asked for.
pub open spec fn gives(
    r: Result<Option<Ask>, ChromeError>,
    expected: Result<Option<AskView>, Seq<char>>,
) -> bool {
    match expected {
        Ok(None) => r is Ok && r->Ok_0 is None,
        Ok(Some(ask)) => r is Ok && (r->Ok_0 matches Some(a) && a@ == ask),
        Err(words) => r is Err && says(r->Err_0, words),
    }
}

/// What an operation asks for at a stage, given the answer to the stage before; nothing where it
/// is done.
pub fn next_ask(operation: &Operation, stage: usize, answer: &Answer) -> (r: Result<
    Option<Ask>,
    ChromeError,
>)
    ensures
        gives(r, asks(*operation, stage as nat, *answer)),
        asks(*operation, stage as nat, *answer) is Ok <==> r is Ok,
        asks(*operation, stage as nat, *answer) matches Ok(Some(ask)) ==> {
            &&& r->Ok_0 is Some
            &&& ask matches AskView::Perform(steps) ==> (r->Ok_0->0 matches Ask::Perform(all)
                && plan(all@) == steps)
            &&& ask matches AskView::Probe(steps) ==> (r->Ok_0->0 matches Ask::Probe(all) && plan(
                all@,
            ) == steps)
            &&& ask is ReadWindows ==> r->Ok_0->0 is ReadWindows
        },
        asks(*operation, stage as nat, *answer) == Ok::<Option<AskView>, Seq<char>>(None) ==> (
        r->Ok_0 is None),
        asks(*operation, stage as nat, *answer) matches Err(words) ==> says(r->Err_0, words),
{
    let none: Value = null();
    let reply: &Value = match &answer.reply {
        Some(v) => v,
        None => &none,
    };
    let yes: bool = chrome::flag_reply(Some(reply));
    match operation {
        Operation::Goto(url) => ask_goto(url.as_str(), stage, reply),
        Operation::UcGet(url) => if stage == 0 {
            Ok(Some(Ask::Perform(chrome::uc_get_check())))
        } else if stage == 1 {
            perform_all(chrome::uc_get(reply, url.as_str()))
        } else {
            Ok(None)
        },
        Operation::BypassCloudflare(url) => if stage == 2 {
            Ok(Some(Ask::Perform(chrome::bypass_cloudflare())))
        } else {
            ask_goto(url.as_str(), stage, reply)
        },
        Operation::OpenWithTab(url) => if stage == 0 {
            Ok(Some(Ask::Perform(chrome::uc_open_with_tab(url.as_str()))))
        } else if stage == 1 || stage == 3 {
            Ok(Some(Ask::ReadWindows))
        } else if stage == 2 {
            Ok(Some(Ask::Perform(chrome::close_original_window(answer.windows))))
        } else if stage == 4 {
            Ok(Some(Ask::Perform(chrome::enter_last_window(answer.windows))))
        } else {
            Ok(None)
        },
        Operation::ClickIfVisible(css) => if stage == 0 {
            Ok(Some(Ask::Probe(chrome::is_element_visible(css.as_str()))))
        } else if stage == 1 {
            Ok(Some(Ask::Perform(chrome::click_if_visible(yes, css.as_str()))))
        } else {
            Ok(None)
        },
        Operation::CheckIfUnchecked(css) => if stage == 0 {
            Ok(Some(Ask::Probe(chrome::is_checked(css.as_str()))))
        } else if stage == 1 {
            Ok(Some(Ask::Perform(chrome::check_if_unchecked(yes, css.as_str()))))
        } else {
            Ok(None)
        },
        Operation::UncheckIfChecked(css) => if stage == 0 {
            Ok(Some(Ask::Probe(chrome::is_checked(css.as_str()))))
        } else if stage == 1 {
            Ok(Some(Ask::Perform(chrome::uncheck_if_checked(yes, css.as_str()))))
        } else {
            Ok(None)
        },
        Operation::HoverElement(css) => if stage == 0 {
            Ok(Some(Ask::Perform(chrome::element_center(css.as_str()))))
        } else if stage == 1 {
            perform_all(chrome::hover_element(reply))
        } else {
            Ok(None)
        },
        Operation::GetWindowRect => ask_window(stage, chrome::get_window_rect(reply)),
        Operation::SetWindowRect(x, y, w, h) => ask_window(
            stage,
            chrome::set_window_rect(reply, *x, *y, *w, *h),
        ),
        Operation::Maximize => ask_window(stage, chrome::maximize(reply)),
        Operation::Minimize => ask_window(stage, chrome::minimize(reply)),
    }
}

/// Perform the plan, where there is one.
fn perform_all(steps: Result<Vec<Step>, ChromeError>) -> (r: Result<Option<Ask>, ChromeError>)
    ensures
        match steps {
            Ok(all) => r is Ok && (r->Ok_0 matches Some(a) && a@ == AskView::Perform(plan(all@))),
            Err(e) => r == Err::<Option<Ask>, ChromeError>(e),
        },
{
    match steps {
        Ok(all) => Ok(Some(Ask::Perform(all))),
        Err(e) => Err(e),
    }
}

/// The stages of navigating.
fn ask_goto(url: &str, stage: usize, props: &Value) -> (r: Result<Option<Ask>, ChromeError>)
    ensures
        gives(
            r,
            if stage == 0 {
                perform(checking())
            } else if stage == 1 {
                perform(going_to(json_of(*props), url@))
            } else {
                Ok(None)
            },
        ),
{
    if stage == 0 {
        Ok(Some(Ask::Perform(chrome::goto_check())))
    } else if stage == 1 {
        perform_all(chrome::goto(props, url))
    } else {
        Ok(None)
    }
}

/// The stages of an operation on the window.
fn ask_window(stage: usize, steps: Vec<Step>) -> (r: Result<Option<Ask>, ChromeError>)
    ensures
        gives(r, window_asks(stage as nat, plan(steps@))),
{
    if stage == 0 {
        Ok(Some(Ask::Perform(chrome::find_window())))
    } else if stage == 1 {
        Ok(Some(Ask::Perform(steps)))
    } else {
        Ok(None)
    }
}

// ─── Laws of operations ──────────────────────────────────────────────────────

/// Law: every operation asks for something first, and is done after five stages at the latest.
pub proof fn law_operations_end(operation: Operation, stage: nat, answer: Answer)
    ensures
        asks(operation, 0, answer) matches Ok(Some(_)),
        stage >= 5 ==> asks(operation, stage, answer) == Ok::<Option<AskView>, Seq<char>>(None),
{
}

/// The plan that is performed opens an address.
pub open spec fn opens(asked: Result<Option<AskView>, Seq<char>>, at: int) -> bool {
    asked matches Ok(Some(AskView::Perform(steps))) && 0 <= at < steps.len()
        && steps[at].action is Navigate
}

/// Law: whenever an operation opens an address, it has looked for CDC props before, and scrubs
/// the page directly after.
pub proof fn law_operations_scrub_what_they_open(
    operation: Operation,
    stage: nat,
    answer: Answer,
    before: Answer,
    at: int,
)
    requires
        opens(asks(operation, stage, answer), at),
    ensures
        stage == 1,
        asks(operation, 0, before) matches Ok(Some(AskView::Perform(first))) && first.last()
            == running(scripts::CDC_CHECK@),
        asks(operation, stage, answer) matches Ok(Some(AskView::Perform(steps))) && at + 1
            < steps.len() && steps[at + 1] == scrubbing(),
{
    let steps = asks(operation, stage, answer)->Ok_0->0->Perform_0;
    let props = answer.value();
    match operation {
        Operation::Goto(url) => {
            lemma_opens_at(props, url@, steps, at);
        },
        Operation::UcGet(url) => {
            if stage == 0 {
                assert(steps[at] == scrubbing() || steps[at] == running(scripts::CDC_CHECK@));
            } else {
                if at == steps.len() - 1 {
                    assert(steps[at] == scrubbing());
                }
                assert(steps.drop_last() =~= going_to(props, url@));
                lemma_opens_at(props, url@, steps.drop_last(), at);
            }
        },
        Operation::BypassCloudflare(url) => {
            if stage != 2 {
                lemma_opens_at(props, url@, steps, at);
            }
        },
        _ => {},
    }
}

/// Where going to an address opens it.
proof fn lemma_opens_at(props: Json, url: Seq<char>, steps: Seq<StepView>, at: int)
    requires
        0 <= at < steps.len(),
        steps[at].action is Navigate,
        steps == going_to(props, url) || steps == checking(),
    ensures
        steps == going_to(props, url),
        at == steps.len() - 2,
        steps[at + 1] == scrubbing(),
{
    chrome::law_goto_scrubs_the_page(props, url);
}

/// The windows of a session: their handles in the order in which the list gives them, and the one
/// that the session is on.
pub struct Windows {
    pub open: Seq<int>,
    pub current: int,
}

/// The windows after a step of a plan that switches to and closes windows; the list was read
/// before the plan.
pub open spec fn window_after(windows: Windows, action: ActionView) -> Windows {
    match action {
        ActionView::SwitchWindow(n) => Windows { current: windows.open[n as int], ..windows },
        ActionView::CloseWindow => Windows {
            open: windows.open.filter(|w: int| w != windows.current),
            ..windows
        },
        _ => windows,
    }
}

/// The windows after the steps of a plan.
pub open spec fn windows_after(windows: Windows, steps: Seq<StepView>) -> Windows
    decreases steps.len(),
{
    if steps.len() == 0 {
        windows
    } else {
        window_after(windows_after(windows, steps.drop_last()), steps.last().action)
    }
}

/// Law: where the script has opened a new window, at the end of the list, moving to a new tab
/// closes the window that the session was on and no other, and ends on the new one.
pub proof fn law_tab_takes_the_place_of_the_original(
    url: Seq<char>,
    before: Windows,
    new: int,
    answer: Answer,
    later: Answer,
)
    requires
        before.open.contains(before.current),
        !before.open.contains(new),
        answer.windows == before.open.len() + 1,
        later.windows == before.open.push(new).filter(|w: int| w != before.current).len(),
    ensures
        ({
            let opened = Windows { open: before.open.push(new), ..before };
            let close = tab_asks(url, 2, answer)->Ok_0->0->Perform_0;
            let enter = tab_asks(url, 4, later)->Ok_0->0->Perform_0;
            let closed = windows_after(opened, close);
            let after = windows_after(closed, enter);
            &&& closed.open == before.open.push(new).filter(|w: int| w != before.current)
            &&& after.open == closed.open
            &&& after.current == new
            &&& forall|w: int|
                #[trigger] after.open.contains(w) <==> w != before.current && (w == new
                    || before.open.contains(w))
        }),
{
    let opened = Windows { open: before.open.push(new), ..before };
    let close = tab_asks(url, 2, answer)->Ok_0->0->Perform_0;
    let enter = tab_asks(url, 4, later)->Ok_0->0->Perform_0;
    let keep = |w: int| w != before.current;
    let left = opened.open.filter(keep);
    reveal_with_fuel(windows_after, 3);
    assert(close.drop_last() =~= Seq::<StepView>::empty());
    let closed = windows_after(opened, close);
    assert(closed.open == left);
    reveal(Seq::filter);
    assert(opened.open.drop_last() =~= before.open);
    assert(left == before.open.filter(keep).push(new));
    assert(enter.drop_last() =~= seq![enter[0]]);
    assert(enter.drop_last().drop_last() =~= Seq::<StepView>::empty());
    let after = windows_after(closed, enter);
    assert(after.open == left);
    assert(after.current == new);
    assert forall|w: int| #[trigger] after.open.contains(w) <==> w != before.current && (w == new
        || before.open.contains(w)) by {
        lemma_push_holds(before.open, new, w);
        lemma_filter_holds(opened.open, keep, w);
    }
}

/// What a list with one more at the end holds.
proof fn lemma_push_holds(list: Seq<int>, last: int, w: int)
    ensures
        list.push(last).contains(w) <==> list.contains(w) || w == last,
{
    let all = list.push(last);
    if list.contains(w) {
        let i = choose|i: int| 0 <= i < list.len() && list[i] == w;
        assert(all[i] == w);
    }
    if w == last {
        assert(all[list.len() as int] == w);
    }
}

/// What a filtered list holds.
proof fn lemma_filter_holds(list: Seq<int>, keep: spec_fn(int) -> bool, w: int)
    ensures
        list.filter(keep).contains(w) <==> list.contains(w) && keep(w),
    decreases list.len(),
{
    reveal(Seq::filter);
    if list.len() > 0 {
        let front = list.drop_last();
        lemma_filter_holds(front, keep, w);
        assert(list =~= front.push(list.last()));
        lemma_push_holds(front, list.last(), w);
        lemma_push_holds(front.filter(keep), list.last(), w);
    }
}

/// Law: of the two operations on a box exactly one clicks it, whatever its state.
pub proof fn law_boxes_are_clicked_by_one(css: Seq<char>, checked: bool)
    ensures
        (toggling(checked, true, css).len() == 0) != (toggling(checked, false, css).len() == 0),
{
}

/// Law: a missing reply counts as null, and only a reply that is `true` counts as yes.
pub proof fn law_answers(v: Value, windows: usize)
    ensures
        (Answer { reply: Some(v), windows }).value() == json_of(v),
        (Answer { reply: None, windows }).value() == Json::Null,
        (Answer { reply: Some(v), windows }).yes() <==> json_of(v) == Json::Bool(true),
        !(Answer { reply: None, windows }).yes(),
{
}

/// Law: navigating lists the props, opens the address with the list that came back, and is done;
/// one scrub more is done before and after where that is asked for, and the challenge is passed
/// after the page is open.
pub proof fn law_stages_of_navigation(url: String, v: Value, windows: usize, stage: nat)
    ensures
        ({
            let answer = Answer { reply: Some(v), windows };
            let goto = Operation::Goto(url);
            let uc_get = Operation::UcGet(url);
            let bypass = Operation::BypassCloudflare(url);
            let opened = going_to(json_of(v), url@);
            &&& asks(goto, 0, answer) == Ok::<_, Seq<char>>(Some(AskView::Perform(checking())))
            &&& asks(goto, 1, answer) == Ok::<_, Seq<char>>(Some(AskView::Perform(opened)))
            &&& stage >= 2 ==> asks(goto, stage, answer) == Ok::<Option<AskView>, Seq<char>>(None)
            &&& asks(uc_get, 0, answer) == Ok::<_, Seq<char>>(
                Some(AskView::Perform(seq![scrubbing(), running(scripts::CDC_CHECK@)])),
            )
            &&& asks(uc_get, 1, answer) == Ok::<_, Seq<char>>(
                Some(AskView::Perform(opened.push(scrubbing()))),
            )
            &&& stage >= 2 ==> asks(uc_get, stage, answer) == Ok::<Option<AskView>, Seq<char>>(None)
            &&& asks(bypass, 0, answer) == asks(goto, 0, answer)
            &&& asks(bypass, 1, answer) == asks(goto, 1, answer)
            &&& asks(bypass, 2, answer) == Ok::<_, Seq<char>>(
                Some(AskView::Perform(passing_challenge())),
            )
            &&& stage >= 3 ==> asks(bypass, stage, answer) == Ok::<Option<AskView>, Seq<char>>(None)
        }),
{
    assert(seq![scrubbing()] + checking() =~= seq![scrubbing(), running(scripts::CDC_CHECK@)]);
}

/// Law: moving to a new tab opens it, reads the windows, closes the one that the session is on,
/// reads the windows that are left, and enters the last of them.
pub proof fn law_stages_of_a_tab(url: String, answer: Answer, stage: nat)
    ensures
        ({
            let tab = Operation::OpenWithTab(url);
            &&& asks(tab, 0, answer) == Ok::<_, Seq<char>>(
                Some(AskView::Perform(opening_tab(url@))),
            )
            &&& asks(tab, 1, answer) == Ok::<_, Seq<char>>(Some(AskView::ReadWindows))
            &&& asks(tab, 2, answer) == Ok::<_, Seq<char>>(
                Some(AskView::Perform(closing_current(answer.windows as nat))),
            )
            &&& asks(tab, 3, answer) == Ok::<_, Seq<char>>(Some(AskView::ReadWindows))
            &&& asks(tab, 4, answer) == Ok::<_, Seq<char>>(
                Some(AskView::Perform(entering_last(answer.windows as nat))),
            )
            &&& stage >= 5 ==> asks(tab, stage, answer) == Ok::<Option<AskView>, Seq<char>>(None)
        }),
{
}

/// Law: an element is asked about before it is clicked, and a failed question counts as no. A
/// visible element is clicked, a box is clicked where it is not in the wanted state, and in every
/// other case nothing is done.
pub proof fn law_stages_of_a_click(css: String, answer: Answer, stage: nat)
    ensures
        ({
            let click = Operation::ClickIfVisible(css);
            let check = Operation::CheckIfUnchecked(css);
            let uncheck = Operation::UncheckIfChecked(css);
            let yes = answer.reply is Some && json_of(answer.reply->0) == Json::Bool(true);
            let nothing = Seq::<StepView>::empty();
            &&& asks(click, 0, answer) == Ok::<_, Seq<char>>(
                Some(AskView::Probe(seq![running(scripts::visible_script(css@))])),
            )
            &&& asks(check, 0, answer) == Ok::<_, Seq<char>>(
                Some(AskView::Probe(seq![running(scripts::checked_script(css@))])),
            )
            &&& asks(uncheck, 0, answer) == Ok::<_, Seq<char>>(
                Some(AskView::Probe(seq![running(scripts::checked_script(css@))])),
            )
            &&& asks(click, 1, answer) == Ok::<_, Seq<char>>(
                Some(
                    AskView::Perform(
                        if yes {
                            clicking_visible(true, css@)
                        } else {
                            nothing
                        },
                    ),
                ),
            )
            &&& asks(check, 1, answer) == Ok::<_, Seq<char>>(
                Some(
                    AskView::Perform(
                        if yes {
                            nothing
                        } else {
                            clicking(css@)
                        },
                    ),
                ),
            )
            &&& asks(uncheck, 1, answer) == Ok::<_, Seq<char>>(
                Some(
                    AskView::Perform(
                        if yes {
                            clicking(css@)
                        } else {
                            nothing
                        },
                    ),
                ),
            )
            &&& stage >= 2 ==> {
                &&& asks(click, stage, answer) == Ok::<Option<AskView>, Seq<char>>(None)
                &&& asks(check, stage, answer) == Ok::<Option<AskView>, Seq<char>>(None)
                &&& asks(uncheck, stage, answer) == Ok::<Option<AskView>, Seq<char>>(None)
            }
        }),
{
}

/// Law: the middle of an element is asked for before the mouse moves there; a reply that does not
/// hold it ends the operation with the words of what is missing.
pub proof fn law_stages_of_hovering(css: String, v: Value, windows: usize, stage: nat)
    ensures
        ({
            let hover = Operation::HoverElement(css);
            let answer = Answer { reply: Some(v), windows };
            &&& asks(hover, 0, answer) == Ok::<_, Seq<char>>(
                Some(AskView::Perform(seq![running(scripts::center_script(css@))])),
            )
            &&& hovering(json_of(v)) matches Ok(steps) ==> asks(hover, 1, answer) == Ok::<
                _,
                Seq<char>,
            >(Some(AskView::Perform(steps)))
            &&& hovering(json_of(v)) matches Err(words) ==> asks(hover, 1, answer) == Err::<
                Option<AskView>,
                Seq<char>,
            >(words)
            &&& stage >= 2 ==> asks(hover, stage, answer) == Ok::<Option<AskView>, Seq<char>>(None)
        }),
{
}

/// Law: the window is looked for before anything is done to it, and what is done is done to the
/// one that came back, with the numbers and the state that were asked for.
pub proof fn law_stages_of_a_window(
    v: Value,
    windows: usize,
    stage: nat,
    x: i64,
    y: i64,
    w: i64,
    h: i64,
    operation: Operation,
)
    requires
        operation is GetWindowRect || operation == Operation::SetWindowRect(x, y, w, h) || operation
            is Maximize || operation is Minimize,
    ensures
        ({
            let answer = Answer { reply: Some(v), windows };
            let target = json_of(v);
            let done = if operation is GetWindowRect {
                asking_bounds(target)
            } else if operation is Maximize {
                setting_state(target, "maximized"@)
            } else if operation is Minimize {
                setting_state(target, "minimized"@)
            } else {
                setting_bounds(target, x as int, y as int, w as int, h as int)
            };
            &&& asks(operation, 0, answer) == Ok::<_, Seq<char>>(
                Some(AskView::Perform(finding_window())),
            )
            &&& asks(operation, 1, answer) == Ok::<_, Seq<char>>(Some(AskView::Perform(done)))
            &&& stage >= 2 ==> asks(operation, stage, answer) == Ok::<Option<AskView>, Seq<char>>(
                None,
            )
        }),
{
}

} // verus!
