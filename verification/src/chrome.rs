//! What each operation on a browser session asks of it, and what its replies mean.
//!
//! An operation is a plan, or a plan for each stage of it: the reply to one stage decides the
//! next.

use vstd::prelude::*;
use vstd::string::*;
use vstd::utf8::encode_utf8;

use serde_json::Value;

use crate::commands::{
    all_cookies, blocked_ads, blocked_urls, bypass_csp, clear_browser_cookies, device_metrics,
    geolocation, grant_permissions, mouse_button, mouse_moved, network_enable, print_page,
    proxy_header, rectangle, screenshot, set_cookie, set_window_bounds, state_only, timezone,
    touch_emulation, user_agent, window_bounds, window_for_target,
};
use crate::commands::{
    all_cookies_command, blocked_urls_command, bypass_csp_command, clear_cookies_command,
    device_metrics_command, geolocation_command, grant_permissions_command, mouse_button_command,
    mouse_moved_command, network_enable_command, normal_bounds, print_command, proxy_header_command,
    screenshot_command, set_cookie_command, set_window_bounds_command, state_bounds,
    timezone_command, touch_emulation_command, user_agent_command, window_bounds_command,
    window_for_target_command,
};
use crate::config::ad_block_list;
use crate::encoding::{base64_bytes, base64_text};
use crate::encoding::decode_base64;
use crate::error::says;
use crate::error::ChromeError;
use crate::json::{as_array, as_bool, as_floating, as_str, duplicate, get_item, get_member, to_text};
use crate::json::lemma_position_is;
use crate::json::{floating, item, json_of, jsons, member, written, Json};
use crate::plan::{may, must, or_stop, Action, Step};
use crate::plan::{
    fails_at, last_resort, law_run_completes, law_run_fails, optional, passes, plan, ran, required,
    started, ActionView, OnError, StepView,
};
use crate::proxy::{basic_authorization, credentials, law_credentials_before_the_at};
use crate::proxy::{proxy_authorization, proxy_credentials};
use crate::scripts;
use crate::stealth::{register, scrub};
use crate::stealth::{registering, scrubbing, CDC_SCRUB_SCRIPT};
use crate::text::{contains_text, join, same_text, text_of, to_uppercase, trim};
use crate::text::{joined, occurs_in, texts, trimmed, uppercase};

verus! {

/// Running a script that has to succeed.
pub open spec fn running(script: Seq<char>) -> StepView {
    required(ActionView::Execute(script))
}

/// Waiting for a number of milliseconds.
pub open spec fn pausing(millis: nat) -> StepView {
    required(ActionView::Sleep(millis))
}

/// Run a script that has to succeed.
fn run_script(script: String) -> (r: Step)
    ensures
        r@ == running(script@),
{
    must(Action::Execute(script))
}

/// Wait for a number of milliseconds.
fn pause(millis: u64) -> (r: Step)
    ensures
        r@ == pausing(millis as nat),
{
    must(Action::Sleep(millis))
}

/// The plan of one script that has to succeed.
fn just_run(script: String) -> (r: Vec<Step>)
    ensures
        plan(r@) == seq![running(script@)],
{
    vec![run_script(script)]
}

/// The plan of one action that has to succeed.
fn just(action: Action) -> (r: Vec<Step>)
    ensures
        plan(r@) == seq![required(action@)],
{
    vec![must(action)]
}

// ─── Replies ─────────────────────────────────────────────────────────────────

/// A reply read as a text: the string, or nothing at all.
pub open spec fn as_text(reply: Json) -> Option<Seq<char>> {
    match reply {
        Json::Text(s) => Some(s),
        _ => None,
    }
}

/// A reply read as a text; the empty text where it is not a string.
pub fn text_reply(reply: &Value) -> (r: String)
    ensures
        r@ == (match as_text(json_of(*reply)) {
            Some(s) => s,
            None => Seq::empty(),
        }),
        json_of(*reply) matches Json::Text(s) ==> r@ == s,
        !(json_of(*reply) is Text) ==> r@.len() == 0,
{
    match as_str(reply) {
        Some(s) => s.to_string(),
        None => String::new(),
    }
}

/// A reply read as a text; nothing where it is not a string.
pub fn optional_text_reply(reply: &Value) -> (r: Option<String>)
    ensures
        r is Some <==> as_text(json_of(*reply)) is Some,
        r matches Some(s) ==> as_text(json_of(*reply)) == Some(s@),
        r is Some <==> json_of(*reply) is Text,
        r matches Some(s) ==> json_of(*reply) == Json::Text(s@),
{
    match as_str(reply) {
        Some(s) => Some(s.to_string()),
        None => None,
    }
}

/// A reply read as an answer: yes only where there is a reply and it is `true`.
pub fn flag_reply(reply: Option<&Value>) -> (r: bool)
    ensures
        r == (reply matches Some(v) && json_of(*v) == Json::Bool(true)),
{
    match reply {
        Some(v) => match as_bool(v) {
            Some(b) => b,
            None => false,
        },
        None => false,
    }
}

/// The strings among a list of values, in order.
pub open spec fn strings_among(items: Seq<Json>) -> Seq<Seq<char>>
    decreases items.len(),
{
    if items.len() == 0 {
        Seq::empty()
    } else {
        match as_text(items.last()) {
            Some(s) => strings_among(items.drop_last()).push(s),
            None => strings_among(items.drop_last()),
        }
    }
}

/// A reply read as a list of texts: the strings of an array, or none.
pub fn texts_reply(reply: &Value) -> (r: Vec<String>)
    ensures
        texts(r@) == (match json_of(*reply) {
            Json::Array(items) => strings_among(items),
            _ => Seq::empty(),
        }),
        json_of(*reply) matches Json::Array(items) ==> r@.len() == items.filter(
            |v: Json| v is Text,
        ).len() && forall|i: int|
            0 <= i < r@.len() ==> Json::Text(#[trigger] r@[i]@) == items.filter(
                |v: Json| v is Text,
            )[i],
        !(json_of(*reply) is Array) ==> r@.len() == 0,
{
    let mut out: Vec<String> = Vec::new();
    match as_array(reply) {
        Some(items) => {
            let ghost all = jsons(items@);
            let mut i: usize = 0;
            assert(texts(out@) =~= strings_among(all.take(0)));
            while i < items.len()
                invariant
                    i <= items.len(),
                    all == jsons(items@),
                    texts(out@) == strings_among(all.take(i as int)),
                decreases items.len() - i,
            {
                let ghost before = out@;
                proof {
                    let done = all.take(i + 1);
                    assert(done.drop_last() =~= all.take(i as int));
                    assert(done.last() == json_of(items@[i as int]));
                }
                match as_str(&items[i]) {
                    Some(s) => {
                        out.push(s.to_string());
                        assert(texts(out@) =~= texts(before).push(s@));
                    },
                    None => {},
                }
                i = i + 1;
            }
            assert(all.take(i as int) =~= all);
        },
        None => {
            assert(texts(out@) =~= Seq::<Seq<char>>::empty());
        },
    }
    proof {
        if let Json::Array(items) = json_of(*reply) {
            law_strings_are_filtered(items);
            assert forall|i: int| 0 <= i < out@.len() implies Json::Text(#[trigger] out@[i]@)
                == items.filter(|v: Json| v is Text)[i] by {
                assert(texts(out@)[i] == out@[i]@);
            }
        }
    }
    out
}

/// The bytes of a reply's `data` field, decoded from base64. Where the field is missing the
/// error says so in the given words; where it is not base64 the decoder's error comes back.
pub fn bytes_reply(reply: &Value, missing: &str) -> (r: Result<Vec<u8>, ChromeError>)
    ensures
        as_text(member(json_of(*reply), "data"@)) is None ==> r is Err && says(r->Err_0, missing@),
        as_text(member(json_of(*reply), "data"@)) matches Some(s) ==> {
            &&& r is Ok <==> base64_bytes(s) is Some
            &&& r matches Ok(bytes) ==> base64_bytes(s) == Some(bytes@)
            &&& r matches Err(e) ==> e is Base64
        },
        member(json_of(*reply), "data"@) matches Json::Text(s) ==> {
            &&& r is Ok <==> base64_bytes(s) is Some
            &&& r matches Ok(bytes) ==> base64_bytes(s) == Some(bytes@)
        },
        !(member(json_of(*reply), "data"@) is Text) ==> r is Err,
{
    match as_str(get_member(reply, "data")) {
        Some(s) => match decode_base64(s) {
            Ok(bytes) => Ok(bytes),
            Err(e) => Err(ChromeError::from(e)),
        },
        None => Err(ChromeError::from(missing)),
    }
}

// ─── Stealth ─────────────────────────────────────────────────────────────────

/// Scrub CDC props from the current page context.
pub fn remove_cdc_props() -> (r: Vec<Step>)
    ensures
        plan(r@) == seq![scrubbing()],
{
    vec![scrub()]
}

// ─── Navigation ──────────────────────────────────────────────────────────────

/// Listing the CDC props of the page.
pub open spec fn checking() -> Seq<StepView> {
    seq![running(scripts::CDC_CHECK@)]
}

/// The first stage of navigating: list the CDC props of the page.
pub fn goto_check() -> (r: Vec<Step>)
    ensures
        plan(r@) == checking(),
{
    just_run(scripts::CDC_CHECK.to_string())
}

/// What a list of CDC props asks for: nothing where it is empty or no list, else deleting them.
pub open spec fn deleting_props(props: Json) -> Seq<StepView> {
    match props {
        Json::Array(items) => if items.len() > 0 {
            seq![running(scripts::delete_props_script(written(props))), pausing(50)]
        } else {
            Seq::empty()
        },
        _ => Seq::empty(),
    }
}

/// Going to an address: the listed CDC props are deleted first, and the new page is scrubbed.
pub open spec fn going_to(props: Json, url: Seq<char>) -> Seq<StepView> {
    deleting_props(props) + seq![required(ActionView::Navigate(url)), scrubbing()]
}

/// The second stage of navigating: delete the listed CDC props, open the address, scrub the page.
pub fn goto(props: &Value, url: &str) -> (r: Result<Vec<Step>, ChromeError>)
    ensures
        r is Ok,
        r matches Ok(steps) ==> plan(steps@) == going_to(json_of(*props), url@),
{
    let mut steps: Vec<Step> = Vec::new();
    let listed: bool = match as_array(props) {
        Some(items) => items.len() > 0,
        None => false,
    };
    if listed {
        match to_text(props) {
            Ok(names) => {
                steps.push(run_script(scripts::delete_props(names.as_str())));
                steps.push(pause(50));
            },
            Err(e) => {
                return Err(ChromeError::from(e));
            },
        }
    }
    assert(plan(steps@) =~= deleting_props(json_of(*props)));
    steps.push(must(Action::Navigate(url.to_string())));
    steps.push(scrub());
    assert(plan(steps@) =~= going_to(json_of(*props), url@));
    Ok(steps)
}

/// The first stage of the double-scrub variant: scrub, then list the CDC props.
pub fn uc_get_check() -> (r: Vec<Step>)
    ensures
        plan(r@) == seq![scrubbing()] + checking(),
{
    let steps = vec![scrub(), run_script(scripts::CDC_CHECK.to_string())];
    assert(plan(steps@) =~= seq![scrubbing()] + checking());
    steps
}

/// The second stage of the double-scrub variant: navigate, then scrub once more.
pub fn uc_get(props: &Value, url: &str) -> (r: Result<Vec<Step>, ChromeError>)
    ensures
        r is Ok,
        r matches Ok(steps) ==> plan(steps@) == going_to(json_of(*props), url@).push(scrubbing()),
{
    match goto(props, url) {
        Ok(steps) => {
            let mut all = steps;
            all.push(scrub());
            assert(plan(all@) =~= going_to(json_of(*props), url@).push(scrubbing()));
            Ok(all)
        },
        Err(e) => Err(e),
    }
}

/// Moving within the session: a scrub before, the script, a moment, and a scrub after.
pub open spec fn travelling(script: Seq<char>) -> Seq<StepView> {
    seq![scrubbing(), running(script), pausing(300), scrubbing()]
}

fn travel(script: &str) -> (r: Vec<Step>)
    ensures
        plan(r@) == travelling(script@),
{
    vec![scrub(), run_script(script.to_string()), pause(300), scrub()]
}

/// Reload with pre/post CDC scrub.
pub fn refresh() -> (r: Vec<Step>)
    ensures
        plan(r@) == travelling(scripts::RELOAD@),
{
    travel(scripts::RELOAD)
}

/// Navigate back with CDC scrub.
pub fn go_back() -> (r: Vec<Step>)
    ensures
        plan(r@) == travelling(scripts::GO_BACK@),
{
    travel(scripts::GO_BACK)
}

/// Navigate forward with CDC scrub.
pub fn go_forward() -> (r: Vec<Step>)
    ensures
        plan(r@) == travelling(scripts::GO_FORWARD@),
{
    travel(scripts::GO_FORWARD)
}

/// Opening an address in a new tab, and waiting a second.
pub open spec fn opening_tab(url: Seq<char>) -> Seq<StepView> {
    seq![running(scripts::open_tab_script(url)), pausing(1000)]
}

/// Closing the window that the session is on, where there is a window at all. A new tab does not
/// change which one that is.
pub open spec fn closing_current(windows: nat) -> Seq<StepView> {
    if windows > 0 {
        seq![required(ActionView::CloseWindow)]
    } else {
        Seq::empty()
    }
}

/// Going to the last of the windows, where there is one, and scrubbing the page.
pub open spec fn entering_last(windows: nat) -> Seq<StepView> {
    if windows > 0 {
        seq![required(ActionView::SwitchWindow((windows - 1) as nat)), scrubbing()]
    } else {
        seq![scrubbing()]
    }
}

/// The first stage of moving to a new tab: open the address in one, and wait a second.
pub fn uc_open_with_tab(url: &str) -> (r: Vec<Step>)
    ensures
        plan(r@) == opening_tab(url@),
{
    vec![run_script(scripts::open_tab(url)), pause(1000)]
}

/// The second stage, with the number of windows: close the one that the session is on, which is
/// the original one.
pub fn close_original_window(windows: usize) -> (r: Vec<Step>)
    ensures
        plan(r@) == closing_current(windows as nat),
{
    if windows > 0 {
        vec![must(Action::CloseWindow)]
    } else {
        let none: Vec<Step> = Vec::new();
        assert(plan(none@) =~= Seq::<StepView>::empty());
        none
    }
}

/// The last stage, with the number of windows that are left: go to the last one, and scrub it.
pub fn enter_last_window(windows: usize) -> (r: Vec<Step>)
    ensures
        plan(r@) == entering_last(windows as nat),
{
    if windows > 0 {
        vec![must(Action::SwitchWindow(windows - 1)), scrub()]
    } else {
        vec![scrub()]
    }
}

/// Leaving the session with the address open in a new tab; neither step matters if it fails.
pub fn leave_with_tab(url: &str) -> (r: Vec<Step>)
    ensures
        plan(r@) == seq![
            optional(ActionView::Execute(scripts::open_tab_script(url@))),
            optional(ActionView::Quit),
        ],
{
    vec![may(Action::Execute(scripts::open_tab(url))), may(Action::Quit)]
}

/// After reconnecting, with the number of windows: go to the last one, if that works.
pub fn resume_last_window(windows: usize) -> (r: Vec<Step>)
    ensures
        plan(r@) == (if windows > 0 {
            seq![optional(ActionView::SwitchWindow((windows - 1) as nat))]
        } else {
            Seq::empty()
        }),
{
    if windows > 0 {
        vec![may(Action::SwitchWindow(windows - 1))]
    } else {
        let none: Vec<Step> = Vec::new();
        assert(plan(none@) =~= Seq::<StepView>::empty());
        none
    }
}

/// Ask for the address of the page.
pub fn get_current_url() -> (r: Vec<Step>)
    ensures
        plan(r@) == seq![running(scripts::CURRENT_URL@)],
{
    just_run(scripts::CURRENT_URL.to_string())
}

/// Ask for the title of the page.
pub fn get_title() -> (r: Vec<Step>)
    ensures
        plan(r@) == seq![running(scripts::TITLE@)],
{
    just_run(scripts::TITLE.to_string())
}

/// Ask for the source of the page.
pub fn get_page_source() -> (r: Vec<Step>)
    ensures
        plan(r@) == seq![running(scripts::PAGE_SOURCE@)],
{
    just_run(scripts::PAGE_SOURCE.to_string())
}

// ─── Cloudflare bypass ───────────────────────────────────────────────────────

/// Clicking the box of a challenge, in the first frame of the page.
pub open spec fn passing_challenge() -> Seq<StepView> {
    seq![
        required(ActionView::EnterFrame(0)),
        required(ActionView::FindXPath("/html/body//div/div[1]/div[1]/div/label/input"@)),
        required(ActionView::WaitClickable),
        pausing(2000),
        required(ActionView::Click),
    ]
}

/// The steps behind navigating to a page with a challenge: click the box in its first frame.
pub fn bypass_cloudflare() -> (r: Vec<Step>)
    ensures
        plan(r@) == passing_challenge(),
{
    vec![
        must(Action::EnterFrame(0)),
        must(Action::FindXPath("/html/body//div/div[1]/div[1]/div/label/input".to_string())),
        must(Action::WaitClickable),
        pause(2000),
        must(Action::Click),
    ]
}

// ─── Clicking ────────────────────────────────────────────────────────────────

/// Clicking an element, and waiting until the delayed click has happened.
pub open spec fn clicking(selector: Seq<char>) -> Seq<StepView> {
    seq![running(scripts::click_script(selector)), pausing(150)]
}

/// 111 ms delayed JS click.
pub fn uc_click(css_selector: &str) -> (r: Vec<Step>)
    ensures
        plan(r@) == clicking(css_selector@),
{
    vec![run_script(scripts::click(css_selector)), pause(150)]
}

/// Clicking a visible element; where the click fails, nothing more happens.
pub open spec fn clicking_visible(visible: bool, selector: Seq<char>) -> Seq<StepView> {
    if visible {
        seq![last_resort(ActionView::Execute(scripts::click_script(selector))), pausing(150)]
    } else {
        Seq::empty()
    }
}

/// Clicking a box where its state is not the wanted one.
pub open spec fn toggling(checked: bool, wanted: bool, selector: Seq<char>) -> Seq<StepView> {
    if checked == wanted {
        Seq::empty()
    } else {
        clicking(selector)
    }
}

/// Click a visible element; where the click fails, nothing more happens.
pub fn click_if_visible(visible: bool, css_selector: &str) -> (r: Vec<Step>)
    ensures
        plan(r@) == clicking_visible(visible, css_selector@),
{
    if visible {
        vec![or_stop(Action::Execute(scripts::click(css_selector))), pause(150)]
    } else {
        let none: Vec<Step> = Vec::new();
        assert(plan(none@) =~= Seq::<StepView>::empty());
        none
    }
}

/// Click a box that is not checked.
pub fn check_if_unchecked(checked: bool, css_selector: &str) -> (r: Vec<Step>)
    ensures
        plan(r@) == toggling(checked, true, css_selector@),
{
    if checked {
        let none: Vec<Step> = Vec::new();
        assert(plan(none@) =~= Seq::<StepView>::empty());
        none
    } else {
        uc_click(css_selector)
    }
}

/// Click a box that is checked.
pub fn uncheck_if_checked(checked: bool, css_selector: &str) -> (r: Vec<Step>)
    ensures
        plan(r@) == toggling(checked, false, css_selector@),
{
    if checked {
        uc_click(css_selector)
    } else {
        let none: Vec<Step> = Vec::new();
        assert(plan(none@) =~= Seq::<StepView>::empty());
        none
    }
}

// ─── Form / typing ───────────────────────────────────────────────────────────

/// Focus + clear + native typing.
pub fn send_keys(css_selector: &str, text: &str) -> (r: Vec<Step>)
    ensures
        plan(r@) == seq![
            running(scripts::focus_script(css_selector@)),
            required(ActionView::FindCss(css_selector@)),
            required(ActionView::SendKeys(text@)),
        ],
{
    vec![
        run_script(scripts::focus_and_clear(css_selector)),
        must(Action::FindCss(css_selector.to_string())),
        must(Action::SendKeys(text.to_string())),
    ]
}

/// Set `.value` via React-compatible native setter + input/change events.
pub fn set_value(css_selector: &str, value: &str) -> (r: Vec<Step>)
    ensures
        plan(r@) == seq![running(scripts::set_value_script(css_selector@, value@))],
{
    just_run(scripts::set_value_of(css_selector, value))
}

/// Clear an input.
pub fn clear_input(css_selector: &str) -> (r: Vec<Step>)
    ensures
        plan(r@) == seq![running(scripts::clear_input_script(css_selector@))],
{
    just_run(scripts::clear_value(css_selector))
}

/// Dispatch Enter keydown — submits forms without clicking a button.
pub fn submit(css_selector: &str) -> (r: Vec<Step>)
    ensures
        plan(r@) == seq![running(scripts::submit_script(css_selector@))],
{
    just_run(scripts::press_enter(css_selector))
}

// ─── Scroll ──────────────────────────────────────────────────────────────────

/// Scroll to the top of the page.
pub fn scroll_to_top() -> (r: Vec<Step>)
    ensures
        plan(r@) == seq![running(scripts::SCROLL_TO_TOP@)],
{
    just_run(scripts::SCROLL_TO_TOP.to_string())
}

/// Scroll to the bottom of the page.
pub fn scroll_to_bottom() -> (r: Vec<Step>)
    ensures
        plan(r@) == seq![running(scripts::SCROLL_TO_BOTTOM@)],
{
    just_run(scripts::SCROLL_TO_BOTTOM.to_string())
}

/// Scroll to a height.
pub fn scroll_to_y(y: i64) -> (r: Vec<Step>)
    ensures
        plan(r@) == seq![running(scripts::scroll_to_script(y as int))],
{
    just_run(scripts::scroll_to(y))
}

/// Scroll by a height.
pub fn scroll_by_y(y: i64) -> (r: Vec<Step>)
    ensures
        plan(r@) == seq![running(scripts::scroll_by_script(y as int))],
{
    just_run(scripts::scroll_by(y))
}

/// Scroll an element into view.
pub fn scroll_into_view(css_selector: &str) -> (r: Vec<Step>)
    ensures
        plan(r@) == seq![running(scripts::scroll_into_view_script(css_selector@))],
{
    just_run(scripts::scroll_to_element(css_selector))
}

// ─── DOM mutation ────────────────────────────────────────────────────────────

/// Remove an element.
pub fn remove_element(css_selector: &str) -> (r: Vec<Step>)
    ensures
        plan(r@) == seq![running(scripts::remove_element_script(css_selector@))],
{
    just_run(scripts::remove_one(css_selector))
}

/// Remove every element under a selector.
pub fn remove_elements(css_selector: &str) -> (r: Vec<Step>)
    ensures
        plan(r@) == seq![running(scripts::remove_elements_script(css_selector@))],
{
    just_run(scripts::remove_all(css_selector))
}

/// Set an attribute of an element.
pub fn set_attribute(css_selector: &str, attr: &str, val: &str) -> (r: Vec<Step>)
    ensures
        plan(r@) == seq![running(scripts::set_attribute_script(css_selector@, attr@, val@))],
{
    just_run(scripts::set_attribute_of(css_selector, attr, val))
}

/// Ask for an attribute of an element.
pub fn get_attribute(css_selector: &str, attr: &str) -> (r: Vec<Step>)
    ensures
        plan(r@) == seq![running(scripts::get_attribute_script(css_selector@, attr@))],
{
    just_run(scripts::attribute_of(css_selector, attr))
}

/// Ask for the text of an element.
pub fn get_text(css_selector: &str) -> (r: Vec<Step>)
    ensures
        plan(r@) == seq![running(scripts::get_text_script(css_selector@))],
{
    just_run(scripts::text_of_element(css_selector))
}

/// Rewrite all `target="_blank"` links to `target="_self"`.
pub fn internalize_links() -> (r: Vec<Step>)
    ensures
        plan(r@) == seq![running(scripts::INTERNALIZE_LINKS@)],
{
    just_run(scripts::INTERNALIZE_LINKS.to_string())
}

/// Open a new browser window at URL.
pub fn window_new(url: &str) -> (r: Vec<Step>)
    ensures
        plan(r@) == seq![running(scripts::open_tab_script(url@))],
{
    just_run(scripts::open_tab(url))
}

// ─── Visibility and boxes ────────────────────────────────────────────────────

/// Ask whether an element is visible.
pub fn is_element_visible(css_selector: &str) -> (r: Vec<Step>)
    ensures
        plan(r@) == seq![running(scripts::visible_script(css_selector@))],
{
    just_run(scripts::visible(css_selector))
}

/// Ask whether an element is there.
pub fn is_element_present(css_selector: &str) -> (r: Vec<Step>)
    ensures
        plan(r@) == seq![running(scripts::present_script(css_selector@))],
{
    just_run(scripts::present(css_selector))
}

/// Ask whether a box is checked.
pub fn is_checked(css_selector: &str) -> (r: Vec<Step>)
    ensures
        plan(r@) == seq![running(scripts::checked_script(css_selector@))],
{
    just_run(scripts::checked(css_selector))
}

// ─── Mouse / gesture ─────────────────────────────────────────────────────────

/// Ask for the center of an element.
pub fn element_center(css_selector: &str) -> (r: Vec<Step>)
    ensures
        plan(r@) == seq![running(scripts::center_script(css_selector@))],
{
    just_run(scripts::center(css_selector))
}

/// A coordinate of a reply: a number at a place of an array, read as floating point.
pub open spec fn coordinate(reply: Json, at: int) -> Option<Json> {
    match item(reply, at) {
        Json::Number(n) => Some(Json::Number(floating(n))),
        _ => None,
    }
}

/// A coordinate of a reply; where there is none the error says so in the given words.
fn read_coordinate(reply: &Value, at: usize, missing: &str) -> (r: Result<Value, ChromeError>)
    ensures
        r is Ok <==> coordinate(json_of(*reply), at as int) is Some,
        r matches Ok(v) ==> coordinate(json_of(*reply), at as int) == Some(json_of(v)),
        r matches Err(e) ==> says(e, missing@),
{
    match as_floating(get_item(reply, at)) {
        Some(v) => Ok(v),
        None => Err(ChromeError::from(missing)),
    }
}

/// Moving the mouse to a center, or the words of the error where a coordinate is missing.
pub open spec fn hovering(center: Json) -> Result<Seq<StepView>, Seq<char>> {
    match (coordinate(center, 0), coordinate(center, 1)) {
        (None, _) => Err("hover: missing x coordinate"@),
        (Some(_), None) => Err("hover: missing y coordinate"@),
        (Some(x), Some(y)) => Ok(
            seq![required(mouse_moved_command(x, y, "none"@)), pausing(100)],
        ),
    }
}

/// Move the mouse to the center that a reply names.
pub fn hover_element(center: &Value) -> (r: Result<Vec<Step>, ChromeError>)
    ensures
        match hovering(json_of(*center)) {
            Ok(steps) => r is Ok && plan(r->Ok_0@) == steps,
            Err(words) => r is Err && says(r->Err_0, words),
        },
{
    match read_coordinate(center, 0, "hover: missing x coordinate") {
        Ok(x) => match read_coordinate(center, 1, "hover: missing y coordinate") {
            Ok(y) => Ok(vec![must(mouse_moved(x, y, "none")), pause(100)]),
            Err(e) => Err(e),
        },
        Err(e) => Err(e),
    }
}

/// The ends of a drag: where the first coordinate is missing, in the order in which they are
/// read, the error says which.
pub fn drag_and_drop(start: &Value, end: &Value) -> (r: Result<
    ((Value, Value), (Value, Value)),
    ChromeError,
>)
    ensures
        match (
            coordinate(json_of(*start), 0),
            coordinate(json_of(*start), 1),
            coordinate(json_of(*end), 0),
            coordinate(json_of(*end), 1),
        ) {
            (None, _, _, _) => r is Err && says(r->Err_0, "drag: missing x1"@),
            (Some(_), None, _, _) => r is Err && says(r->Err_0, "drag: missing y1"@),
            (Some(_), Some(_), None, _) => r is Err && says(r->Err_0, "drag: missing x2"@),
            (Some(_), Some(_), Some(_), None) => r is Err && says(r->Err_0, "drag: missing y2"@),
            (Some(x1), Some(y1), Some(x2), Some(y2)) => {
                &&& r is Ok
                &&& json_of(r->Ok_0.0.0) == x1
                &&& json_of(r->Ok_0.0.1) == y1
                &&& json_of(r->Ok_0.1.0) == x2
                &&& json_of(r->Ok_0.1.1) == y2
            },
        },
{
    let x1 = match read_coordinate(start, 0, "drag: missing x1") {
        Ok(v) => v,
        Err(e) => {
            return Err(e);
        },
    };
    let y1 = match read_coordinate(start, 1, "drag: missing y1") {
        Ok(v) => v,
        Err(e) => {
            return Err(e);
        },
    };
    let x2 = match read_coordinate(end, 0, "drag: missing x2") {
        Ok(v) => v,
        Err(e) => {
            return Err(e);
        },
    };
    let y2 = match read_coordinate(end, 1, "drag: missing y2") {
        Ok(v) => v,
        Err(e) => {
            return Err(e);
        },
    };
    Ok(((x1, y1), (x2, y2)))
}

/// The number of points between the ends of a drag that the mouse is moved to.
pub const DRAG_STEPS: u32 = 10;

/// Moving the mouse along points with the left button held.
pub open spec fn dragging_along(points: Seq<(Value, Value)>) -> Seq<StepView>
    decreases points.len(),
{
    if points.len() == 0 {
        Seq::empty()
    } else {
        dragging_along(points.drop_last()) + seq![
            required(
                mouse_moved_command(
                    json_of(points.last().0),
                    json_of(points.last().1),
                    "left"@,
                ),
            ),
            pausing(16),
        ]
    }
}

/// CDP drag between raw viewport coordinates, along the points between them, of which there are
/// [`DRAG_STEPS`].
pub fn drag_and_drop_points(
    start: (Value, Value),
    points: Vec<(Value, Value)>,
    end: (Value, Value),
) -> (r: Vec<Step>)
    requires
        points@.len() == DRAG_STEPS,
    ensures
        plan(r@) == seq![
            required(
                mouse_button_command("mousePressed"@, json_of(start.0), json_of(start.1)),
            ),
            pausing(50),
        ] + dragging_along(points@) + seq![
            required(mouse_button_command("mouseReleased"@, json_of(end.0), json_of(end.1))),
        ],
{
    let mut steps = vec![must(mouse_button("mousePressed", start.0, start.1)), pause(50)];
    let ghost head = plan(steps@);
    assert(plan(steps@) =~= head + dragging_along(points@.take(0)));
    for p in it: points
        invariant
            it.seq() == points@,
            plan(steps@) == head + dragging_along(points@.take(it.index() as int)),
    {
        let ghost at = it.index() as int;
        let ghost before = plan(steps@);
        steps.push(must(mouse_moved(p.0, p.1, "left")));
        steps.push(pause(16));
        proof {
            let done = points@.take(at + 1);
            assert(done.drop_last() =~= points@.take(at));
            assert(done.last() == p);
            let two = seq![
                required(mouse_moved_command(json_of(p.0), json_of(p.1), "left"@)),
                pausing(16),
            ];
            assert(plan(steps@) =~= before + two);
            assert(before + two =~= head + (dragging_along(points@.take(at)) + two));
        }
    }
    proof {
        assert(points@.take(points@.len() as int) =~= points@);
    }
    let ghost before = plan(steps@);
    steps.push(must(mouse_button("mouseReleased", end.0, end.1)));
    assert(plan(steps@) =~= before + seq![
        required(mouse_button_command("mouseReleased"@, json_of(end.0), json_of(end.1))),
    ]);
    steps
}

// ─── Window geometry ─────────────────────────────────────────────────────────

/// Asking for the identifier of the window.
pub open spec fn finding_window() -> Seq<StepView> {
    seq![required(window_for_target_command())]
}

/// Asking for the bounds of the window that a reply names.
pub open spec fn asking_bounds(target: Json) -> Seq<StepView> {
    seq![required(window_bounds_command(member(target, "windowId"@)))]
}

/// Setting the bounds of the window that a reply names.
pub open spec fn setting_bounds(target: Json, x: int, y: int, w: int, h: int) -> Seq<StepView> {
    seq![
        required(
            set_window_bounds_command(member(target, "windowId"@), normal_bounds(x, y, w, h)),
        ),
    ]
}

/// The first stage of every operation on the window: ask for its identifier.
pub fn find_window() -> (r: Vec<Step>)
    ensures
        plan(r@) == finding_window(),
{
    just(window_for_target())
}

/// Ask for the bounds of the window that a reply names.
pub fn get_window_rect(target: &Value) -> (r: Vec<Step>)
    ensures
        plan(r@) == asking_bounds(json_of(*target)),
{
    just(window_bounds(duplicate(get_member(target, "windowId"))))
}

/// The bounds that a reply holds; null where it holds none.
pub fn window_rect_reply(reply: &Value) -> (r: Value)
    ensures
        json_of(r) == member(json_of(*reply), "bounds"@),
{
    duplicate(get_member(reply, "bounds"))
}

/// Set the bounds of the window that a reply names.
pub fn set_window_rect(target: &Value, x: i64, y: i64, w: i64, h: i64) -> (r: Vec<Step>)
    ensures
        plan(r@) == setting_bounds(json_of(*target), x as int, y as int, w as int, h as int),
{
    just(set_window_bounds(duplicate(get_member(target, "windowId")), rectangle(x, y, w, h)))
}

/// Setting the state of the window that a reply names.
pub open spec fn setting_state(target: Json, state: Seq<char>) -> Seq<StepView> {
    seq![
        required(set_window_bounds_command(member(target, "windowId"@), state_bounds(state))),
    ]
}

/// Set the browser window to a specific state (maximized/minimized).
pub fn set_window_state(target: &Value, state: &str) -> (r: Vec<Step>)
    ensures
        plan(r@) == setting_state(json_of(*target), state@),
{
    just(set_window_bounds(duplicate(get_member(target, "windowId")), state_only(state)))
}

/// Maximize the window that a reply names.
pub fn maximize(target: &Value) -> (r: Vec<Step>)
    ensures
        plan(r@) == setting_state(json_of(*target), "maximized"@),
{
    set_window_state(target, "maximized")
}

/// Minimize the window that a reply names.
pub fn minimize(target: &Value) -> (r: Vec<Step>)
    ensures
        plan(r@) == setting_state(json_of(*target), "minimized"@),
{
    set_window_state(target, "minimized")
}

// ─── Storage ─────────────────────────────────────────────────────────────────

/// Ask for an item of `localStorage`.
pub fn get_local_storage_item(key: &str) -> (r: Vec<Step>)
    ensures
        plan(r@) == seq![running(scripts::get_stored_script(scripts::LOCAL_STORAGE@, key@))],
{
    just_run(scripts::get_stored(scripts::LOCAL_STORAGE, key))
}

/// Set an item of `localStorage`.
pub fn set_local_storage_item(key: &str, val: &str) -> (r: Vec<Step>)
    ensures
        plan(r@) == seq![running(scripts::set_stored_script(scripts::LOCAL_STORAGE@, key@, val@))],
{
    just_run(scripts::set_stored(scripts::LOCAL_STORAGE, key, val))
}

/// Remove an item of `localStorage`.
pub fn remove_local_storage_item(key: &str) -> (r: Vec<Step>)
    ensures
        plan(r@) == seq![running(scripts::remove_stored_script(scripts::LOCAL_STORAGE@, key@))],
{
    just_run(scripts::remove_stored(scripts::LOCAL_STORAGE, key))
}

/// Empty `localStorage`.
pub fn clear_local_storage() -> (r: Vec<Step>)
    ensures
        plan(r@) == seq![running(scripts::clear_stored_script(scripts::LOCAL_STORAGE@))],
{
    just_run(scripts::clear_stored(scripts::LOCAL_STORAGE))
}

/// Ask for an item of `sessionStorage`.
pub fn get_session_storage_item(key: &str) -> (r: Vec<Step>)
    ensures
        plan(r@) == seq![running(scripts::get_stored_script(scripts::SESSION_STORAGE@, key@))],
{
    just_run(scripts::get_stored(scripts::SESSION_STORAGE, key))
}

/// Set an item of `sessionStorage`.
pub fn set_session_storage_item(key: &str, val: &str) -> (r: Vec<Step>)
    ensures
        plan(r@) == seq![running(scripts::set_stored_script(scripts::SESSION_STORAGE@, key@, val@))],
{
    just_run(scripts::set_stored(scripts::SESSION_STORAGE, key, val))
}

/// Remove an item of `sessionStorage`.
pub fn remove_session_storage_item(key: &str) -> (r: Vec<Step>)
    ensures
        plan(r@) == seq![running(scripts::remove_stored_script(scripts::SESSION_STORAGE@, key@))],
{
    just_run(scripts::remove_stored(scripts::SESSION_STORAGE, key))
}

/// Empty `sessionStorage`.
pub fn clear_session_storage() -> (r: Vec<Step>)
    ensures
        plan(r@) == seq![running(scripts::clear_stored_script(scripts::SESSION_STORAGE@))],
{
    just_run(scripts::clear_stored(scripts::SESSION_STORAGE))
}

// ─── Cookies ─────────────────────────────────────────────────────────────────

/// Ask for all cookies.
pub fn get_all_cookies() -> (r: Vec<Step>)
    ensures
        plan(r@) == seq![required(all_cookies_command())],
{
    just(all_cookies())
}

/// The cookies that a reply holds; null where it holds none.
pub fn cookies_reply(reply: &Value) -> (r: Value)
    ensures
        json_of(r) == member(json_of(*reply), "cookies"@),
{
    duplicate(get_member(reply, "cookies"))
}

/// Setting each cookie of a list; a cookie that is refused is left out.
pub open spec fn setting_cookies(cookies: Json) -> Seq<StepView> {
    match cookies {
        Json::Array(items) => items.map_values(|c: Json| optional(set_cookie_command(c))),
        _ => Seq::empty(),
    }
}

/// Restore cookies from a `Value` returned by `cookies_reply`.
pub fn set_all_cookies(cookies: &Value) -> (r: Vec<Step>)
    ensures
        plan(r@) == setting_cookies(json_of(*cookies)),
{
    let mut steps: Vec<Step> = Vec::new();
    match as_array(cookies) {
        Some(items) => {
            let ghost all = setting_cookies(json_of(*cookies));
            let mut i: usize = 0;
            while i < items.len()
                invariant
                    i <= items.len(),
                    json_of(*cookies) == Json::Array(jsons(items@)),
                    all == setting_cookies(json_of(*cookies)),
                    plan(steps@) == all.take(i as int),
                decreases items.len() - i,
            {
                let ghost before = plan(steps@);
                steps.push(may(set_cookie(duplicate(&items[i]))));
                proof {
                    assert(plan(steps@) =~= before.push(all[i as int]));
                    assert(all.take(i + 1) =~= all.take(i as int).push(all[i as int]));
                }
                i = i + 1;
            }
            assert(all.take(i as int) =~= all);
        },
        None => {
            assert(plan(steps@) =~= Seq::<StepView>::empty());
        },
    }
    steps
}

/// Ask for the cookies of the page, in one text.
pub fn get_cookie_string() -> (r: Vec<Step>)
    ensures
        plan(r@) == seq![running(scripts::COOKIE_STRING@)],
{
    just_run(scripts::COOKIE_STRING.to_string())
}

/// Delete all cookies.
pub fn clear_cookies() -> (r: Vec<Step>)
    ensures
        plan(r@) == seq![required(clear_cookies_command())],
{
    just(clear_browser_cookies())
}

// ─── Page capture ────────────────────────────────────────────────────────────

/// Lossless PNG screenshot via CDP.
pub fn cdp_screenshot() -> (r: Vec<Step>)
    ensures
        plan(r@) == seq![required(screenshot_command())],
{
    just(screenshot())
}

/// The image of a screenshot's reply.
pub fn screenshot_reply(reply: &Value) -> (r: Result<Vec<u8>, ChromeError>)
    ensures
        as_text(member(json_of(*reply), "data"@)) is None ==> r is Err && says(
            r->Err_0,
            "screenshot: missing data field"@,
        ),
        as_text(member(json_of(*reply), "data"@)) matches Some(s) ==> {
            &&& r is Ok <==> base64_bytes(s) is Some
            &&& r matches Ok(bytes) ==> base64_bytes(s) == Some(bytes@)
            &&& r matches Err(e) ==> e is Base64
        },
{
    bytes_reply(reply, "screenshot: missing data field")
}

/// Print page to PDF via CDP.
pub fn print_to_pdf() -> (r: Vec<Step>)
    ensures
        plan(r@) == seq![required(print_command())],
{
    just(print_page())
}

/// The document of a printed page's reply.
pub fn pdf_reply(reply: &Value) -> (r: Result<Vec<u8>, ChromeError>)
    ensures
        as_text(member(json_of(*reply), "data"@)) is None ==> r is Err && says(
            r->Err_0,
            "pdf: missing data field"@,
        ),
        as_text(member(json_of(*reply), "data"@)) matches Some(s) ==> {
            &&& r is Ok <==> base64_bytes(s) is Some
            &&& r matches Ok(bytes) ==> base64_bytes(s) == Some(bytes@)
            &&& r matches Err(e) ==> e is Base64
        },
{
    bytes_reply(reply, "pdf: missing data field")
}

// ─── CDP overrides ───────────────────────────────────────────────────────────

/// Override User-Agent at the CDP Network layer.
pub fn set_user_agent(ua: &str) -> (r: Vec<Step>)
    ensures
        plan(r@) == seq![required(user_agent_command(ua@))],
{
    just(user_agent(ua))
}

/// Spoof timezone + geolocation; the coordinates and the accuracy are JSON numbers.
pub fn set_timezone_and_geolocation(
    timezone_id: &str,
    latitude: Value,
    longitude: Value,
    accuracy: Value,
) -> (r: Vec<Step>)
    ensures
        plan(r@) == seq![
            required(timezone_command(timezone_id@)),
            required(
                geolocation_command(json_of(latitude), json_of(longitude), json_of(accuracy)),
            ),
        ],
{
    vec![must(timezone(timezone_id)), must(geolocation(latitude, longitude, accuracy))]
}

/// Grant all common browser permissions so prompts never appear.
pub fn grant_all_permissions() -> (r: Vec<Step>)
    ensures
        plan(r@) == seq![required(grant_permissions_command())],
{
    just(grant_permissions())
}

/// Enable CDP Network + Log domains for request/event capture.
pub fn enable_cdp_log_capture() -> (r: Vec<Step>)
    ensures
        plan(r@) == seq![
            required(network_enable_command()),
            required(ActionView::Command("Log.enable"@)),
        ],
{
    vec![must(network_enable()), must(Action::Command("Log.enable".to_string()))]
}

/// Emulating a mobile device.
pub open spec fn emulating(width: int, height: int, scale: Json) -> Seq<ActionView> {
    seq![device_metrics_command(width, height, scale), touch_emulation_command()]
}

/// Blocking URLs.
pub open spec fn blocking(patterns: Seq<Seq<char>>) -> Seq<ActionView> {
    seq![network_enable_command(), blocked_urls_command(patterns)]
}

/// Authorizing at a proxy: nothing where its address has no credentials.
pub open spec fn authorizing(proxy: Seq<char>) -> Seq<ActionView> {
    match credentials(proxy) {
        Some(creds) => seq![
            network_enable_command(),
            proxy_header_command(basic_authorization(creds)),
        ],
        None => Seq::empty(),
    }
}

/// Actions as steps that have to succeed.
pub open spec fn all_required(actions: Seq<ActionView>) -> Seq<StepView> {
    actions.map_values(|a: ActionView| required(a))
}

/// Actions as steps that may fail.
pub open spec fn all_optional(actions: Seq<ActionView>) -> Seq<StepView> {
    actions.map_values(|a: ActionView| optional(a))
}

/// Enable mobile device emulation at runtime (post-startup); the pixel ratio is a JSON number.
pub fn set_mobile_emulation(width: u32, height: u32, pixel_ratio: Value) -> (r: Vec<Step>)
    ensures
        plan(r@) == all_required(emulating(width as int, height as int, json_of(pixel_ratio))),
{
    vec![must(device_metrics(width, height, pixel_ratio)), must(touch_emulation())]
}

// ─── Network control ─────────────────────────────────────────────────────────

/// Block ad/tracker URLs via CDP `Network.setBlockedURLs`.
pub fn enable_ad_block() -> (r: Vec<Step>)
    ensures
        plan(r@) == all_required(blocking(ad_block_list())),
{
    vec![must(network_enable()), must(blocked_ads())]
}

/// Block a custom list of URL glob patterns via CDP.
pub fn block_urls(patterns: &Vec<String>) -> (r: Vec<Step>)
    ensures
        plan(r@) == all_required(blocking(texts(patterns@))),
{
    vec![must(network_enable()), must(blocked_urls(patterns))]
}

/// A text between double quotes.
pub open spec fn quoted(s: Seq<char>) -> Seq<char> {
    "\""@ + s + "\""@
}

/// JS-layer fetch/XHR override injected via `Page.addScriptToEvaluateOnNewDocument`.
pub fn block_url_patterns(patterns: &Vec<String>) -> (r: Vec<Step>)
    ensures
        plan(r@) == seq![
            required(
                registering(
                    scripts::block_patterns_script(
                        joined(texts(patterns@).map_values(|p: Seq<char>| quoted(p)), ","@),
                    ),
                ),
            ),
        ],
{
    let mut list: Vec<String> = Vec::new();
    let ghost all = texts(patterns@).map_values(|p: Seq<char>| quoted(p));
    let mut i: usize = 0;
    while i < patterns.len()
        invariant
            i <= patterns.len(),
            all == texts(patterns@).map_values(|p: Seq<char>| quoted(p)),
            texts(list@) == all.take(i as int),
        decreases patterns.len() - i,
    {
        let ghost before = list@;
        let mut q: String = "\"".to_string();
        q.append(patterns[i].as_str());
        q.append("\"");
        list.push(q);
        proof {
            assert(texts(list@) =~= texts(before).push(all[i as int]));
            assert(all.take(i + 1) =~= all.take(i as int).push(all[i as int]));
        }
        i = i + 1;
    }
    assert(all.take(i as int) =~= all);
    let words: String = join(&list, ",");
    just(register(scripts::block_patterns(words.as_str()).as_str()))
}

/// Bypass CSP — needed for JS injection on strict sites.
pub fn disable_csp() -> (r: Vec<Step>)
    ensures
        plan(r@) == seq![required(bypass_csp_command())],
{
    just(bypass_csp())
}

/// Inject Proxy-Authorization at the CDP Network layer.
pub fn set_proxy(proxy: &str) -> (r: Vec<Step>)
    ensures
        plan(r@) == all_required(authorizing(proxy@)),
{
    match proxy_credentials(proxy) {
        Some(creds) => vec![
            must(network_enable()),
            must(proxy_header(proxy_authorization(creds.as_str()).as_str())),
        ],
        None => {
            let none: Vec<Step> = Vec::new();
            assert(plan(none@) =~= all_required(authorizing(proxy@)));
            none
        },
    }
}

// ─── Text assertions ─────────────────────────────────────────────────────────

/// The text of an element holds a text.
pub fn assert_text(actual: &str, text: &str, css_selector: &str) -> (r: Result<(), ChromeError>)
    ensures
        r is Ok <==> occurs_in(text@, actual@),
        r matches Err(e) ==> says(
            e,
            "assert_text: '"@ + text@ + "' not in '"@ + css_selector@ + "'. Got: '"@ + actual@
                + "'"@,
        ),
{
    if contains_text(actual, text) {
        Ok(())
    } else {
        let mut words: String = "assert_text: '".to_string();
        words.append(text);
        words.append("' not in '");
        words.append(css_selector);
        words.append("'. Got: '");
        words.append(actual);
        words.append("'");
        Err(ChromeError::from(words))
    }
}

/// The text of an element is a text, up to whitespace at either end.
pub fn assert_exact_text(actual: &str, text: &str, css_selector: &str) -> (r: Result<
    (),
    ChromeError,
>)
    ensures
        r is Ok <==> trimmed(actual@) == trimmed(text@),
        r matches Err(e) ==> says(
            e,
            "assert_exact_text '"@ + css_selector@ + "': expected '"@ + text@ + "', got '"@
                + actual@ + "'"@,
        ),
{
    if text_of(&trim(actual)) == text_of(&trim(text)) {
        Ok(())
    } else {
        let mut words: String = "assert_exact_text '".to_string();
        words.append(css_selector);
        words.append("': expected '");
        words.append(text);
        words.append("', got '");
        words.append(actual);
        words.append("'");
        Err(ChromeError::from(words))
    }
}

/// The text of an element does not hold a text; an element that could not be read has no text.
pub fn assert_text_not_visible(actual: Option<&str>, text: &str, css_selector: &str) -> (r: Result<
    (),
    ChromeError,
>)
    ensures
        r is Ok <==> !occurs_in(
            text@,
            match actual {
                Some(s) => s@,
                None => Seq::empty(),
            },
        ),
        r matches Err(e) ==> says(
            e,
            "assert_text_not_visible: '"@ + text@ + "' IS visible in '"@ + css_selector@ + "'"@,
        ),
{
    let shown: String = match actual {
        Some(s) => s.to_string(),
        None => String::new(),
    };
    if !contains_text(shown.as_str(), text) {
        Ok(())
    } else {
        let mut words: String = "assert_text_not_visible: '".to_string();
        words.append(text);
        words.append("' IS visible in '");
        words.append(css_selector);
        words.append("'");
        Err(ChromeError::from(words))
    }
}

// ─── Title / URL assertions ──────────────────────────────────────────────────

/// The title is the expected one.
pub fn assert_title(actual: &str, title: &str) -> (r: Result<(), ChromeError>)
    ensures
        r is Ok <==> actual@ == title@,
        r matches Err(e) ==> says(
            e,
            "assert_title: expected '"@ + title@ + "', got '"@ + actual@ + "'"@,
        ),
{
    if same_text(actual, title) {
        Ok(())
    } else {
        let mut words: String = "assert_title: expected '".to_string();
        words.append(title);
        words.append("', got '");
        words.append(actual);
        words.append("'");
        Err(ChromeError::from(words))
    }
}

/// The title holds a text.
pub fn assert_title_contains(actual: &str, s: &str) -> (r: Result<(), ChromeError>)
    ensures
        r is Ok <==> occurs_in(s@, actual@),
        r matches Err(e) ==> says(
            e,
            "assert_title_contains: '"@ + s@ + "' not in title '"@ + actual@ + "'"@,
        ),
{
    if contains_text(actual, s) {
        Ok(())
    } else {
        let mut words: String = "assert_title_contains: '".to_string();
        words.append(s);
        words.append("' not in title '");
        words.append(actual);
        words.append("'");
        Err(ChromeError::from(words))
    }
}

/// The address is the expected one.
pub fn assert_url(actual: &str, url: &str) -> (r: Result<(), ChromeError>)
    ensures
        r is Ok <==> actual@ == url@,
        r matches Err(e) ==> says(
            e,
            "assert_url: expected '"@ + url@ + "', got '"@ + actual@ + "'"@,
        ),
{
    if same_text(actual, url) {
        Ok(())
    } else {
        let mut words: String = "assert_url: expected '".to_string();
        words.append(url);
        words.append("', got '");
        words.append(actual);
        words.append("'");
        Err(ChromeError::from(words))
    }
}

/// The address holds a text.
pub fn assert_url_contains(actual: &str, s: &str) -> (r: Result<(), ChromeError>)
    ensures
        r is Ok <==> occurs_in(s@, actual@),
        r matches Err(e) ==> says(
            e,
            "assert_url_contains: '"@ + s@ + "' not in url '"@ + actual@ + "'"@,
        ),
{
    if contains_text(actual, s) {
        Ok(())
    } else {
        let mut words: String = "assert_url_contains: '".to_string();
        words.append(s);
        words.append("' not in url '");
        words.append(actual);
        words.append("'");
        Err(ChromeError::from(words))
    }
}

// ─── Text search ─────────────────────────────────────────────────────────────

/// How a tag goes into the search script: its uppercase name between quotes, or `null`.
pub open spec fn tag_filter(tag: Option<Seq<char>>) -> Seq<char> {
    match tag {
        Some(t) => "'"@ + uppercase(t) + "'"@,
        None => "null"@,
    }
}

/// Search the elements that hold a text, within the elements of a tag or anywhere.
pub fn find_elements_by_text(text: &str, tag: Option<&str>) -> (r: Vec<Step>)
    ensures
        plan(r@) == seq![
            running(
                scripts::find_text_script(
                    text@,
                    tag_filter(
                        match tag {
                            Some(t) => Some(t@),
                            None => None,
                        },
                    ),
                ),
            ),
        ],
{
    let filter: String = match tag {
        Some(t) => {
            let mut q: String = "'".to_string();
            let upper: String = to_uppercase(t);
            q.append(upper.as_str());
            q.append("'");
            q
        },
        None => "null".to_string(),
    };
    just_run(scripts::find_text(text, filter.as_str()))
}

// ─── Laws ────────────────────────────────────────────────────────────────────

/// Law: a drag moves the mouse to every point, in order, with a pause after each: twenty steps
/// for its ten points.
pub proof fn law_drag_moves_to_every_point(points: Seq<(Value, Value)>)
    ensures
        dragging_along(points).len() == 2 * points.len(),
        points.len() == DRAG_STEPS ==> dragging_along(points).len() == 20,
        forall|i: int|
            #![trigger points[i]]
            0 <= i < points.len() ==> dragging_along(points)[2 * i] == required(
                mouse_moved_command(json_of(points[i].0), json_of(points[i].1), "left"@),
            ) && dragging_along(points)[2 * i + 1] == pausing(16),
    decreases points.len(),
{
    if points.len() > 0 {
        let front = points.drop_last();
        law_drag_moves_to_every_point(front);
        assert forall|i: int| #![trigger points[i]] 0 <= i < points.len() implies dragging_along(
            points,
        )[2 * i] == required(
            mouse_moved_command(json_of(points[i].0), json_of(points[i].1), "left"@),
        ) && dragging_along(points)[2 * i + 1] == pausing(16) by {
            if i < front.len() {
                assert(front[i] == points[i]);
            }
        }
    }
}

/// What the steps of a plan do, whatever becomes of a failure.
pub open spec fn actions(steps: Seq<StepView>) -> Seq<ActionView> {
    steps.map_values(|s: StepView| s.action)
}

/// Law: an override sends the same commands in the same order whether it has to succeed, as a
/// method does, or may fail, as at startup.
pub proof fn law_overrides_send_the_same(list: Seq<ActionView>)
    ensures
        actions(all_required(list)) == list,
        actions(all_optional(list)) == list,
{
    assert(actions(all_required(list)) =~= list);
    assert(actions(all_optional(list)) =~= list);
}

/// Law: every move within a session begins and ends with a scrub.
pub proof fn law_travelling_scrubs(script: Seq<char>)
    ensures
        travelling(script)[0] == scrubbing(),
        travelling(script).last() == scrubbing(),
{
}

/// Law: going to an address opens it once, scrubs the page directly after that, and does nothing
/// else there.
pub proof fn law_goto_scrubs_the_page(props: Json, url: Seq<char>)
    ensures
        ({
            let steps = going_to(props, url);
            let at = steps.len() - 2;
            &&& at >= 0
            &&& steps[at] == required(ActionView::Navigate(url))
            &&& steps[at + 1] == scrubbing()
            &&& forall|i: int| 0 <= i < at ==> !((#[trigger] steps[i]).action is Navigate)
        }),
{
    let steps = going_to(props, url);
    let at = steps.len() - 2;
    assert(at == deleting_props(props).len());
    assert forall|i: int| 0 <= i < at implies !((#[trigger] steps[i]).action is Navigate) by {
        assert(steps[i] == deleting_props(props)[i]);
    }
}

/// Law: the double-scrub variant scrubs before anything else, and twice behind the opened page.
pub proof fn law_uc_get_scrubs_around(props: Json, url: Seq<char>)
    ensures
        ({
            let steps = seq![scrubbing()] + checking() + going_to(props, url).push(scrubbing());
            let n = steps.len();
            &&& steps[0] == scrubbing()
            &&& steps[n - 3] == required(ActionView::Navigate(url))
            &&& steps[n - 2] == scrubbing()
            &&& steps[n - 1] == scrubbing()
        }),
{
}

/// Law: going to an address fails only where its CDC props could not be deleted or where it could
/// not be opened; a scrub never makes it fail.
pub proof fn law_goto_fails_before_the_page(
    props: Json,
    url: Seq<char>,
    outcomes: Seq<Option<Json>>,
)
    ensures
        ran(started(going_to(props, url)), outcomes).failed ==> ran(
            started(going_to(props, url)),
            outcomes,
        ).next < going_to(props, url).len(),
{
    let steps = going_to(props, url);
    law_run_fails(steps, outcomes);
    if ran(started(steps), outcomes).failed {
        let at = choose|at: int| fails_at(steps, outcomes, at);
        assert(fails_at(steps, outcomes, at));
        if at == steps.len() - 1 {
            assert(steps[at] == scrubbing());
        }
    }
}

/// Law: the cookies that were read are all set again, in order, and a cookie that is refused
/// keeps none of the others from being set.
pub proof fn law_cookies_are_restored(
    reply: Json,
    items: Seq<Json>,
    outcomes: Seq<Option<Json>>,
)
    requires
        member(reply, "cookies"@) == Json::Array(items),
        outcomes.len() >= items.len(),
    ensures
        actions(setting_cookies(member(reply, "cookies"@))) == items.map_values(
            |c: Json| set_cookie_command(c),
        ),
        ran(started(setting_cookies(member(reply, "cookies"@))), outcomes).next == items.len(),
        !ran(started(setting_cookies(member(reply, "cookies"@))), outcomes).failed,
{
    let steps = setting_cookies(member(reply, "cookies"@));
    assert(actions(steps) =~= items.map_values(|c: Json| set_cookie_command(c)));
    assert forall|i: int| 0 <= i < steps.len() implies #[trigger] passes(
        steps[i],
        outcomes[i],
    ) by {
        assert(steps[i] == optional(set_cookie_command(items[i])));
    }
    law_run_completes(steps, outcomes);
}

/// Law: a reply is read as a text exactly where it is a JSON string, and every string is read as
/// it is, the empty one too.
pub proof fn law_strings_are_texts(s: Seq<char>, reply: Json)
    ensures
        as_text(Json::Text(s)) == Some(s),
        as_text(reply) is Some <==> reply is Text,
{
}

/// Law: of an array every string is kept, in order, however often it comes, and nothing else.
pub proof fn law_strings_are_filtered(items: Seq<Json>)
    ensures
        strings_among(items).len() == items.filter(|v: Json| v is Text).len(),
        forall|i: int|
            0 <= i < strings_among(items).len() ==> Json::Text(#[trigger] strings_among(items)[i])
                == items.filter(|v: Json| v is Text)[i],
    decreases items.len(),
{
    reveal(Seq::filter);
    if items.len() > 0 {
        law_strings_are_filtered(items.drop_last());
        let front = strings_among(items.drop_last());
        let kept = items.drop_last().filter(|v: Json| v is Text);
        assert forall|i: int| 0 <= i < strings_among(items).len() implies Json::Text(
            #[trigger] strings_among(items)[i],
        ) == items.filter(|v: Json| v is Text)[i] by {
            if i < front.len() {
                assert(Json::Text(front[i]) == kept[i]);
            }
        }
    }
}

/// Law: where every item of an array is a string, there are as many texts as items, and each is
/// the item in its place.
pub proof fn law_all_strings_are_kept(items: Seq<Json>)
    requires
        forall|i: int| 0 <= i < items.len() ==> (#[trigger] items[i]) is Text,
    ensures
        strings_among(items).len() == items.len(),
        forall|i: int|
            0 <= i < items.len() ==> Json::Text(#[trigger] strings_among(items)[i]) == items[i],
    decreases items.len(),
{
    if items.len() > 0 {
        let front = items.drop_last();
        assert forall|i: int| 0 <= i < front.len() implies (#[trigger] front[i]) is Text by {
            assert(front[i] == items[i]);
        }
        law_all_strings_are_kept(front);
        assert(items[items.len() - 1] is Text);
        assert forall|i: int| 0 <= i < items.len() implies Json::Text(
            #[trigger] strings_among(items)[i],
        ) == items[i] by {
            if i < front.len() {
                assert(Json::Text(strings_among(front)[i]) == front[i]);
            }
        }
    }
}

/// Law: running a script and waiting are steps that have to succeed, and hold the script and the
/// time as they are.
pub proof fn law_scripts_and_pauses(script: Seq<char>, millis: nat)
    ensures
        running(script).action == ActionView::Execute(script),
        running(script).on_error == OnError::Fail,
        pausing(millis).action == ActionView::Sleep(millis),
        pausing(millis).on_error == OnError::Fail,
        scrubbing().action == ActionView::Execute(CDC_SCRUB_SCRIPT@),
        scrubbing().on_error == OnError::Skip,
{
}

/// Law: an address is opened as it is, whatever props were listed. Where any were, they are
/// deleted and a moment passes; where none were, nothing comes before.
pub proof fn law_goto_step_by_step(items: Seq<Json>, props: Json, url: Seq<char>)
    requires
        !(props is Array),
    ensures
        ({
            let steps = going_to(Json::Array(items), url);
            items.len() > 0 ==> {
                &&& steps.len() == 4
                &&& steps[0].action == ActionView::Execute(
                    written(Json::Array(items)) + ".forEach(p=>delete window[p]);"@,
                )
                &&& steps[0].on_error == OnError::Fail
                &&& steps[1].action == ActionView::Sleep(50)
                &&& steps[2].action == ActionView::Navigate(url)
                &&& steps[2].on_error == OnError::Fail
                &&& steps[3].action == ActionView::Execute(CDC_SCRUB_SCRIPT@)
                &&& steps[3].on_error == OnError::Skip
            }
        }),
        forall|none: Json|
            #![trigger going_to(none, url)]
            none == props || none == Json::Array(Seq::empty()) ==> {
                let steps = going_to(none, url);
                &&& steps.len() == 2
                &&& steps[0].action == ActionView::Navigate(url)
                &&& steps[0].on_error == OnError::Fail
                &&& steps[1].action == ActionView::Execute(CDC_SCRUB_SCRIPT@)
                &&& steps[1].on_error == OnError::Skip
            },
{
}

/// Law: moving within the session runs the script between two scrubs, and waits before the second.
pub proof fn law_travelling_step_by_step(script: Seq<char>)
    ensures
        travelling(script).len() == 4,
        travelling(script)[0].action == ActionView::Execute(CDC_SCRUB_SCRIPT@),
        travelling(script)[0].on_error == OnError::Skip,
        travelling(script)[1].action == ActionView::Execute(script),
        travelling(script)[1].on_error == OnError::Fail,
        travelling(script)[2].action == ActionView::Sleep(300),
        travelling(script)[3].action == ActionView::Execute(CDC_SCRUB_SCRIPT@),
        travelling(script)[3].on_error == OnError::Skip,
{
}

/// Law: a new tab is opened at the address, the window that the session is on is closed wherever
/// there is one, and the last of those that are left is entered and scrubbed.
pub proof fn law_tab_step_by_step(url: Seq<char>, windows: nat)
    ensures
        opening_tab(url).len() == 2,
        opening_tab(url)[0].action == ActionView::Execute(
            "window.open(\""@ + url + "\",\"_blank\");"@,
        ),
        opening_tab(url)[0].on_error == OnError::Fail,
        opening_tab(url)[1].action == ActionView::Sleep(1000),
        windows == 0 ==> closing_current(windows).len() == 0,
        windows > 0 ==> closing_current(windows).len() == 1 && closing_current(windows)[0].action
            == ActionView::CloseWindow && closing_current(windows)[0].on_error == OnError::Fail,
        windows > 0 ==> entering_last(windows).len() == 2 && entering_last(windows)[0].action
            == ActionView::SwitchWindow((windows - 1) as nat) && entering_last(windows)[0].on_error
            == OnError::Fail,
        entering_last(windows).last() == scrubbing(),
        windows == 0 ==> entering_last(windows).len() == 1,
{
}

/// Law: an element is clicked by its selector as it is; where only a visible one is clicked, or a
/// box in the other state, nothing else depends on that.
pub proof fn law_clicks_step_by_step(selector: Seq<char>, state: bool)
    ensures
        clicking(selector).len() == 2,
        clicking(selector)[0].action == ActionView::Execute(
            "setTimeout(()=>document.querySelector('"@ + selector + "').click(),111);"@,
        ),
        clicking(selector)[0].on_error == OnError::Fail,
        clicking(selector)[1].action == ActionView::Sleep(150),
        actions(clicking_visible(true, selector)) == actions(clicking(selector)),
        clicking_visible(true, selector)[0].on_error == OnError::Stop,
        clicking_visible(false, selector).len() == 0,
        toggling(state, state, selector).len() == 0,
        toggling(state, !state, selector) == clicking(selector),
{
    assert(actions(clicking_visible(true, selector)) =~= actions(clicking(selector)));
}

/// Law: a coordinate is there exactly where the array has a number in its place, and is that number
/// read as floating point.
pub proof fn law_coordinates(items: Seq<Json>, at: int, reply: Json)
    ensures
        0 <= at < items.len() ==> (coordinate(Json::Array(items), at) is Some <==> items[at]
            is Number),
        0 <= at < items.len() && items[at] is Number ==> coordinate(Json::Array(items), at) == Some(
            Json::Number(floating(items[at]->Number_0)),
        ),
        !(0 <= at < items.len()) ==> coordinate(Json::Array(items), at) is None,
        !(reply is Array) ==> coordinate(reply, at) is None,
{
}

/// Law: hovering moves the mouse, without a button, to the two numbers of the reply, the first
/// across and the second down; the first that is missing is reported.
pub proof fn law_hovering(items: Seq<Json>)
    ensures
        items.len() >= 2 && items[0] is Number && items[1] is Number ==> {
            let steps = hovering(Json::Array(items))->Ok_0;
            &&& hovering(Json::Array(items)) is Ok
            &&& steps.len() == 2
            &&& steps[0].on_error == OnError::Fail
            &&& steps[0].action == mouse_moved_command(
                Json::Number(floating(items[0]->Number_0)),
                Json::Number(floating(items[1]->Number_0)),
                "none"@,
            )
            &&& steps[1].action == ActionView::Sleep(100)
        },
        items.len() < 1 || !(items[0] is Number) ==> hovering(Json::Array(items)) == Err::<
            Seq<StepView>,
            Seq<char>,
        >("hover: missing x coordinate"@),
        items.len() >= 1 && items[0] is Number && (items.len() < 2 || !(items[1] is Number))
            ==> hovering(Json::Array(items)) == Err::<Seq<StepView>, Seq<char>>(
            "hover: missing y coordinate"@,
        ),
{
}

/// Law: what is done to a window is done to the one that the reply names under `windowId`.
pub proof fn law_window_plans(
    reply: Json,
    window: Json,
    x: int,
    y: int,
    w: int,
    h: int,
    state: Seq<char>,
)
    ensures
        ({
            let target = Json::Object(seq![("windowId"@, window)]);
            &&& asking_bounds(target) == seq![required(window_bounds_command(window))]
            &&& setting_bounds(target, x, y, w, h) == seq![
                required(set_window_bounds_command(window, normal_bounds(x, y, w, h))),
            ]
            &&& setting_state(target, state) == seq![
                required(set_window_bounds_command(window, state_bounds(state))),
            ]
        }),
        asking_bounds(reply).len() == 1,
        asking_bounds(reply)[0].on_error == OnError::Fail,
        asking_bounds(reply)[0].action == window_bounds_command(member(reply, "windowId"@)),
        setting_bounds(reply, x, y, w, h).len() == 1,
        setting_bounds(reply, x, y, w, h)[0].on_error == OnError::Fail,
        setting_bounds(reply, x, y, w, h)[0].action == set_window_bounds_command(
            member(reply, "windowId"@),
            normal_bounds(x, y, w, h),
        ),
        setting_state(reply, state).len() == 1,
        setting_state(reply, state)[0].on_error == OnError::Fail,
        setting_state(reply, state)[0].action == set_window_bounds_command(
            member(reply, "windowId"@),
            state_bounds(state),
        ),
        finding_window() == seq![
            required(
                ActionView::CommandWith("Browser.getWindowForTarget"@, Json::Object(Seq::empty())),
            ),
        ],
{
    let entries = seq![("windowId"@, window)];
    lemma_position_is(entries, "windowId"@, 0);
}

/// Law: every cookie of an array is set, each by a step that may fail, and of anything else none.
pub proof fn law_cookies_step_by_step(items: Seq<Json>, other: Json)
    requires
        !(other is Array),
    ensures
        setting_cookies(Json::Array(items)).len() == items.len(),
        forall|i: int|
            0 <= i < items.len() ==> (#[trigger] setting_cookies(Json::Array(items))[i]).action
                == ActionView::CommandWith("Network.setCookie"@, items[i]) && setting_cookies(
                Json::Array(items),
            )[i].on_error == OnError::Skip,
        setting_cookies(other).len() == 0,
{
}

/// Law: a mobile device is emulated by its metrics and by touch; patterns are blocked, and a proxy
/// is authorized at, after the network is watched; a proxy without credentials needs nothing.
pub proof fn law_override_commands(
    width: int,
    height: int,
    scale: Json,
    patterns: Seq<Seq<char>>,
    creds: Seq<char>,
    rest: Seq<char>,
    plain: Seq<char>,
)
    requires
        !creds.contains('@'),
        !plain.contains('@'),
    ensures
        emulating(width, height, scale).len() == 2,
        emulating(width, height, scale)[0] == device_metrics_command(width, height, scale),
        emulating(width, height, scale)[1] == touch_emulation_command(),
        blocking(patterns).len() == 2,
        blocking(patterns)[0] == ActionView::Command("Network.enable"@),
        blocking(patterns)[1] == blocked_urls_command(patterns),
        authorizing(creds + seq!['@'] + rest).len() == 2,
        authorizing(creds + seq!['@'] + rest)[0] == ActionView::Command("Network.enable"@),
        authorizing(creds + seq!['@'] + rest)[1] == proxy_header_command(
            "Basic "@ + base64_text(encode_utf8(creds)),
        ),
        authorizing(plain).len() == 0,
{
    law_credentials_before_the_at(creds, rest, plain);
}

/// Law: a plan of actions that have to succeed, and one of actions that may fail, differ in that
/// alone.
pub proof fn law_all_required_or_optional(list: Seq<ActionView>)
    ensures
        all_required(list).len() == list.len(),
        all_optional(list).len() == list.len(),
        forall|i: int|
            0 <= i < list.len() ==> (#[trigger] all_required(list)[i]).action == list[i]
                && all_required(list)[i].on_error == OnError::Fail,
        forall|i: int|
            0 <= i < list.len() ==> (#[trigger] all_optional(list)[i]).action == list[i]
                && all_optional(list)[i].on_error == OnError::Skip,
{
}

/// Law: a pattern is put between double quotes, a tag in capitals between single ones, and no tag
/// is `null`.
pub proof fn law_quotes(s: Seq<char>)
    ensures
        quoted(s) == seq!['"'] + s + seq!['"'],
        tag_filter(Some(s)) == seq!['\''] + uppercase(s) + seq!['\''],
        tag_filter(None) == seq!['n', 'u', 'l', 'l'],
{
    reveal_strlit("\"");
    reveal_strlit("'");
    reveal_strlit("null");
    assert("\""@ =~= seq!['"']);
    assert("'"@ =~= seq!['\'']);
    assert("null"@ =~= seq!['n', 'u', 'l', 'l']);
}

/// Law: before a page is left its props are listed by one script, which has to succeed, and the box
/// of a challenge is looked for in the first frame, waited for, and clicked after two seconds.
pub proof fn law_checks_and_challenges()
    ensures
        checking().len() == 1,
        checking()[0].action == ActionView::Execute(scripts::CDC_CHECK@),
        checking()[0].on_error == OnError::Fail,
        passing_challenge().len() == 5,
        passing_challenge()[0].action == ActionView::EnterFrame(0),
        passing_challenge()[1].action == ActionView::FindXPath(
            "/html/body//div/div[1]/div[1]/div/label/input"@,
        ),
        passing_challenge()[2].action == ActionView::WaitClickable,
        passing_challenge()[3].action == ActionView::Sleep(2000),
        passing_challenge()[4].action == ActionView::Click,
        forall|i: int|
            0 <= i < 5 ==> (#[trigger] passing_challenge()[i]).on_error == OnError::Fail,
{
}

} // verus!
