//! The DevTools commands that the library sends, with their parameters.

use vstd::prelude::*;
use vstd::string::*;

use serde_json::Value;

use crate::config::{ad_block_patterns, browser_permissions};
use crate::config::{ad_block_list, permission_list};
use crate::json::{boolean, field, integer, object_of, text_array, words};
use crate::json::lemma_position_is;
use crate::json::{distinct_keys, fields, json_of, lookup, text_items, Json};
use crate::plan::Action;
use crate::plan::ActionView;
use crate::text::{decimal, texts};

verus! {

/// A DevTools command whose parameters are an object.
pub open spec fn command(name: Seq<char>, params: Seq<(Seq<char>, Json)>) -> ActionView {
    ActionView::CommandWith(name, Json::Object(params))
}

/// A DevTools command whose parameters are an object.
fn send(name: &str, params: Vec<(String, Value)>) -> (r: Action)
    requires
        distinct_keys(fields(params@)),
    ensures
        r@ == command(name@, fields(params@)),
{
    Action::CommandWith(name.to_string(), object_of(params))
}

/// An integer as JSON.
pub open spec fn whole(n: int) -> Json {
    Json::Number(decimal(n))
}

// ─── Browser ─────────────────────────────────────────────────────────────────

/// Granting the permissions of the list.
pub open spec fn grant_permissions_command() -> ActionView {
    command(
        "Browser.grantPermissions"@,
        seq![("permissions"@, Json::Array(text_items(permission_list())))],
    )
}

/// Grant all common browser permissions.
pub fn grant_permissions() -> (r: Action)
    ensures
        r@ == grant_permissions_command(),
{
    let list = vec![field("permissions", text_array(&browser_permissions()))];
    assert(fields(list@) =~= seq![("permissions"@, Json::Array(text_items(permission_list())))]);
    send("Browser.grantPermissions", list)
}

/// Asking for the window of the page.
pub open spec fn window_for_target_command() -> ActionView {
    command("Browser.getWindowForTarget"@, Seq::empty())
}

/// Ask for the window of the page.
pub fn window_for_target() -> (r: Action)
    ensures
        r@ == window_for_target_command(),
{
    let list: Vec<(String, Value)> = Vec::new();
    assert(fields(list@) =~= Seq::<(Seq<char>, Json)>::empty());
    send("Browser.getWindowForTarget", list)
}

/// Asking for the bounds of a window.
pub open spec fn window_bounds_command(window: Json) -> ActionView {
    command("Browser.getWindowBounds"@, seq![("windowId"@, window)])
}

/// Ask for the bounds of a window.
pub fn window_bounds(window: Value) -> (r: Action)
    ensures
        r@ == window_bounds_command(json_of(window)),
{
    let list = vec![field("windowId", window)];
    assert(fields(list@) =~= seq![("windowId"@, json_of(window))]);
    send("Browser.getWindowBounds", list)
}

/// The bounds of a window in its normal state.
pub open spec fn normal_bounds(x: int, y: int, w: int, h: int) -> Json {
    Json::Object(
        seq![
            ("left"@, whole(x)),
            ("top"@, whole(y)),
            ("width"@, whole(w)),
            ("height"@, whole(h)),
            ("windowState"@, Json::Text("normal"@)),
        ],
    )
}

/// The bounds of a window in its normal state.
pub(crate) fn rectangle(x: i64, y: i64, w: i64, h: i64) -> (r: Value)
    ensures
        json_of(r) == normal_bounds(x as int, y as int, w as int, h as int),
{
    let list = vec![
        field("left", integer(x)),
        field("top", integer(y)),
        field("width", integer(w)),
        field("height", integer(h)),
        field("windowState", words("normal")),
    ];
    proof {
        lemma_bounds_keys();
        assert(fields(list@) =~= normal_bounds(x as int, y as int, w as int, h as int)->Object_0);
    }
    object_of(list)
}

proof fn lemma_bounds_keys()
    ensures
        "left"@ != "top"@ && "left"@ != "width"@ && "left"@ != "height"@ && "left"@
            != "windowState"@,
        "top"@ != "width"@ && "top"@ != "height"@ && "top"@ != "windowState"@,
        "width"@ != "height"@ && "width"@ != "windowState"@,
        "height"@ != "windowState"@,
{
    reveal_strlit("left");
    reveal_strlit("top");
    reveal_strlit("width");
    reveal_strlit("height");
    reveal_strlit("windowState");
    assert("left"@.len() == 4);
    assert("top"@.len() == 3);
    assert("width"@.len() == 5);
    assert("height"@.len() == 6);
    assert("windowState"@.len() == 11);
}

/// The bounds that only name a window's state.
pub open spec fn state_bounds(state: Seq<char>) -> Json {
    Json::Object(seq![("windowState"@, Json::Text(state))])
}

/// The bounds that only name a window's state.
pub(crate) fn state_only(state: &str) -> (r: Value)
    ensures
        json_of(r) == state_bounds(state@),
{
    let list = vec![field("windowState", words(state))];
    assert(fields(list@) =~= seq![("windowState"@, Json::Text(state@))]);
    object_of(list)
}

/// Setting the bounds of a window.
pub open spec fn set_window_bounds_command(window: Json, bounds: Json) -> ActionView {
    command("Browser.setWindowBounds"@, seq![("windowId"@, window), ("bounds"@, bounds)])
}

/// Set the bounds of a window.
pub fn set_window_bounds(window: Value, bounds: Value) -> (r: Action)
    ensures
        r@ == set_window_bounds_command(json_of(window), json_of(bounds)),
{
    let list = vec![field("windowId", window), field("bounds", bounds)];
    proof {
        reveal_strlit("windowId");
        reveal_strlit("bounds");
        assert("windowId"@.len() == 8);
        assert("bounds"@.len() == 6);
        assert(fields(list@) =~= seq![
            ("windowId"@, json_of(window)),
            ("bounds"@, json_of(bounds)),
        ]);
    }
    send("Browser.setWindowBounds", list)
}

// ─── Emulation ───────────────────────────────────────────────────────────────

/// Emulating the metrics of a mobile device.
pub open spec fn device_metrics_command(width: int, height: int, scale: Json) -> ActionView {
    command(
        "Emulation.setDeviceMetricsOverride"@,
        seq![
            ("width"@, whole(width)),
            ("height"@, whole(height)),
            ("deviceScaleFactor"@, scale),
            ("mobile"@, Json::Bool(true)),
        ],
    )
}

/// Emulate the metrics of a mobile device.
pub fn device_metrics(width: u32, height: u32, scale: Value) -> (r: Action)
    ensures
        r@ == device_metrics_command(width as int, height as int, json_of(scale)),
{
    let list = vec![
        field("width", integer(width as i64)),
        field("height", integer(height as i64)),
        field("deviceScaleFactor", scale),
        field("mobile", boolean(true)),
    ];
    proof {
        reveal_strlit("width");
        reveal_strlit("height");
        reveal_strlit("deviceScaleFactor");
        reveal_strlit("mobile");
        assert("width"@.len() == 5);
        assert("height"@.len() == 6);
        assert("deviceScaleFactor"@.len() == 17);
        assert("mobile"@.len() == 6);
        assert("height"@[0] != "mobile"@[0]);
        assert(fields(list@) =~= seq![
            ("width"@, whole(width as int)),
            ("height"@, whole(height as int)),
            ("deviceScaleFactor"@, json_of(scale)),
            ("mobile"@, Json::Bool(true)),
        ]);
    }
    send("Emulation.setDeviceMetricsOverride", list)
}

/// Emulating a touch screen with five touch points.
pub open spec fn touch_emulation_command() -> ActionView {
    command(
        "Emulation.setTouchEmulationEnabled"@,
        seq![("enabled"@, Json::Bool(true)), ("maxTouchPoints"@, whole(5))],
    )
}

/// Emulate a touch screen with five touch points.
pub fn touch_emulation() -> (r: Action)
    ensures
        r@ == touch_emulation_command(),
{
    let list = vec![field("enabled", boolean(true)), field("maxTouchPoints", integer(5))];
    proof {
        reveal_strlit("enabled");
        reveal_strlit("maxTouchPoints");
        assert("enabled"@.len() == 7);
        assert("maxTouchPoints"@.len() == 14);
        assert(fields(list@) =~= seq![
            ("enabled"@, Json::Bool(true)),
            ("maxTouchPoints"@, whole(5)),
        ]);
    }
    send("Emulation.setTouchEmulationEnabled", list)
}

/// Overriding the timezone.
pub open spec fn timezone_command(timezone_id: Seq<char>) -> ActionView {
    command("Emulation.setTimezoneOverride"@, seq![("timezoneId"@, Json::Text(timezone_id))])
}

/// Override the timezone.
pub fn timezone(timezone_id: &str) -> (r: Action)
    ensures
        r@ == timezone_command(timezone_id@),
{
    let list = vec![field("timezoneId", words(timezone_id))];
    assert(fields(list@) =~= seq![("timezoneId"@, Json::Text(timezone_id@))]);
    send("Emulation.setTimezoneOverride", list)
}

/// Overriding the geolocation.
pub open spec fn geolocation_command(latitude: Json, longitude: Json, accuracy: Json) -> ActionView {
    command(
        "Emulation.setGeolocationOverride"@,
        seq![("latitude"@, latitude), ("longitude"@, longitude), ("accuracy"@, accuracy)],
    )
}

/// Override the geolocation.
pub fn geolocation(latitude: Value, longitude: Value, accuracy: Value) -> (r: Action)
    ensures
        r@ == geolocation_command(json_of(latitude), json_of(longitude), json_of(accuracy)),
{
    let list = vec![
        field("latitude", latitude),
        field("longitude", longitude),
        field("accuracy", accuracy),
    ];
    proof {
        reveal_strlit("latitude");
        reveal_strlit("longitude");
        reveal_strlit("accuracy");
        assert("latitude"@.len() == 8);
        assert("longitude"@.len() == 9);
        assert("accuracy"@.len() == 8);
        assert("latitude"@[0] != "accuracy"@[0]);
        assert(fields(list@) =~= seq![
            ("latitude"@, json_of(latitude)),
            ("longitude"@, json_of(longitude)),
            ("accuracy"@, json_of(accuracy)),
        ]);
    }
    send("Emulation.setGeolocationOverride", list)
}

// ─── Network ─────────────────────────────────────────────────────────────────

/// Enabling the network domain.
pub open spec fn network_enable_command() -> ActionView {
    ActionView::Command("Network.enable"@)
}

/// Enable the network domain.
pub fn network_enable() -> (r: Action)
    ensures
        r@ == network_enable_command(),
{
    Action::Command("Network.enable".to_string())
}

/// Overriding the user agent.
pub open spec fn user_agent_command(ua: Seq<char>) -> ActionView {
    command("Network.setUserAgentOverride"@, seq![("userAgent"@, Json::Text(ua))])
}

/// Override the user agent.
pub fn user_agent(ua: &str) -> (r: Action)
    ensures
        r@ == user_agent_command(ua@),
{
    let list = vec![field("userAgent", words(ua))];
    assert(fields(list@) =~= seq![("userAgent"@, Json::Text(ua@))]);
    send("Network.setUserAgentOverride", list)
}

/// Blocking URLs that match one of the patterns.
pub open spec fn blocked_urls_command(patterns: Seq<Seq<char>>) -> ActionView {
    command("Network.setBlockedURLs"@, seq![("urls"@, Json::Array(text_items(patterns)))])
}

/// Block URLs that match one of the patterns.
pub fn blocked_urls(patterns: &Vec<String>) -> (r: Action)
    ensures
        r@ == blocked_urls_command(texts(patterns@)),
{
    let list = vec![field("urls", text_array(patterns))];
    assert(fields(list@) =~= seq![("urls"@, Json::Array(text_items(texts(patterns@))))]);
    send("Network.setBlockedURLs", list)
}

/// Block the ad and tracker URLs.
pub fn blocked_ads() -> (r: Action)
    ensures
        r@ == blocked_urls_command(ad_block_list()),
{
    blocked_urls(&ad_block_patterns())
}

/// Sending a `Proxy-Authorization` header with every request.
pub open spec fn proxy_header_command(authorization: Seq<char>) -> ActionView {
    command(
        "Network.setExtraHTTPHeaders"@,
        seq![
            (
                "headers"@,
                Json::Object(seq![("Proxy-Authorization"@, Json::Text(authorization))]),
            ),
        ],
    )
}

/// Send a `Proxy-Authorization` header with every request.
pub fn proxy_header(authorization: &str) -> (r: Action)
    ensures
        r@ == proxy_header_command(authorization@),
{
    let headers = vec![field("Proxy-Authorization", words(authorization))];
    assert(fields(headers@) =~= seq![("Proxy-Authorization"@, Json::Text(authorization@))]);
    let list = vec![field("headers", object_of(headers))];
    assert(fields(list@) =~= seq![
        (
            "headers"@,
            Json::Object(seq![("Proxy-Authorization"@, Json::Text(authorization@))]),
        ),
    ]);
    send("Network.setExtraHTTPHeaders", list)
}

/// Asking for all cookies.
pub open spec fn all_cookies_command() -> ActionView {
    command("Network.getAllCookies"@, Seq::empty())
}

/// Ask for all cookies.
pub fn all_cookies() -> (r: Action)
    ensures
        r@ == all_cookies_command(),
{
    let list: Vec<(String, Value)> = Vec::new();
    assert(fields(list@) =~= Seq::<(Seq<char>, Json)>::empty());
    send("Network.getAllCookies", list)
}

/// Setting a cookie.
pub open spec fn set_cookie_command(cookie: Json) -> ActionView {
    ActionView::CommandWith("Network.setCookie"@, cookie)
}

/// Set a cookie.
pub fn set_cookie(cookie: Value) -> (r: Action)
    ensures
        r@ == set_cookie_command(json_of(cookie)),
{
    Action::CommandWith("Network.setCookie".to_string(), cookie)
}

/// Deleting all cookies.
pub open spec fn clear_cookies_command() -> ActionView {
    command("Network.clearBrowserCookies"@, Seq::empty())
}

/// Delete all cookies.
pub fn clear_browser_cookies() -> (r: Action)
    ensures
        r@ == clear_cookies_command(),
{
    let list: Vec<(String, Value)> = Vec::new();
    assert(fields(list@) =~= Seq::<(Seq<char>, Json)>::empty());
    send("Network.clearBrowserCookies", list)
}

// ─── Page ────────────────────────────────────────────────────────────────────

/// Bypassing the Content Security Policy.
pub open spec fn bypass_csp_command() -> ActionView {
    command("Page.setBypassCSP"@, seq![("enabled"@, Json::Bool(true))])
}

/// Bypass the Content Security Policy.
pub fn bypass_csp() -> (r: Action)
    ensures
        r@ == bypass_csp_command(),
{
    let list = vec![field("enabled", boolean(true))];
    assert(fields(list@) =~= seq![("enabled"@, Json::Bool(true))]);
    send("Page.setBypassCSP", list)
}

/// Taking a screenshot of the viewport.
pub open spec fn screenshot_command() -> ActionView {
    command(
        "Page.captureScreenshot"@,
        seq![("format"@, Json::Text("png"@)), ("captureBeyondViewport"@, Json::Bool(false))],
    )
}

/// Take a screenshot of the viewport.
pub fn screenshot() -> (r: Action)
    ensures
        r@ == screenshot_command(),
{
    let list = vec![
        field("format", words("png")),
        field("captureBeyondViewport", boolean(false)),
    ];
    proof {
        reveal_strlit("format");
        reveal_strlit("captureBeyondViewport");
        assert("format"@.len() == 6);
        assert("captureBeyondViewport"@.len() == 21);
        assert(fields(list@) =~= seq![
            ("format"@, Json::Text("png"@)),
            ("captureBeyondViewport"@, Json::Bool(false)),
        ]);
    }
    send("Page.captureScreenshot", list)
}

/// Printing the page.
pub open spec fn print_command() -> ActionView {
    command("Page.printToPDF"@, seq![("printBackground"@, Json::Bool(true))])
}

/// Print the page.
pub fn print_page() -> (r: Action)
    ensures
        r@ == print_command(),
{
    let list = vec![field("printBackground", boolean(true))];
    assert(fields(list@) =~= seq![("printBackground"@, Json::Bool(true))]);
    send("Page.printToPDF", list)
}

/// Accepting or dismissing a dialog.
pub open spec fn dialog_command(accept: bool) -> ActionView {
    command("Page.handleJavaScriptDialog"@, seq![("accept"@, Json::Bool(accept))])
}

/// Accept or dismiss a dialog.
pub fn dialog(accept: bool) -> (r: Action)
    ensures
        r@ == dialog_command(accept),
{
    let list = vec![field("accept", boolean(accept))];
    assert(fields(list@) =~= seq![("accept"@, Json::Bool(accept))]);
    send("Page.handleJavaScriptDialog", list)
}

// ─── Mouse ───────────────────────────────────────────────────────────────────

/// The parameters of a mouse movement.
pub open spec fn moved_params(x: Json, y: Json, button: Seq<char>) -> Seq<(Seq<char>, Json)> {
    seq![
        ("type"@, Json::Text("mouseMoved"@)),
        ("x"@, x),
        ("y"@, y),
        ("button"@, Json::Text(button)),
    ]
}

/// Moving the mouse to a point, with or without a button held.
pub open spec fn mouse_moved_command(x: Json, y: Json, button: Seq<char>) -> ActionView {
    command("Input.dispatchMouseEvent"@, moved_params(x, y, button))
}

/// Move the mouse to a point, with or without a button held.
pub fn mouse_moved(x: Value, y: Value, button: &str) -> (r: Action)
    ensures
        r@ == mouse_moved_command(json_of(x), json_of(y), button@),
{
    let list = vec![
        field("type", words("mouseMoved")),
        field("x", x),
        field("y", y),
        field("button", words(button)),
    ];
    proof {
        lemma_mouse_keys();
        assert(fields(list@) =~= moved_params(json_of(x), json_of(y), button@));
    }
    send("Input.dispatchMouseEvent", list)
}

/// The parameters of a press or a release of the left button.
pub open spec fn button_params(kind: Seq<char>, x: Json, y: Json) -> Seq<(Seq<char>, Json)> {
    seq![
        ("type"@, Json::Text(kind)),
        ("x"@, x),
        ("y"@, y),
        ("button"@, Json::Text("left"@)),
        ("clickCount"@, whole(1)),
    ]
}

/// Pressing or releasing the left button at a point.
pub open spec fn mouse_button_command(kind: Seq<char>, x: Json, y: Json) -> ActionView {
    command("Input.dispatchMouseEvent"@, button_params(kind, x, y))
}

/// Press or release the left button at a point.
pub fn mouse_button(kind: &str, x: Value, y: Value) -> (r: Action)
    ensures
        r@ == mouse_button_command(kind@, json_of(x), json_of(y)),
{
    let list = vec![
        field("type", words(kind)),
        field("x", x),
        field("y", y),
        field("button", words("left")),
        field("clickCount", integer(1)),
    ];
    proof {
        lemma_mouse_keys();
        assert(fields(list@) =~= button_params(kind@, json_of(x), json_of(y)));
    }
    send("Input.dispatchMouseEvent", list)
}

proof fn lemma_mouse_keys()
    ensures
        "type"@ != "x"@ && "type"@ != "y"@ && "type"@ != "button"@ && "type"@ != "clickCount"@,
        "x"@ != "y"@ && "x"@ != "button"@ && "x"@ != "clickCount"@,
        "y"@ != "button"@ && "y"@ != "clickCount"@,
        "button"@ != "clickCount"@,
{
    reveal_strlit("type");
    reveal_strlit("x");
    reveal_strlit("y");
    reveal_strlit("button");
    reveal_strlit("clickCount");
    assert("type"@.len() == 4);
    assert("x"@.len() == 1);
    assert("y"@.len() == 1);
    assert("button"@.len() == 6);
    assert("clickCount"@.len() == 10);
    assert("x"@[0] != "y"@[0]);
}

// ─── Laws of commands ────────────────────────────────────────────────────────

/// Each entry with a key of its own is found under it.
proof fn lemma_found_under_keys(entries: Seq<(Seq<char>, Json)>)
    requires
        distinct_keys(entries),
    ensures
        forall|i: int|
            0 <= i < entries.len() ==> lookup(entries, (#[trigger] entries[i]).0) == Some(
                entries[i].1,
            ),
{
    assert forall|i: int| 0 <= i < entries.len() implies lookup(entries, (#[trigger] entries[i]).0)
        == Some(entries[i].1) by {
        lemma_position_is(entries, entries[i].0, i);
    }
}

/// Law: `Browser.getWindowBounds` carries what it is given, under its keys.
pub proof fn law_window_bounds_command(window: Json)
    ensures
        window_bounds_command(window) matches ActionView::CommandWith(name, Json::Object(params)) && name
            == "Browser.getWindowBounds"@ && params.len() == 1 && lookup(params, "windowId"@) == Some(
            window,
        ),
{
    let params = window_bounds_command(window)->CommandWith_1->Object_0;
    reveal_strlit("windowId");
    assert(distinct_keys(params));
    lemma_found_under_keys(params);
    assert(params[0].0 == "windowId"@);
}

/// Law: `Browser.setWindowBounds` carries what it is given, under its keys.
pub proof fn law_set_window_bounds_command(window: Json, bounds: Json)
    ensures
        set_window_bounds_command(window, bounds) matches ActionView::CommandWith(name, Json::Object(params)) && name
            == "Browser.setWindowBounds"@ && params.len() == 2 && lookup(params, "windowId"@) == Some(
            window,
        ) && lookup(params, "bounds"@) == Some(
            bounds,
        ),
{
    let params = set_window_bounds_command(window, bounds)->CommandWith_1->Object_0;
    reveal_strlit("windowId");
    reveal_strlit("bounds");
    assert("windowId"@.len() != "bounds"@.len());
    assert(distinct_keys(params));
    lemma_found_under_keys(params);
    assert(params[0].0 == "windowId"@);
    assert(params[1].0 == "bounds"@);
}

/// Law: `Emulation.setDeviceMetricsOverride` carries what it is given, under its keys.
pub proof fn law_device_metrics_command(width: int, height: int, scale: Json)
    ensures
        device_metrics_command(width, height, scale) matches ActionView::CommandWith(name, Json::Object(params)) && name
            == "Emulation.setDeviceMetricsOverride"@ && params.len() == 4 && lookup(params, "width"@) == Some(
            Json::Number(decimal(width)),
        ) && lookup(params, "height"@) == Some(
            Json::Number(decimal(height)),
        ) && lookup(params, "deviceScaleFactor"@) == Some(
            scale,
        ) && lookup(params, "mobile"@) == Some(
            Json::Bool(true),
        ),
{
    let params = device_metrics_command(width, height, scale)->CommandWith_1->Object_0;
    reveal_strlit("width");
    reveal_strlit("height");
    reveal_strlit("deviceScaleFactor");
    reveal_strlit("mobile");
    assert("width"@.len() != "height"@.len());
    assert("width"@.len() != "deviceScaleFactor"@.len());
    assert("width"@.len() != "mobile"@.len());
    assert("height"@.len() != "deviceScaleFactor"@.len());
    assert("height"@[0] != "mobile"@[0]);
    assert("deviceScaleFactor"@.len() != "mobile"@.len());
    assert(distinct_keys(params));
    lemma_found_under_keys(params);
    assert(params[0].0 == "width"@);
    assert(params[1].0 == "height"@);
    assert(params[2].0 == "deviceScaleFactor"@);
    assert(params[3].0 == "mobile"@);
}

/// Law: `Emulation.setTouchEmulationEnabled` carries what it is given, under its keys.
pub proof fn law_touch_emulation_command()
    ensures
        touch_emulation_command() matches ActionView::CommandWith(name, Json::Object(params)) && name
            == "Emulation.setTouchEmulationEnabled"@ && params.len() == 2 && lookup(params, "enabled"@) == Some(
            Json::Bool(true),
        ) && lookup(params, "maxTouchPoints"@) == Some(
            Json::Number(decimal(5)),
        ),
{
    let params = touch_emulation_command()->CommandWith_1->Object_0;
    reveal_strlit("enabled");
    reveal_strlit("maxTouchPoints");
    assert("enabled"@.len() != "maxTouchPoints"@.len());
    assert(distinct_keys(params));
    lemma_found_under_keys(params);
    assert(params[0].0 == "enabled"@);
    assert(params[1].0 == "maxTouchPoints"@);
}

/// Law: `Emulation.setTimezoneOverride` carries what it is given, under its keys.
pub proof fn law_timezone_command(timezone_id: Seq<char>)
    ensures
        timezone_command(timezone_id) matches ActionView::CommandWith(name, Json::Object(params)) && name
            == "Emulation.setTimezoneOverride"@ && params.len() == 1 && lookup(params, "timezoneId"@) == Some(
            Json::Text(timezone_id),
        ),
{
    let params = timezone_command(timezone_id)->CommandWith_1->Object_0;
    reveal_strlit("timezoneId");
    assert(distinct_keys(params));
    lemma_found_under_keys(params);
    assert(params[0].0 == "timezoneId"@);
}

/// Law: `Emulation.setGeolocationOverride` carries what it is given, under its keys.
pub proof fn law_geolocation_command(latitude: Json, longitude: Json, accuracy: Json)
    ensures
        geolocation_command(latitude, longitude, accuracy) matches ActionView::CommandWith(name, Json::Object(params)) && name
            == "Emulation.setGeolocationOverride"@ && params.len() == 3 && lookup(params, "latitude"@) == Some(
            latitude,
        ) && lookup(params, "longitude"@) == Some(
            longitude,
        ) && lookup(params, "accuracy"@) == Some(
            accuracy,
        ),
{
    let params = geolocation_command(latitude, longitude, accuracy)->CommandWith_1->Object_0;
    reveal_strlit("latitude");
    reveal_strlit("longitude");
    reveal_strlit("accuracy");
    assert("latitude"@.len() != "longitude"@.len());
    assert("latitude"@[0] != "accuracy"@[0]);
    assert("longitude"@.len() != "accuracy"@.len());
    assert(distinct_keys(params));
    lemma_found_under_keys(params);
    assert(params[0].0 == "latitude"@);
    assert(params[1].0 == "longitude"@);
    assert(params[2].0 == "accuracy"@);
}

/// Law: `Network.setUserAgentOverride` carries what it is given, under its keys.
pub proof fn law_user_agent_command(ua: Seq<char>)
    ensures
        user_agent_command(ua) matches ActionView::CommandWith(name, Json::Object(params)) && name
            == "Network.setUserAgentOverride"@ && params.len() == 1 && lookup(params, "userAgent"@) == Some(
            Json::Text(ua),
        ),
{
    let params = user_agent_command(ua)->CommandWith_1->Object_0;
    reveal_strlit("userAgent");
    assert(distinct_keys(params));
    lemma_found_under_keys(params);
    assert(params[0].0 == "userAgent"@);
}

/// Law: `Page.handleJavaScriptDialog` carries what it is given, under its keys.
pub proof fn law_dialog_command(accept: bool)
    ensures
        dialog_command(accept) matches ActionView::CommandWith(name, Json::Object(params)) && name
            == "Page.handleJavaScriptDialog"@ && params.len() == 1 && lookup(params, "accept"@) == Some(
            Json::Bool(accept),
        ),
{
    let params = dialog_command(accept)->CommandWith_1->Object_0;
    reveal_strlit("accept");
    assert(distinct_keys(params));
    lemma_found_under_keys(params);
    assert(params[0].0 == "accept"@);
}

/// Law: `Input.dispatchMouseEvent` carries what it is given, under its keys.
pub proof fn law_mouse_moved_command(x: Json, y: Json, button: Seq<char>)
    ensures
        mouse_moved_command(x, y, button) matches ActionView::CommandWith(name, Json::Object(params)) && name
            == "Input.dispatchMouseEvent"@ && params.len() == 4 && lookup(params, "type"@) == Some(
            Json::Text("mouseMoved"@),
        ) && lookup(params, "x"@) == Some(
            x,
        ) && lookup(params, "y"@) == Some(
            y,
        ) && lookup(params, "button"@) == Some(
            Json::Text(button),
        ),
{
    let params = mouse_moved_command(x, y, button)->CommandWith_1->Object_0;
    reveal_strlit("type");
    reveal_strlit("x");
    reveal_strlit("y");
    reveal_strlit("button");
    assert("type"@.len() != "x"@.len());
    assert("type"@.len() != "y"@.len());
    assert("type"@.len() != "button"@.len());
    assert("x"@[0] != "y"@[0]);
    assert("x"@.len() != "button"@.len());
    assert("y"@.len() != "button"@.len());
    assert(distinct_keys(params));
    lemma_found_under_keys(params);
    assert(params[0].0 == "type"@);
    assert(params[1].0 == "x"@);
    assert(params[2].0 == "y"@);
    assert(params[3].0 == "button"@);
}

/// Law: `Input.dispatchMouseEvent` carries what it is given, under its keys.
pub proof fn law_mouse_button_command(kind: Seq<char>, x: Json, y: Json)
    ensures
        mouse_button_command(kind, x, y) matches ActionView::CommandWith(name, Json::Object(params)) && name
            == "Input.dispatchMouseEvent"@ && params.len() == 5 && lookup(params, "type"@) == Some(
            Json::Text(kind),
        ) && lookup(params, "x"@) == Some(
            x,
        ) && lookup(params, "y"@) == Some(
            y,
        ) && lookup(params, "button"@) == Some(
            Json::Text("left"@),
        ) && lookup(params, "clickCount"@) == Some(
            Json::Number(decimal(1)),
        ),
{
    let params = mouse_button_command(kind, x, y)->CommandWith_1->Object_0;
    reveal_strlit("type");
    reveal_strlit("x");
    reveal_strlit("y");
    reveal_strlit("button");
    reveal_strlit("clickCount");
    assert("type"@.len() != "x"@.len());
    assert("type"@.len() != "y"@.len());
    assert("type"@.len() != "button"@.len());
    assert("type"@.len() != "clickCount"@.len());
    assert("x"@[0] != "y"@[0]);
    assert("x"@.len() != "button"@.len());
    assert("x"@.len() != "clickCount"@.len());
    assert("y"@.len() != "button"@.len());
    assert("y"@.len() != "clickCount"@.len());
    assert("button"@.len() != "clickCount"@.len());
    assert(distinct_keys(params));
    lemma_found_under_keys(params);
    assert(params[0].0 == "type"@);
    assert(params[1].0 == "x"@);
    assert(params[2].0 == "y"@);
    assert(params[3].0 == "button"@);
    assert(params[4].0 == "clickCount"@);
}

/// Law: `Page.setBypassCSP` carries what it is given, under its keys.
pub proof fn law_bypass_csp_command()
    ensures
        bypass_csp_command() matches ActionView::CommandWith(name, Json::Object(params)) && name
            == "Page.setBypassCSP"@ && params.len() == 1 && lookup(params, "enabled"@) == Some(
            Json::Bool(true),
        ),
{
    let params = bypass_csp_command()->CommandWith_1->Object_0;
    reveal_strlit("enabled");
    assert(distinct_keys(params));
    lemma_found_under_keys(params);
    assert(params[0].0 == "enabled"@);
}

/// Law: `Page.captureScreenshot` carries what it is given, under its keys.
pub proof fn law_screenshot_command()
    ensures
        screenshot_command() matches ActionView::CommandWith(name, Json::Object(params)) && name
            == "Page.captureScreenshot"@ && params.len() == 2 && lookup(params, "format"@) == Some(
            Json::Text("png"@),
        ) && lookup(params, "captureBeyondViewport"@) == Some(
            Json::Bool(false),
        ),
{
    let params = screenshot_command()->CommandWith_1->Object_0;
    reveal_strlit("format");
    reveal_strlit("captureBeyondViewport");
    assert("format"@.len() != "captureBeyondViewport"@.len());
    assert(distinct_keys(params));
    lemma_found_under_keys(params);
    assert(params[0].0 == "format"@);
    assert(params[1].0 == "captureBeyondViewport"@);
}

/// Law: `Page.printToPDF` carries what it is given, under its keys.
pub proof fn law_print_command()
    ensures
        print_command() matches ActionView::CommandWith(name, Json::Object(params)) && name
            == "Page.printToPDF"@ && params.len() == 1 && lookup(params, "printBackground"@) == Some(
            Json::Bool(true),
        ),
{
    let params = print_command()->CommandWith_1->Object_0;
    reveal_strlit("printBackground");
    assert(distinct_keys(params));
    lemma_found_under_keys(params);
    assert(params[0].0 == "printBackground"@);
}

/// Law: every pattern of a list is blocked, in order and as it is.
pub proof fn law_blocked_urls_command(patterns: Seq<Seq<char>>)
    ensures
        blocked_urls_command(patterns) matches ActionView::CommandWith(name, Json::Object(params))
            && name == "Network.setBlockedURLs"@ && params.len() == 1 && params[0].0 == "urls"@
            && params[0].1 is Array && params[0].1->Array_0.len() == patterns.len() && forall|i: int|
            0 <= i < patterns.len() ==> #[trigger] params[0].1->Array_0[i] == Json::Text(
                patterns[i],
            ),
{
}

/// Law: the permissions that are granted are those of the list, in order.
pub proof fn law_grant_permissions_command()
    ensures
        grant_permissions_command() matches ActionView::CommandWith(name, Json::Object(params))
            && name == "Browser.grantPermissions"@ && params.len() == 1 && params[0].0
            == "permissions"@ && params[0].1 is Array && params[0].1->Array_0.len()
            == permission_list().len() && forall|i: int|
            0 <= i < permission_list().len() ==> #[trigger] params[0].1->Array_0[i] == Json::Text(
                permission_list()[i],
            ),
{
}

/// Law: the header for a proxy carries the authorization, and no other header comes with it; a
/// cookie is handed over as it is.
pub proof fn law_header_and_cookie_commands(authorization: Seq<char>, cookie: Json)
    ensures
        proxy_header_command(authorization) == ActionView::CommandWith(
            "Network.setExtraHTTPHeaders"@,
            Json::Object(
                seq![
                    (
                        "headers"@,
                        Json::Object(seq![("Proxy-Authorization"@, Json::Text(authorization))]),
                    ),
                ],
            ),
        ),
        set_cookie_command(cookie) == ActionView::CommandWith("Network.setCookie"@, cookie),
        all_cookies_command() == ActionView::CommandWith(
            "Network.getAllCookies"@,
            Json::Object(Seq::empty()),
        ),
        clear_cookies_command() == ActionView::CommandWith(
            "Network.clearBrowserCookies"@,
            Json::Object(Seq::empty()),
        ),
        window_for_target_command() == ActionView::CommandWith(
            "Browser.getWindowForTarget"@,
            Json::Object(Seq::empty()),
        ),
        network_enable_command() == ActionView::Command("Network.enable"@),
{
}

/// Law: the bounds of a window name its place and its size, or its state alone.
pub proof fn law_bounds(x: int, y: int, w: int, h: int, state: Seq<char>)
    ensures
        normal_bounds(x, y, w, h) matches Json::Object(b) && b.len() == 5 && lookup(b, "left"@)
            == Some(Json::Number(decimal(x))) && lookup(b, "top"@) == Some(
            Json::Number(decimal(y)),
        ) && lookup(b, "width"@) == Some(Json::Number(decimal(w))) && lookup(b, "height"@) == Some(
            Json::Number(decimal(h)),
        ) && lookup(b, "windowState"@) == Some(Json::Text("normal"@)),
        state_bounds(state) == Json::Object(seq![("windowState"@, Json::Text(state))]),
{
    let b = normal_bounds(x, y, w, h)->Object_0;
    reveal_strlit("left");
    reveal_strlit("top");
    reveal_strlit("width");
    reveal_strlit("height");
    reveal_strlit("windowState");
    assert("left"@.len() == 4 && "top"@.len() == 3 && "width"@.len() == 5 && "height"@.len() == 6
        && "windowState"@.len() == 11);
    assert(distinct_keys(b));
    lemma_found_under_keys(b);
    assert(b[0].0 == "left"@ && b[1].0 == "top"@ && b[2].0 == "width"@ && b[3].0 == "height"@
        && b[4].0 == "windowState"@);
}

} // verus!
