use serde_json::Value;
use undetected_chromedriver::chrome;
use undetected_chromedriver::error::ChromeError;
use undetected_chromedriver::plan::{may, must, or_stop, Action, Step};
use undetected_chromedriver::scripts;
use undetected_chromedriver::stealth::{inject_all_persistent_stealth, CDC_SCRUB_SCRIPT};

fn json(text: &str) -> Value {
    serde_json::from_str(text).unwrap()
}

fn run(script: &str) -> Step {
    must(Action::Execute(script.to_string()))
}

fn pause(millis: u64) -> Step {
    must(Action::Sleep(millis))
}

fn scrub() -> Step {
    may(Action::Execute(CDC_SCRUB_SCRIPT.to_string()))
}

fn with(name: &str, params: &str) -> Step {
    must(Action::CommandWith(name.to_string(), json(params)))
}

fn command(name: &str) -> Step {
    must(Action::Command(name.to_string()))
}

fn words<T>(r: Result<T, ChromeError>) -> String {
    match r {
        Err(ChromeError::Other(s)) => s,
        _ => panic!("no error in words"),
    }
}

#[test]
fn replies_as_texts() {
    assert_eq!(chrome::text_reply(&json("\"x\"")), "x");
    assert_eq!(chrome::text_reply(&json("1")), "");
    assert_eq!(chrome::optional_text_reply(&json("\"x\"")), Some("x".to_string()));
    assert_eq!(chrome::optional_text_reply(&Value::Null), None);
    assert_eq!(chrome::texts_reply(&json(r#"["a", 1, "b", null]"#)), vec!["a", "b"]);
    assert!(chrome::texts_reply(&json("\"a\"")).is_empty());
}

#[test]
fn replies_as_answers() {
    assert!(chrome::flag_reply(Some(&Value::Bool(true))));
    assert!(!chrome::flag_reply(Some(&Value::Bool(false))));
    assert!(!chrome::flag_reply(Some(&Value::from("true"))));
    assert!(!chrome::flag_reply(None));
}

#[test]
fn replies_as_bytes() {
    assert_eq!(chrome::screenshot_reply(&json(r#"{"data": "AQID"}"#)).unwrap(), vec![1, 2, 3]);
    assert_eq!(words(chrome::screenshot_reply(&json("{}"))), "screenshot: missing data field");
    assert_eq!(words(chrome::pdf_reply(&json(r#"{"data": 1}"#))), "pdf: missing data field");
    assert_eq!(chrome::pdf_reply(&json(r#"{"data": "JVBERg=="}"#)).unwrap(), b"%PDF".to_vec());
    let r = chrome::pdf_reply(&json(r#"{"data": "not base64"}"#));
    assert!(matches!(r, Err(ChromeError::Base64(_))));
}

#[test]
fn stealth_hooks() {
    assert_eq!(chrome::remove_cdc_props(), vec![scrub()]);
    assert_eq!(inject_all_persistent_stealth().len(), 3);
}

#[test]
fn going_to_an_address() {
    assert_eq!(chrome::goto_check(), vec![run(scripts::CDC_CHECK)]);
    let open = || must(Action::Navigate("http://x".to_string()));
    assert_eq!(chrome::goto(&json("[]"), "http://x").unwrap(), vec![open(), scrub()]);
    assert_eq!(chrome::goto(&Value::Null, "http://x").unwrap(), vec![open(), scrub()]);
    assert_eq!(
        chrome::goto(&json(r#"["cdc_a", "b\"c"]"#), "http://x").unwrap(),
        vec![
            run(r#"["cdc_a","b\"c"].forEach(p=>delete window[p]);"#),
            pause(50),
            open(),
            scrub()
        ]
    );
}

#[test]
fn double_scrub() {
    assert_eq!(chrome::uc_get_check(), vec![scrub(), run(scripts::CDC_CHECK)]);
    assert_eq!(
        chrome::uc_get(&json("[]"), "u").unwrap(),
        vec![must(Action::Navigate("u".to_string())), scrub(), scrub()]
    );
}

#[test]
fn moving_within_the_session() {
    let around = |script| vec![scrub(), run(script), pause(300), scrub()];
    assert_eq!(chrome::refresh(), around("window.location.reload();"));
    assert_eq!(chrome::go_back(), around("window.history.back();"));
    assert_eq!(chrome::go_forward(), around("window.history.forward();"));
}

#[test]
fn moving_to_a_new_tab() {
    assert_eq!(
        chrome::uc_open_with_tab("http://x"),
        vec![run(r#"window.open("http://x","_blank");"#), pause(1000)]
    );
    assert!(chrome::close_original_window(0).is_empty());
    assert_eq!(chrome::close_original_window(3), vec![must(Action::CloseWindow)]);
    assert_eq!(chrome::enter_last_window(0), vec![scrub()]);
    assert_eq!(chrome::enter_last_window(2), vec![must(Action::SwitchWindow(1)), scrub()]);
}

#[test]
fn reconnecting() {
    assert_eq!(
        chrome::leave_with_tab("u"),
        vec![
            may(Action::Execute(r#"window.open("u","_blank");"#.to_string())),
            may(Action::Quit)
        ]
    );
    assert!(chrome::resume_last_window(0).is_empty());
    assert_eq!(chrome::resume_last_window(4), vec![may(Action::SwitchWindow(3))]);
}

#[test]
fn asking_about_the_page() {
    assert_eq!(chrome::get_current_url(), vec![run("return window.location.href;")]);
    assert_eq!(chrome::get_title(), vec![run("return document.title;")]);
    assert_eq!(
        chrome::get_page_source(),
        vec![run("return document.documentElement.outerHTML;")]
    );
    assert_eq!(chrome::get_cookie_string(), vec![run("return document.cookie;")]);
}

#[test]
fn challenge() {
    assert_eq!(
        chrome::bypass_cloudflare(),
        vec![
            must(Action::EnterFrame(0)),
            must(Action::FindXPath(
                "/html/body//div/div[1]/div[1]/div/label/input".to_string()
            )),
            must(Action::WaitClickable),
            pause(2000),
            must(Action::Click)
        ]
    );
}

#[test]
fn clicking() {
    let script = "setTimeout(()=>document.querySelector('#a').click(),111);";
    assert_eq!(chrome::uc_click("#a"), vec![run(script), pause(150)]);
    assert!(chrome::click_if_visible(false, "#a").is_empty());
    assert_eq!(
        chrome::click_if_visible(true, "#a"),
        vec![or_stop(Action::Execute(script.to_string())), pause(150)]
    );
}

#[test]
fn boxes_are_clicked_where_their_state_differs() {
    assert_eq!(chrome::check_if_unchecked(false, "#a"), chrome::uc_click("#a"));
    assert!(chrome::check_if_unchecked(true, "#a").is_empty());
    assert_eq!(chrome::uncheck_if_checked(true, "#a"), chrome::uc_click("#a"));
    assert!(chrome::uncheck_if_checked(false, "#a").is_empty());
}

#[test]
fn typing() {
    assert_eq!(
        chrome::send_keys("#a", "hi"),
        vec![
            run("const e=document.querySelector('#a');if(e){e.focus();e.value='';}"),
            must(Action::FindCss("#a".to_string())),
            must(Action::SendKeys("hi".to_string()))
        ]
    );
    assert_eq!(
        chrome::clear_input("#a"),
        vec![run("const e=document.querySelector('#a');if(e)e.value='';")]
    );
}

#[test]
fn setting_a_value() {
    let (css_selector, value) = ("#a", "v");
    let script = format!(
        r#"
            const e=document.querySelector('{css_selector}');
            if(e){{
                const s=Object.getOwnPropertyDescriptor(window.HTMLInputElement.prototype,'value').set;
                s.call(e,'{value}');
                e.dispatchEvent(new Event('input',{{bubbles:true}}));
                e.dispatchEvent(new Event('change',{{bubbles:true}}));
            }}"#
    );
    assert_eq!(chrome::set_value("#a", "v"), vec![run(&script)]);
}

#[test]
fn submitting() {
    let css_selector = "form";
    let script = format!(
        r#"
            const e=document.querySelector('{css_selector}');
            if(e)e.dispatchEvent(new KeyboardEvent('keydown',
                {{key:'Enter',keyCode:13,code:'Enter',which:13,bubbles:true}}));"#
    );
    assert_eq!(chrome::submit("form"), vec![run(&script)]);
}

#[test]
fn scrolling() {
    assert_eq!(chrome::scroll_to_top(), vec![run("window.scrollTo(0,0);")]);
    assert_eq!(
        chrome::scroll_to_bottom(),
        vec![run("window.scrollTo(0,document.body.scrollHeight);")]
    );
    assert_eq!(chrome::scroll_to_y(-42), vec![run("window.scrollTo(0,-42);")]);
    assert_eq!(chrome::scroll_by_y(120), vec![run("window.scrollBy(0,120);")]);
    assert_eq!(
        chrome::scroll_into_view("#a"),
        vec![run(
            "const e=document.querySelector('#a');if(e)e.scrollIntoView({behavior:'smooth',block:'center'});"
        )]
    );
}

#[test]
fn changing_the_page() {
    assert_eq!(
        chrome::remove_element("#a"),
        vec![run("const e=document.querySelector('#a');if(e)e.remove();")]
    );
    assert_eq!(
        chrome::remove_elements(".x"),
        vec![run("document.querySelectorAll('.x').forEach(e=>e.remove());")]
    );
    assert_eq!(
        chrome::set_attribute("#a", "k", "v"),
        vec![run("const e=document.querySelector('#a');if(e)e.setAttribute('k','v');")]
    );
    assert_eq!(
        chrome::get_attribute("#a", "k"),
        vec![run("const e=document.querySelector('#a');return e?e.getAttribute('k'):null;")]
    );
    assert_eq!(
        chrome::get_text("#a"),
        vec![run("const e=document.querySelector('#a');return e?e.innerText.trim():'';")]
    );
    assert_eq!(
        chrome::internalize_links(),
        vec![run(
            "document.querySelectorAll('a[target=\"_blank\"]').forEach(a=>a.target='_self');"
        )]
    );
    assert_eq!(chrome::window_new("u"), vec![run(r#"window.open("u","_blank");"#)]);
}

#[test]
fn asking_about_elements() {
    let css_selector = "#a";
    let script = format!(
        r#"
            const e=document.querySelector('{css_selector}');
            if(!e)return false;
            const s=window.getComputedStyle(e);
            return s.display!=='none'&&s.visibility!=='hidden'&&s.opacity!=='0'&&e.offsetWidth>0;"#
    );
    assert_eq!(chrome::is_element_visible("#a"), vec![run(&script)]);
    assert_eq!(
        chrome::is_element_present("#a"),
        vec![run("return document.querySelector('#a')!==null;")]
    );
    assert_eq!(
        chrome::is_checked("#a"),
        vec![run("const e=document.querySelector('#a');return e?e.checked:false;")]
    );
    assert_eq!(
        chrome::element_center("#a"),
        vec![run(
            "const e=document.querySelector('#a');if(!e)return null;const r=e.getBoundingClientRect();return [r.left+r.width/2,r.top+r.height/2];"
        )]
    );
}

#[test]
fn hovering() {
    assert_eq!(
        chrome::hover_element(&json("[10, 20.5]")).unwrap(),
        vec![
            with(
                "Input.dispatchMouseEvent",
                r#"{"type":"mouseMoved","x":10.0,"y":20.5,"button":"none"}"#
            ),
            pause(100)
        ]
    );
    assert_eq!(words(chrome::hover_element(&Value::Null)), "hover: missing x coordinate");
    assert_eq!(words(chrome::hover_element(&json("[1]"))), "hover: missing y coordinate");
    assert_eq!(words(chrome::hover_element(&json("[\"1\", 2]"))), "hover: missing x coordinate");
}

#[test]
fn dragging_between_elements() {
    let ends = chrome::drag_and_drop(&json("[1, 2]"), &json("[3, 4.5]")).unwrap();
    assert_eq!(ends, ((json("1.0"), json("2.0")), (json("3.0"), json("4.5"))));
    let of = |a, b| words(chrome::drag_and_drop(&json(a), &json(b)));
    assert_eq!(of("null", "null"), "drag: missing x1");
    assert_eq!(of("[1]", "null"), "drag: missing y1");
    assert_eq!(of("[1, 2]", "[]"), "drag: missing x2");
    assert_eq!(of("[1, 2]", "[3, null]"), "drag: missing y2");
}

#[test]
fn dragging_along_points() {
    let at = |n: u32| (Value::from(f64::from(n)), Value::from(f64::from(2 * n)));
    let points: Vec<(Value, Value)> = (1..=chrome::DRAG_STEPS).map(at).collect();
    let steps = chrome::drag_and_drop_points(at(0), points, at(10));
    let name = "Input.dispatchMouseEvent";
    let mut expected = vec![
        with(name, r#"{"type":"mousePressed","x":0.0,"y":0.0,"button":"left","clickCount":1}"#),
        pause(50),
    ];
    for n in 1..=10 {
        let y = 2 * n;
        let params =
            format!(r#"{{"type":"mouseMoved","x":{n}.0,"y":{y}.0,"button":"left"}}"#);
        expected.push(with(name, &params));
        expected.push(pause(16));
    }
    expected.push(with(
        name,
        r#"{"type":"mouseReleased","x":10.0,"y":20.0,"button":"left","clickCount":1}"#,
    ));
    assert_eq!(steps, expected);
}

#[test]
fn windows() {
    let target = json(r#"{"windowId": 7, "bounds": {}}"#);
    assert_eq!(chrome::find_window(), vec![with("Browser.getWindowForTarget", "{}")]);
    assert_eq!(
        chrome::get_window_rect(&target),
        vec![with("Browser.getWindowBounds", r#"{"windowId": 7}"#)]
    );
    assert_eq!(chrome::window_rect_reply(&json(r#"{"bounds": [1]}"#)), json("[1]"));
    assert_eq!(chrome::window_rect_reply(&json("{}")), Value::Null);
    assert_eq!(
        chrome::set_window_rect(&target, -1, 2, 30, 40),
        vec![with(
            "Browser.setWindowBounds",
            r#"{"windowId": 7, "bounds": {"left": -1, "top": 2, "width": 30, "height": 40, "windowState": "normal"}}"#
        )]
    );
    assert_eq!(
        chrome::maximize(&target),
        vec![with(
            "Browser.setWindowBounds",
            r#"{"windowId": 7, "bounds": {"windowState": "maximized"}}"#
        )]
    );
    assert_eq!(
        chrome::minimize(&Value::Null),
        vec![with(
            "Browser.setWindowBounds",
            r#"{"windowId": null, "bounds": {"windowState": "minimized"}}"#
        )]
    );
}

#[test]
fn storage() {
    assert_eq!(
        chrome::get_local_storage_item("k"),
        vec![run("return localStorage.getItem('k');")]
    );
    assert_eq!(
        chrome::set_local_storage_item("k", "v"),
        vec![run("localStorage.setItem('k','v');")]
    );
    assert_eq!(
        chrome::remove_local_storage_item("k"),
        vec![run("localStorage.removeItem('k');")]
    );
    assert_eq!(chrome::clear_local_storage(), vec![run("localStorage.clear();")]);
    assert_eq!(
        chrome::get_session_storage_item("k"),
        vec![run("return sessionStorage.getItem('k');")]
    );
    assert_eq!(
        chrome::set_session_storage_item("k", "v"),
        vec![run("sessionStorage.setItem('k','v');")]
    );
    assert_eq!(
        chrome::remove_session_storage_item("k"),
        vec![run("sessionStorage.removeItem('k');")]
    );
    assert_eq!(chrome::clear_session_storage(), vec![run("sessionStorage.clear();")]);
}

#[test]
fn cookies_are_restored_in_order() {
    assert_eq!(chrome::get_all_cookies(), vec![with("Network.getAllCookies", "{}")]);
    assert_eq!(chrome::clear_cookies(), vec![with("Network.clearBrowserCookies", "{}")]);
    let cookies = chrome::cookies_reply(&json(r#"{"cookies": [{"name": "a"}, {"name": "b"}]}"#));
    let set = |params| may(Action::CommandWith("Network.setCookie".to_string(), json(params)));
    assert_eq!(
        chrome::set_all_cookies(&cookies),
        vec![set(r#"{"name": "a"}"#), set(r#"{"name": "b"}"#)]
    );
    assert_eq!(chrome::cookies_reply(&json("[]")), Value::Null);
    assert!(chrome::set_all_cookies(&Value::Null).is_empty());
}

#[test]
fn capturing() {
    assert_eq!(
        chrome::cdp_screenshot(),
        vec![with(
            "Page.captureScreenshot",
            r#"{"format": "png", "captureBeyondViewport": false}"#
        )]
    );
    assert_eq!(
        chrome::print_to_pdf(),
        vec![with("Page.printToPDF", r#"{"printBackground": true}"#)]
    );
}

#[test]
fn overriding() {
    assert_eq!(
        chrome::set_user_agent("UA"),
        vec![with("Network.setUserAgentOverride", r#"{"userAgent": "UA"}"#)]
    );
    assert_eq!(
        chrome::set_timezone_and_geolocation(
            "Europe/Berlin",
            Value::from(52.5),
            Value::from(13.4),
            Value::from(100.0)
        ),
        vec![
            with("Emulation.setTimezoneOverride", r#"{"timezoneId": "Europe/Berlin"}"#),
            with(
                "Emulation.setGeolocationOverride",
                r#"{"latitude": 52.5, "longitude": 13.4, "accuracy": 100.0}"#
            )
        ]
    );
    assert_eq!(
        chrome::enable_cdp_log_capture(),
        vec![command("Network.enable"), command("Log.enable")]
    );
    assert_eq!(
        chrome::set_mobile_emulation(390, 844, Value::from(2.0)),
        vec![
            with(
                "Emulation.setDeviceMetricsOverride",
                r#"{"width": 390, "height": 844, "deviceScaleFactor": 2.0, "mobile": true}"#
            ),
            with(
                "Emulation.setTouchEmulationEnabled",
                r#"{"enabled": true, "maxTouchPoints": 5}"#
            )
        ]
    );
    assert_eq!(chrome::disable_csp(), vec![with("Page.setBypassCSP", r#"{"enabled": true}"#)]);
    assert_eq!(chrome::grant_all_permissions().len(), 1);
}

#[test]
fn blocking() {
    assert_eq!(chrome::enable_ad_block()[0], command("Network.enable"));
    assert_eq!(
        chrome::block_urls(&vec!["*.a".to_string(), "b*".to_string()]),
        vec![
            command("Network.enable"),
            with("Network.setBlockedURLs", r#"{"urls": ["*.a", "b*"]}"#)
        ]
    );
    let steps = chrome::block_url_patterns(&vec!["ads".to_string(), "track".to_string()]);
    match &steps[0].action {
        Action::CommandWith(name, params) => {
            assert_eq!(name, "Page.addScriptToEvaluateOnNewDocument");
            let source = params["source"].as_str().unwrap();
            assert!(source.starts_with(
                "(()=>{\n            const B=[\"ads\",\"track\"];\n            const _f=window.fetch;"
            ));
            assert!(source.ends_with("        })();"));
        }
        _ => panic!("no command"),
    }
}

#[test]
fn proxy_header() {
    assert!(chrome::set_proxy("host:1").is_empty());
    assert_eq!(
        chrome::set_proxy("user:pass@host:1"),
        vec![
            command("Network.enable"),
            with(
                "Network.setExtraHTTPHeaders",
                r#"{"headers": {"Proxy-Authorization": "Basic dXNlcjpwYXNz"}}"#
            )
        ]
    );
}

#[test]
fn text_assertions() {
    assert!(chrome::assert_text("hello world", "lo w", "#a").is_ok());
    assert!(chrome::assert_text("hello", "", "#a").is_ok());
    assert_eq!(
        words(chrome::assert_text("hello", "bye", "#a")),
        "assert_text: 'bye' not in '#a'. Got: 'hello'"
    );
    assert!(chrome::assert_exact_text(" hello\n", "hello ", "#a").is_ok());
    assert_eq!(
        words(chrome::assert_exact_text("hello there", "hello", "#a")),
        "assert_exact_text '#a': expected 'hello', got 'hello there'"
    );
    assert!(chrome::assert_text_not_visible(Some("hello"), "bye", "#a").is_ok());
    assert!(chrome::assert_text_not_visible(None, "bye", "#a").is_ok());
    assert_eq!(
        words(chrome::assert_text_not_visible(Some("hello"), "hell", "#a")),
        "assert_text_not_visible: 'hell' IS visible in '#a'"
    );
    assert!(chrome::assert_text_not_visible(None, "", "#a").is_err());
}

#[test]
fn title_and_address_assertions() {
    assert!(chrome::assert_title("T", "T").is_ok());
    assert_eq!(words(chrome::assert_title("A", "B")), "assert_title: expected 'B', got 'A'");
    assert!(chrome::assert_title_contains("Title", "itl").is_ok());
    assert_eq!(
        words(chrome::assert_title_contains("A", "B")),
        "assert_title_contains: 'B' not in title 'A'"
    );
    assert!(chrome::assert_url("u", "u").is_ok());
    assert_eq!(words(chrome::assert_url("a", "b")), "assert_url: expected 'b', got 'a'");
    assert!(chrome::assert_url_contains("http://x/y", "/y").is_ok());
    assert_eq!(
        words(chrome::assert_url_contains("a", "b")),
        "assert_url_contains: 'b' not in url 'a'"
    );
}

#[test]
fn searching_for_text() {
    let expected = |text: &str, tag_filter: &str| {
        format!(
            r#"
            const search='{text}', tag={tag_filter};
            const walker=document.createTreeWalker(document.body,NodeFilter.SHOW_TEXT,null,false);
            const seen=new Set(), results=[];
            let node;
            while((node=walker.nextNode())){{
                if(node.nodeValue&&node.nodeValue.includes(search)){{
                    let el=node.parentElement;
                    if(tag){{while(el&&el.tagName!==tag)el=el.parentElement;}}
                    if(el&&!seen.has(el)){{seen.add(el);results.push(el.outerHTML.substring(0,200));}}
                }}
            }}
            return results;
        "#
        )
    };
    assert_eq!(
        chrome::find_elements_by_text("x", None),
        vec![run(&expected("x", "null"))]
    );
    assert_eq!(
        chrome::find_elements_by_text("x", Some("div")),
        vec![run(&expected("x", "'DIV'"))]
    );
}
