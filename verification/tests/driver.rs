use serde_json::Value;
use undetected_chromedriver::config::ChromeConfig;
use undetected_chromedriver::driver::{
    apply_cdp_overrides, driver_port, driver_program, driver_url, next_launch_step,
    next_reconnect_step, port_argument, prepare_session, LaunchStep, ReconnectStep,
};
use undetected_chromedriver::plan::{Action, OnError, Step};

fn json(text: &str) -> Value {
    serde_json::from_str(text).unwrap()
}

fn with(name: &str, params: &str) -> Action {
    Action::CommandWith(name.to_string(), json(params))
}

fn launch(driver: bool, patched: bool) -> Vec<LaunchStep> {
    let mut steps = vec![LaunchStep::CheckDriver];
    loop {
        let step = steps[steps.len() - 1];
        if step == LaunchStep::Ready {
            return steps;
        }
        let exists = if step == LaunchStep::CheckDriver { driver } else { patched };
        steps.push(next_launch_step(step, exists));
    }
}

#[test]
fn launch_with_everything_there() {
    assert_eq!(
        launch(true, true),
        vec![
            LaunchStep::CheckDriver,
            LaunchStep::CheckPatched,
            LaunchStep::SetPermissions,
            LaunchStep::StartProcess,
            LaunchStep::Connect,
            LaunchStep::PrepareSession,
            LaunchStep::Ready,
        ]
    );
}

#[test]
fn launch_from_nothing() {
    let steps = launch(false, false);
    assert_eq!(steps[1], LaunchStep::FetchDriver);
    assert_eq!(steps[2], LaunchStep::CheckPatched);
    assert_eq!(steps[3], LaunchStep::PatchDriver);
    assert_eq!(steps[4], LaunchStep::SetPermissions);
    assert_eq!(steps.len(), 9);
}

fn reconnect(connected: bool) -> Vec<ReconnectStep> {
    let mut steps = vec![ReconnectStep::Leave];
    loop {
        let step = steps[steps.len() - 1];
        let next = next_reconnect_step(step, connected);
        if next == step {
            return steps;
        }
        steps.push(next);
    }
}

#[test]
fn reconnect_in_order() {
    assert_eq!(
        reconnect(true),
        vec![
            ReconnectStep::Leave,
            ReconnectStep::Pause,
            ReconnectStep::Connect,
            ReconnectStep::Register,
            ReconnectStep::ReadWindows,
            ReconnectStep::Resume,
            ReconnectStep::Done,
        ]
    );
    assert_eq!(
        reconnect(false),
        vec![
            ReconnectStep::Leave,
            ReconnectStep::Pause,
            ReconnectStep::Connect,
            ReconnectStep::GiveUp,
        ]
    );
}

#[test]
fn ports_are_in_range() {
    for _ in 0..100 {
        let port = driver_port();
        assert!((2000..5000).contains(&port));
    }
}

#[test]
fn process_and_address() {
    assert_eq!(driver_program(false), "./chromedriver_PATCHED");
    assert_eq!(driver_program(true), "./chromedriver_PATCHED.exe");
    assert_eq!(port_argument(2042), "--port=2042");
    assert_eq!(driver_url(4999), "http://localhost:4999");
}

#[test]
fn default_configuration_overrides_nothing() {
    assert!(apply_cdp_overrides(&ChromeConfig::default()).is_empty());
    assert_eq!(prepare_session(&ChromeConfig::default()).len(), 4);
}

#[test]
fn overrides_in_order() {
    let config = ChromeConfig {
        mobile: true,
        mobile_user_agent: Some("Phone".to_string()),
        ad_block: true,
        disable_csp: true,
        proxy: Some("user:pass@host:1".to_string()),
        ..ChromeConfig::default()
    };
    let steps = apply_cdp_overrides(&config);
    assert!(steps.iter().all(|s| s.on_error == OnError::Skip));
    let actions: Vec<&Action> = steps.iter().map(|s| &s.action).collect();
    assert_eq!(actions.len(), 8);
    assert_eq!(
        *actions[0],
        with(
            "Emulation.setDeviceMetricsOverride",
            r#"{"width":412,"height":732,"deviceScaleFactor":3.0,"mobile":true}"#
        )
    );
    assert_eq!(
        *actions[1],
        with("Emulation.setTouchEmulationEnabled", r#"{"enabled":true,"maxTouchPoints":5}"#)
    );
    assert_eq!(*actions[2], with("Network.setUserAgentOverride", r#"{"userAgent":"Phone"}"#));
    assert_eq!(*actions[3], Action::Command("Network.enable".to_string()));
    match actions[4] {
        Action::CommandWith(name, params) => {
            assert_eq!(name, "Network.setBlockedURLs");
            assert_eq!(params["urls"].as_array().unwrap().len(), 24);
        }
        _ => panic!("no command"),
    }
    assert_eq!(*actions[5], with("Page.setBypassCSP", r#"{"enabled":true}"#));
    assert_eq!(*actions[6], Action::Command("Network.enable".to_string()));
    assert_eq!(
        *actions[7],
        with(
            "Network.setExtraHTTPHeaders",
            r#"{"headers":{"Proxy-Authorization":"Basic dXNlcjpwYXNz"}}"#
        )
    );
}

#[test]
fn configured_mobile_metrics() {
    let config = ChromeConfig {
        mobile: true,
        mobile_metrics: Some((100, 200, Value::from(1.5))),
        ..ChromeConfig::default()
    };
    let steps = apply_cdp_overrides(&config);
    assert_eq!(steps.len(), 2);
    assert_eq!(
        steps[0].action,
        with(
            "Emulation.setDeviceMetricsOverride",
            r#"{"width":100,"height":200,"deviceScaleFactor":1.5,"mobile":true}"#
        )
    );
}

#[test]
fn mobile_metrics_need_mobile() {
    let config = ChromeConfig {
        mobile_metrics: Some((100, 200, Value::from(1.5))),
        mobile_user_agent: Some("Phone".to_string()),
        proxy: Some("host:1".to_string()),
        ..ChromeConfig::default()
    };
    assert!(apply_cdp_overrides(&config).is_empty());
}

#[test]
fn session_begins_with_required_stealth() {
    let config = ChromeConfig { disable_csp: true, ..ChromeConfig::default() };
    let steps: Vec<Step> = prepare_session(&config);
    assert_eq!(steps.len(), 5);
    for step in &steps[..3] {
        assert_eq!(step.on_error, OnError::Fail);
        match &step.action {
            Action::CommandWith(name, _) => {
                assert_eq!(name, "Page.addScriptToEvaluateOnNewDocument")
            }
            _ => panic!("no command"),
        }
    }
    assert_eq!(steps[3].on_error, OnError::Skip);
    match &steps[3].action {
        Action::CommandWith(name, params) => {
            assert_eq!(name, "Browser.grantPermissions");
            assert_eq!(params["permissions"].as_array().unwrap().len(), 16);
            assert_eq!(params["permissions"][0], Value::from("geolocation"));
            assert_eq!(params["permissions"][15], Value::from("idleDetection"));
        }
        _ => panic!("no command"),
    }
}
