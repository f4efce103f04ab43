use thirtyfour::{BrowserCapabilitiesHelper, ChromeCapabilities};
use undetected_chromedriver::capabilities::{add_profile_arg, browser_capabilities};
use undetected_chromedriver::config::ChromeConfig;

fn args_of(caps: &ChromeCapabilities) -> Vec<String> {
    caps.args()
}

fn args(config: &ChromeConfig, os: &str, paths: &Vec<String>) -> Vec<String> {
    args_of(&browser_capabilities(config, os, paths).unwrap())
}

#[test]
fn default_arguments_in_order() {
    let expected = vec![
        "--no-sandbox",
        "--disable-dev-shm-usage",
        "--disable-blink-features=AutomationControlled",
        "window-size=960,540",
        "--disable-infobars",
        "--no-default-browser-check",
        "--no-first-run",
        "--no-service-autorun",
        "--password-store=basic",
        "--profile-directory=Default",
        "--no-pings",
        "--homepage=about:blank",
        "--safebrowsing-disable-download-protection",
        "--disable-client-side-phishing-detection",
        "--simulate-outdated-no-au=\"Tue, 31 Dec 2099 23:59:59 GMT\"",
        "--disable-single-click-autofill",
        "--disable-password-generation",
        "--disable-save-password-bubble",
        "--user-agent=Mozilla/5.0 (X11; Linux x86_64) AppleWebKit/537.36 (KHTML, like Gecko) Chrome/146.0.0.0 Safari/537.36",
        "--disable-popup-blocking",
        "--disable-translate",
        "--disable-search-engine-choice-screen",
        "--enable-unsafe-extension-debugging",
        "--lang=en-US,en;q=0.9",
        "--disable-features=IsolateOrigins,site-per-process,Translate,InsecureDownloadWarnings,DownloadBubble,DownloadBubbleV2,OptimizationTargetPrediction,OptimizationGuideModelDownloading,SafeBrowsingEnhancedProtection,PrivacySandboxSettings4,AutofillEnableAccountWalletStorage",
        "--disable-background-timer-throttling",
        "--disable-backgrounding-occluded-windows",
        "--disable-renderer-backgrounding",
    ];
    assert_eq!(args(&ChromeConfig::default(), "linux", &Vec::new()), expected);
}

#[test]
fn configured_arguments() {
    let config = ChromeConfig {
        headless: true,
        proxy: Some("user:pa@ss@host:8080".to_string()),
        lang: Some("de-DE".to_string()),
        ..ChromeConfig::default()
    };
    let all = args(&config, "macos", &vec!["/x/one".to_string(), "/x/two".to_string()]);
    assert!(all.contains(&"--lang=de-DE".to_string()));
    assert!(all.iter().any(|a| a.starts_with("--user-agent=Mozilla/5.0 (Macintosh;")));
    let tail: Vec<&str> = all[all.len() - 4..].iter().map(|a| a.as_str()).collect();
    assert_eq!(
        tail,
        vec![
            "--headless=new",
            "--window-size=1920,1080",
            "--proxy-server=host:8080",
            "--load-extension=/x/one,/x/two"
        ]
    );
}

#[test]
fn user_agent_on_windows() {
    let all = args(&ChromeConfig::default(), "windows", &Vec::new());
    assert!(all.iter().any(|a| a.starts_with("--user-agent=Mozilla/5.0 (Windows NT 10.0;")));
}

#[test]
fn no_argument_comes_twice() {
    let mut caps =
        browser_capabilities(&ChromeConfig::default(), "linux", &Vec::new()).unwrap();
    let before = args_of(&caps).len();
    add_profile_arg(&mut caps, "/tmp/uc_x").unwrap();
    add_profile_arg(&mut caps, "/tmp/uc_x").unwrap();
    let after = args_of(&caps);
    assert_eq!(after.len(), before + 1);
    assert_eq!(after[before], "--user-data-dir=/tmp/uc_x");
}

#[test]
fn headless_only_where_configured() {
    let config = ChromeConfig { headless: true, ..ChromeConfig::default() };
    let wanted = "--headless=new".to_string();
    assert!(args(&config, "linux", &Vec::new()).contains(&wanted));
    assert!(!args(&ChromeConfig::default(), "linux", &Vec::new()).contains(&wanted));
}
