use undetected_chromedriver::config::{
    ad_block_patterns, browser_permissions, driver_name, patched_driver_name, ChromeConfig,
};
use undetected_chromedriver::error::{ChromeError, ChromeResult};
use undetected_chromedriver::proxy::{proxy_authorization, proxy_credentials, proxy_host_port};
use undetected_chromedriver::text::{
    contains_char, contains_text, integer_text, join, natural_text, same_text, text_after, text_before, text_of,
    text_past, trim,
};

#[test]
fn names_of_the_binaries() {
    assert_eq!(driver_name(false), "chromedriver");
    assert_eq!(driver_name(true), "chromedriver.exe");
    assert_eq!(patched_driver_name(false), "chromedriver_PATCHED");
    assert_eq!(patched_driver_name(true), "chromedriver_PATCHED.exe");
}

#[test]
fn default_configuration() {
    let config = ChromeConfig::default();
    assert!(!config.headless && !config.mobile && !config.ad_block && !config.disable_csp);
    assert!(config.mobile_metrics.is_none() && config.mobile_user_agent.is_none());
    assert!(config.proxy.is_none() && config.lang.is_none() && config.extensions.is_empty());
}

#[test]
fn lists_of_patterns_and_permissions() {
    let ads = ad_block_patterns();
    assert_eq!(ads.len(), 24);
    assert_eq!(ads[0], "*.googlesyndication.com*");
    assert_eq!(ads[23], "*.3lift.com*");
    let permissions = browser_permissions();
    assert_eq!(permissions.len(), 16);
    assert_eq!(permissions[4], "clipboardReadWrite");
}

#[test]
fn errors_from_outside() {
    let io = std::io::Error::new(std::io::ErrorKind::NotFound, "gone");
    assert!(matches!(ChromeError::from(io), ChromeError::Io(_)));
    let json = serde_json::from_str::<serde_json::Value>("{").unwrap_err();
    assert!(matches!(ChromeError::from(json), ChromeError::Json(_)));
    let utf8 = String::from_utf8(vec![0xff]).unwrap_err();
    assert!(matches!(ChromeError::from(utf8), ChromeError::Utf8(_)));
    let base64 = base64::DecodeError::InvalidLength(1);
    assert!(matches!(ChromeError::from(base64), ChromeError::Base64(_)));
    let zip = zip::result::ZipError::FileNotFound;
    assert!(matches!(ChromeError::from(zip), ChromeError::Zip(_)));
    let driver = thirtyfour::error::WebDriverError::ParseError("x".to_string());
    assert!(matches!(ChromeError::from(driver), ChromeError::WebDriver(_)));
    let http = reqwest::Client::new().get("no url").build().unwrap_err();
    assert!(matches!(ChromeError::from(http), ChromeError::Http(_)));
}

#[test]
fn errors_in_words() {
    let r: ChromeResult<()> = Err(ChromeError::from("words"));
    assert!(matches!(r, Err(ChromeError::Other(s)) if s == "words"));
    assert!(matches!(ChromeError::from("w".to_string()), ChromeError::Other(s) if s == "w"));
}

#[test]
fn words_are_the_text_of_an_error() {
    assert_eq!(ChromeError::from("words").message(), "words");
    assert_eq!(ChromeError::from("words".to_string()).message(), "words");
    assert_eq!(ChromeError::from("words").describe("more"), "words");
}

#[test]
fn errors_from_outside_say_what_they_are() {
    let io = std::io::Error::new(std::io::ErrorKind::NotFound, "gone");
    assert_eq!(ChromeError::from(io).message(), "IO error: gone");
    let json = serde_json::from_str::<serde_json::Value>("{").unwrap_err();
    let text = format!("JSON error: {json}");
    assert_eq!(ChromeError::from(json).message(), text);
    let utf8 = String::from_utf8(vec![0xff]).unwrap_err();
    let text = format!("UTF-8 decode error: {utf8}");
    assert_eq!(ChromeError::from(utf8).message(), text);
    let base64 = base64::DecodeError::InvalidLength(1);
    let text = format!("Base64 decode error: {base64}");
    assert_eq!(ChromeError::from(base64).message(), text);
    let zip = zip::result::ZipError::FileNotFound;
    let text = format!("ZIP extraction error: {zip}");
    assert_eq!(ChromeError::from(zip).message(), text);
    let driver = thirtyfour::error::WebDriverError::ParseError("x".to_string());
    let text = format!("WebDriver error: {driver}");
    assert_eq!(ChromeError::from(driver).message(), text);
    let http = reqwest::Client::new().get("no url").build().unwrap_err();
    let text = format!("HTTP request error: {http}");
    assert_eq!(ChromeError::from(http).message(), text);
}

#[test]
fn proxy_with_credentials() {
    let proxy = "user:pass@host:8080";
    assert_eq!(proxy_credentials(proxy), Some("user:pass".to_string()));
    assert_eq!(proxy_host_port(proxy), "host:8080");
}

#[test]
fn proxy_without_credentials() {
    assert_eq!(proxy_credentials("host:8080"), None);
    assert_eq!(proxy_host_port("host:8080"), "host:8080");
}

#[test]
fn proxy_with_two_ats() {
    assert_eq!(proxy_credentials("u:p@q@host:1"), Some("u:p".to_string()));
    assert_eq!(proxy_host_port("u:p@q@host:1"), "host:1");
    assert_eq!(proxy_credentials("@host"), Some(String::new()));
    assert_eq!(proxy_host_port("user@"), "");
}

#[test]
fn authorization_is_base64() {
    assert_eq!(proxy_authorization("user:pass"), "Basic dXNlcjpwYXNz");
    assert_eq!(proxy_authorization("\u{fc}"), "Basic w7w=");
    assert_eq!(proxy_authorization(""), "Basic ");
}

#[test]
fn cutting_texts() {
    assert_eq!(text_before("a.b.c", '.'), "a");
    assert_eq!(text_past("a.b.c", '.'), "b.c");
    assert_eq!(text_after("a.b.c", '.'), "c");
    assert_eq!(text_before("abc", '.'), "abc");
    assert_eq!(text_past("abc", '.'), "");
    assert_eq!(text_after("abc", '.'), "abc");
    assert!(contains_char("a.b", '.'));
    assert!(!contains_char("", '.'));
    assert!(same_text("\u{e9}", "\u{e9}"));
    assert!(!same_text("a", "A"));
}

#[test]
fn searching_texts() {
    assert!(contains_text("hello", ""));
    assert!(contains_text("", ""));
    assert!(contains_text("hello", "hello"));
    assert!(contains_text("aab\u{e9}", "ab\u{e9}"));
    assert!(contains_text("aaab", "aab"));
    assert!(!contains_text("hell", "hello"));
    assert!(!contains_text("hello", "hl"));
}

#[test]
fn trimming_takes_every_kind_of_whitespace() {
    assert_eq!(text_of(&trim(" \t\u{a0}\u{3000}a b\n")), "a b");
    assert_eq!(text_of(&trim(" \n ")), "");
    for n in 0..0x11000u32 {
        if let Some(c) = char::from_u32(n) {
            assert_eq!(trim(&c.to_string()).is_empty(), c.is_whitespace());
        }
    }
}

#[test]
fn numbers_in_decimal() {
    assert_eq!(natural_text(0), "0");
    assert_eq!(natural_text(u64::MAX), u64::MAX.to_string());
    assert_eq!(integer_text(-7), "-7");
    assert_eq!(integer_text(i64::MIN), i64::MIN.to_string());
    assert_eq!(integer_text(1000), "1000");
}

#[test]
fn joining() {
    let list = vec!["a".to_string(), String::new(), "c".to_string()];
    assert_eq!(join(&list, ","), "a,,c");
    assert_eq!(join(&Vec::new(), ","), "");
}
