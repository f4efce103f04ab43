use serde_json::Value;
use undetected_chromedriver::download::{
    get_chrome_version, get_legacy_chrome_url, get_new_chrome_url, is_listed, lookup_url,
    version_command, MILESTONES_URL,
};
use undetected_chromedriver::error::ChromeError;

fn words<T>(r: Result<T, ChromeError>) -> String {
    match r {
        Err(ChromeError::Other(s)) => s,
        _ => panic!("no error in words"),
    }
}

fn milestones() -> Value {
    serde_json::from_str(r#"{"milestones": {"120": {"version": "120.0.6099.109"}, "121": {}}}"#)
        .unwrap()
}

#[test]
fn version_is_the_number_before_the_dot() {
    let out = b"Google Chrome 120.0.6099.109 \n".to_vec();
    assert_eq!(get_chrome_version(out).unwrap(), "120");
}

#[test]
fn version_keeps_every_digit_before_the_dot() {
    assert_eq!(get_chrome_version(b"v1 of 14".to_vec()).unwrap(), "114");
}

#[test]
fn output_without_digits_has_no_version() {
    let r = get_chrome_version(b"Google Chrome .120".to_vec());
    assert_eq!(words(r), "Could not determine Chrome version");
    assert_eq!(words(get_chrome_version(Vec::new())), "Could not determine Chrome version");
}

#[test]
fn output_that_is_not_text_is_refused() {
    assert!(matches!(get_chrome_version(vec![0xff, 0xfe]), Err(ChromeError::Utf8(_))));
}

#[test]
fn version_commands() {
    assert_eq!(version_command("linux").unwrap(), ("/usr/bin/google-chrome", vec!["--version"]));
    assert_eq!(
        version_command("macos").unwrap(),
        ("/Applications/Google Chrome.app/Contents/MacOS/Google Chrome", vec!["--version"])
    );
    assert_eq!(
        version_command("windows").unwrap(),
        (
            "powershell",
            vec![
                "-c",
                "(Get-Item 'C:/Program Files/Google/Chrome/Application/chrome.exe').VersionInfo"
            ]
        )
    );
    assert_eq!(words(version_command("plan9")), "Unsupported OS for Chrome version detection");
}

#[test]
fn versions_are_compared_as_numbers() {
    assert!(is_listed("114"));
    assert!(is_listed("120"));
    assert!(is_listed("1000"));
    assert!(!is_listed("113"));
    assert!(!is_listed("99"));
    assert!(!is_listed("0099"));
    assert!(is_listed("99999999999999999999999999"));
    assert!(!is_listed(""));
}

#[test]
fn old_and_new_versions_are_looked_up_in_different_places() {
    assert_eq!(lookup_url("114"), MILESTONES_URL);
    assert_eq!(
        lookup_url("113"),
        "https://chromedriver.storage.googleapis.com/LATEST_RELEASE_113"
    );
}

#[test]
fn listed_addresses() {
    let base = "https://storage.googleapis.com/chrome-for-testing-public/120.0.6099.109";
    let of = |os, arch| get_new_chrome_url(&milestones(), "120", os, arch).unwrap();
    assert_eq!(of("linux", "x86_64"), format!("{base}/linux64/chromedriver-linux64.zip"));
    assert_eq!(of("windows", "x86"), format!("{base}/win64/chromedriver-win64.zip"));
    assert_eq!(of("macos", "aarch64"), format!("{base}/mac-arm64/chromedriver-mac-arm64.zip"));
    assert_eq!(of("macos", "x86_64"), format!("{base}/mac-x64/chromedriver-mac-x64.zip"));
}

#[test]
fn missing_version_is_reported_before_the_platform() {
    let of = |version, os| words(get_new_chrome_url(&milestones(), version, os, "x86_64"));
    assert_eq!(of("119", "plan9"), "Version not found in milestone JSON");
    assert_eq!(of("121", "linux"), "Version not found in milestone JSON");
    assert_eq!(of("120", "plan9"), "Unsupported OS/arch combination");
}

#[test]
fn legacy_addresses() {
    let base = "https://chromedriver.storage.googleapis.com/113.0.5672.63";
    let of = |os, arch| get_legacy_chrome_url("113.0.5672.63", os, arch);
    assert_eq!(of("linux", "x86_64").unwrap(), format!("{base}/chromedriver_linux64.zip"));
    assert_eq!(of("windows", "x86").unwrap(), format!("{base}/chromedriver_win32.zip"));
    assert_eq!(of("macos", "x86_64").unwrap(), format!("{base}/chromedriver_mac64.zip"));
    assert_eq!(words(of("macos", "aarch64")), "macOS Apple Silicon + Chrome <114 unsupported");
    assert_eq!(words(of("plan9", "x86_64")), "Unsupported OS/arch combination");
}
