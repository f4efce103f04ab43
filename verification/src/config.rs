//! Configuration types and constants for the undetected chromedriver.

use vstd::prelude::*;
use vstd::string::*;

use serde_json::Value;

use crate::text::texts;

verus! {

/// The chromedriver binary's name on a platform.
pub open spec fn driver_file(windows: bool) -> Seq<char> {
    if windows {
        "chromedriver.exe"@
    } else {
        "chromedriver"@
    }
}

/// The patched binary's name on a platform.
pub open spec fn patched_driver_file(windows: bool) -> Seq<char> {
    if windows {
        "chromedriver_PATCHED.exe"@
    } else {
        "chromedriver_PATCHED"@
    }
}

/// Platform-specific chromedriver binary name.
pub fn driver_name(windows: bool) -> (r: &'static str)
    ensures
        r@ == driver_file(windows),
{
    if windows {
        "chromedriver.exe"
    } else {
        "chromedriver"
    }
}

/// Platform-specific patched binary name.
pub fn patched_driver_name(windows: bool) -> (r: &'static str)
    ensures
        r@ == patched_driver_file(windows),
{
    if windows {
        "chromedriver_PATCHED.exe"
    } else {
        "chromedriver_PATCHED"
    }
}

/// The ad and tracker patterns, in order.
pub open spec fn ad_block_list() -> Seq<Seq<char>> {
    seq![
        "*.googlesyndication.com*"@,
        "*.googletagmanager.com*"@,
        "*.google-analytics.com*"@,
        "*.amazon-adsystem.com*"@,
        "*.adsafeprotected.com*"@,
        "*.doubleclick.net*"@,
        "*.fastclick.net*"@,
        "*.snigelweb.com*"@,
        "*.2mdn.net*"@,
        "*.casalemedia.com*"@,
        "*.admanmedia.com*"@,
        "*.quantserve.com*"@,
        "*.bidswitch.net*"@,
        "*.360yield.com*"@,
        "*.adthrive.com*"@,
        "*.pubmatic.com*"@,
        "*.id5-sync.com*"@,
        "*.moatads.com*"@,
        "*.dotomi.com*"@,
        "*.adsrvr.org*"@,
        "*.adnxs.com*"@,
        "*.openx.net*"@,
        "*.tapad.com*"@,
        "*.3lift.com*"@,
    ]
}

/// Ad/tracker URL patterns blocked via `Network.setBlockedURLs`.
pub fn ad_block_patterns() -> (r: Vec<String>)
    ensures
        texts(r@) == ad_block_list(),
{
    vec![
        "*.googlesyndication.com*".to_string(),
        "*.googletagmanager.com*".to_string(),
        "*.google-analytics.com*".to_string(),
        "*.amazon-adsystem.com*".to_string(),
        "*.adsafeprotected.com*".to_string(),
        "*.doubleclick.net*".to_string(),
        "*.fastclick.net*".to_string(),
        "*.snigelweb.com*".to_string(),
        "*.2mdn.net*".to_string(),
        "*.casalemedia.com*".to_string(),
        "*.admanmedia.com*".to_string(),
        "*.quantserve.com*".to_string(),
        "*.bidswitch.net*".to_string(),
        "*.360yield.com*".to_string(),
        "*.adthrive.com*".to_string(),
        "*.pubmatic.com*".to_string(),
        "*.id5-sync.com*".to_string(),
        "*.moatads.com*".to_string(),
        "*.dotomi.com*".to_string(),
        "*.adsrvr.org*".to_string(),
        "*.adnxs.com*".to_string(),
        "*.openx.net*".to_string(),
        "*.tapad.com*".to_string(),
        "*.3lift.com*".to_string(),
    ]
}

/// The permissions, in order.
pub open spec fn permission_list() -> Seq<Seq<char>> {
    seq![
        "geolocation"@,
        "notifications"@,
        "audioCapture"@,
        "videoCapture"@,
        "clipboardReadWrite"@,
        "clipboardSanitizedWrite"@,
        "midi"@,
        "midiSysex"@,
        "sensors"@,
        "backgroundSync"@,
        "backgroundFetch"@,
        "nfc"@,
        "displayCapture"@,
        "storageAccess"@,
        "protectedMediaIdentifier"@,
        "idleDetection"@,
    ]
}

/// Browser permission names granted by default so prompts never appear.
/// Ref: <https://chromedevtools.github.io/devtools-protocol/tot/Browser/#method-grantPermissions>
pub fn browser_permissions() -> (r: Vec<String>)
    ensures
        texts(r@) == permission_list(),
{
    vec![
        "geolocation".to_string(),
        "notifications".to_string(),
        "audioCapture".to_string(),
        "videoCapture".to_string(),
        "clipboardReadWrite".to_string(),
        "clipboardSanitizedWrite".to_string(),
        "midi".to_string(),
        "midiSysex".to_string(),
        "sensors".to_string(),
        "backgroundSync".to_string(),
        "backgroundFetch".to_string(),
        "nfc".to_string(),
        "displayCapture".to_string(),
        "storageAccess".to_string(),
        "protectedMediaIdentifier".to_string(),
        "idleDetection".to_string(),
    ]
}

/// Builder-style configuration of a browser session.
#[derive(Debug, Clone)]
pub struct ChromeConfig {
    /// Run in `--headless=new` mode (Chrome 112 and later).
    pub headless: bool,
    /// Enable mobile device emulation. Default metrics: 412 by 732 at three device pixels each.
    pub mobile: bool,
    /// Override mobile metrics: `(css_width, css_height, pixel_ratio)`, the ratio as a JSON
    /// number.
    pub mobile_metrics: Option<(u32, u32, Value)>,
    /// Override mobile user-agent string.
    pub mobile_user_agent: Option<String>,
    /// Block ad/tracker URLs via `Network.setBlockedURLs` on startup.
    pub ad_block: bool,
    /// Bypass Content Security Policy (`Page.setBypassCSP`).
    pub disable_csp: bool,
    /// Proxy: `"host:port"` or `"user:pass@host:port"`.
    pub proxy: Option<String>,
    /// Language locale, e.g. `"en-US"`.
    pub lang: Option<String>,
    /// Paths to unpacked extension dirs loaded via `--load-extension`.
    pub extensions: Vec<String>,
}

/// A configuration that asks for nothing.
pub open spec fn asks_for_nothing(config: ChromeConfig) -> bool {
    &&& !config.headless && !config.mobile && !config.ad_block && !config.disable_csp
    &&& config.mobile_metrics is None && config.mobile_user_agent is None
    &&& config.proxy is None && config.lang is None
    &&& config.extensions@ == Seq::<String>::empty()
}

impl Default for ChromeConfig {
    fn default() -> (r: Self)
        ensures
            asks_for_nothing(r),
            !r.headless && !r.mobile && !r.ad_block && !r.disable_csp,
            r.mobile_metrics is None && r.mobile_user_agent is None,
            r.proxy is None && r.lang is None && r.extensions@.len() == 0,
    {
        ChromeConfig {
            headless: false,
            mobile: false,
            mobile_metrics: None,
            mobile_user_agent: None,
            ad_block: false,
            disable_csp: false,
            proxy: None,
            lang: None,
            extensions: Vec::new(),
        }
    }
}

/// Law: every ad network and tracker of the list is blocked, each by a pattern of its own that
/// takes its subdomains and all their pages.
pub proof fn law_ads_are_blocked()
    ensures
        ad_block_list().len() == 24,
        ad_block_list().contains("*.googlesyndication.com*"@),
        ad_block_list().contains("*.googletagmanager.com*"@),
        ad_block_list().contains("*.google-analytics.com*"@),
        ad_block_list().contains("*.amazon-adsystem.com*"@),
        ad_block_list().contains("*.adsafeprotected.com*"@),
        ad_block_list().contains("*.doubleclick.net*"@),
        ad_block_list().contains("*.fastclick.net*"@),
        ad_block_list().contains("*.snigelweb.com*"@),
        ad_block_list().contains("*.2mdn.net*"@),
        ad_block_list().contains("*.casalemedia.com*"@),
        ad_block_list().contains("*.admanmedia.com*"@),
        ad_block_list().contains("*.quantserve.com*"@),
        ad_block_list().contains("*.bidswitch.net*"@),
        ad_block_list().contains("*.360yield.com*"@),
        ad_block_list().contains("*.adthrive.com*"@),
        ad_block_list().contains("*.pubmatic.com*"@),
        ad_block_list().contains("*.id5-sync.com*"@),
        ad_block_list().contains("*.moatads.com*"@),
        ad_block_list().contains("*.dotomi.com*"@),
        ad_block_list().contains("*.adsrvr.org*"@),
        ad_block_list().contains("*.adnxs.com*"@),
        ad_block_list().contains("*.openx.net*"@),
        ad_block_list().contains("*.tapad.com*"@),
        ad_block_list().contains("*.3lift.com*"@),
{
    let all = ad_block_list();
    assert(all.contains(all[0]));
    assert(all.contains(all[1]));
    assert(all.contains(all[2]));
    assert(all.contains(all[3]));
    assert(all.contains(all[4]));
    assert(all.contains(all[5]));
    assert(all.contains(all[6]));
    assert(all.contains(all[7]));
    assert(all.contains(all[8]));
    assert(all.contains(all[9]));
    assert(all.contains(all[10]));
    assert(all.contains(all[11]));
    assert(all.contains(all[12]));
    assert(all.contains(all[13]));
    assert(all.contains(all[14]));
    assert(all.contains(all[15]));
    assert(all.contains(all[16]));
    assert(all.contains(all[17]));
    assert(all.contains(all[18]));
    assert(all.contains(all[19]));
    assert(all.contains(all[20]));
    assert(all.contains(all[21]));
    assert(all.contains(all[22]));
    assert(all.contains(all[23]));
}

/// Law: every prompt of the list is kept from appearing.
pub proof fn law_prompts_are_granted()
    ensures
        permission_list().len() == 16,
        permission_list().contains("geolocation"@),
        permission_list().contains("notifications"@),
        permission_list().contains("audioCapture"@),
        permission_list().contains("videoCapture"@),
        permission_list().contains("clipboardReadWrite"@),
        permission_list().contains("clipboardSanitizedWrite"@),
        permission_list().contains("midi"@),
        permission_list().contains("midiSysex"@),
        permission_list().contains("sensors"@),
        permission_list().contains("backgroundSync"@),
        permission_list().contains("backgroundFetch"@),
        permission_list().contains("nfc"@),
        permission_list().contains("displayCapture"@),
        permission_list().contains("storageAccess"@),
        permission_list().contains("protectedMediaIdentifier"@),
        permission_list().contains("idleDetection"@),
{
    let all = permission_list();
    assert(all.contains(all[0]));
    assert(all.contains(all[1]));
    assert(all.contains(all[2]));
    assert(all.contains(all[3]));
    assert(all.contains(all[4]));
    assert(all.contains(all[5]));
    assert(all.contains(all[6]));
    assert(all.contains(all[7]));
    assert(all.contains(all[8]));
    assert(all.contains(all[9]));
    assert(all.contains(all[10]));
    assert(all.contains(all[11]));
    assert(all.contains(all[12]));
    assert(all.contains(all[13]));
    assert(all.contains(all[14]));
    assert(all.contains(all[15]));
}

/// Law: on Windows a binary's name ends with `.exe`, and elsewhere it does not; the patched binary
/// is never the binary that was downloaded.
pub proof fn law_driver_files(windows: bool)
    ensures
        driver_file(false) == "chromedriver"@,
        driver_file(true) == driver_file(false) + ".exe"@,
        patched_driver_file(false) == driver_file(false) + "_PATCHED"@,
        patched_driver_file(true) == patched_driver_file(false) + ".exe"@,
        patched_driver_file(windows) != driver_file(windows),
{
    reveal_strlit("chromedriver");
    reveal_strlit("chromedriver.exe");
    reveal_strlit("chromedriver_PATCHED");
    reveal_strlit("chromedriver_PATCHED.exe");
    reveal_strlit(".exe");
    reveal_strlit("_PATCHED");
    assert(driver_file(true) =~= driver_file(false) + ".exe"@);
    assert(patched_driver_file(false) =~= driver_file(false) + "_PATCHED"@);
    assert(patched_driver_file(true) =~= patched_driver_file(false) + ".exe"@);
    assert(patched_driver_file(windows).len() != driver_file(windows).len());
}

} // verus!
