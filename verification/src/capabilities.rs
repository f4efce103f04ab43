//! The command-line arguments that the browser is started with.

use vstd::prelude::*;
use vstd::string::*;

use thirtyfour::error::WebDriverError;
use thirtyfour::{ChromeCapabilities, ChromiumLikeCapabilities, DesiredCapabilities};

use crate::config::ChromeConfig;
use crate::error::ChromeError;
use crate::proxy::host_port;
use crate::proxy::{law_host_behind_the_at, law_host_port_has_no_credentials};
use crate::proxy::proxy_host_port;
use crate::text::{join, same_text};
use crate::text::{joined, law_joined, texts};

verus! {

/// Declares `thirtyfour::ChromeCapabilities`; what a value holds is known through `chrome_args` alone.
#[verifier::external_type_specification]
#[verifier::external_body]
pub struct ExChromeCapabilities(thirtyfour::ChromeCapabilities);

/// The command-line arguments that capabilities hold, in order: what their `args` method returns.
pub uninterp spec fn chrome_args(caps: ChromeCapabilities) -> Seq<Seq<char>>;

/// The arguments with one more at the end, unless it is there already.
pub open spec fn with_arg(args: Seq<Seq<char>>, arg: Seq<char>) -> Seq<Seq<char>> {
    if args.contains(arg) {
        args
    } else {
        args.push(arg)
    }
}

/// The arguments with those of a list, added one after the other.
pub open spec fn with_args(args: Seq<Seq<char>>, list: Seq<Seq<char>>) -> Seq<Seq<char>>
    decreases list.len(),
{
    if list.len() == 0 {
        args
    } else {
        with_arg(with_args(args, list.drop_last()), list.last())
    }
}

// ─── Trusted: capabilities of `thirtyfour` ───────────────────────────────────

/// Trusted: `DesiredCapabilities::chrome` holds no arguments.
#[verifier::external_body]
fn chrome_capabilities() -> (r: ChromeCapabilities)
    ensures
        chrome_args(r) == Seq::<Seq<char>>::empty(),
{
    DesiredCapabilities::chrome()
}

/// Trusted: `ChromiumLikeCapabilities::add_arg` adds the argument at the end unless it is there
/// already, and does not fail.
#[verifier::external_body]
fn add_arg(caps: &mut ChromeCapabilities, arg: &str) -> (r: Result<(), WebDriverError>)
    ensures
        r is Ok,
        chrome_args(*final(caps)) == with_arg(chrome_args(*old(caps)), arg@),
{
    caps.add_arg(arg)
}

/// Trusted: `ChromiumLikeCapabilities::set_no_sandbox` adds the argument `--no-sandbox`.
#[verifier::external_body]
fn set_no_sandbox(caps: &mut ChromeCapabilities) -> (r: Result<(), WebDriverError>)
    ensures
        r is Ok,
        chrome_args(*final(caps)) == with_arg(chrome_args(*old(caps)), "--no-sandbox"@),
{
    caps.set_no_sandbox()
}

/// Trusted: `ChromiumLikeCapabilities::set_disable_dev_shm_usage` adds the argument
/// `--disable-dev-shm-usage`.
#[verifier::external_body]
fn set_disable_dev_shm_usage(caps: &mut ChromeCapabilities) -> (r: Result<(), WebDriverError>)
    ensures
        r is Ok,
        chrome_args(*final(caps)) == with_arg(chrome_args(*old(caps)), "--disable-dev-shm-usage"@),
{
    caps.set_disable_dev_shm_usage()
}

// ─── Groups of arguments ─────────────────────────────────────────────────────

/// Add the arguments of a list, one after the other.
fn add_all(caps: &mut ChromeCapabilities, list: &Vec<String>) -> (r: Result<(), ChromeError>)
    ensures
        r is Ok,
        chrome_args(*final(caps)) == with_args(chrome_args(*old(caps)), texts(list@)),
{
    let ghost before = chrome_args(*caps);
    let ghost all = texts(list@);
    let mut i: usize = 0;
    while i < list.len()
        invariant
            i <= list.len(),
            all == texts(list@),
            chrome_args(*caps) == with_args(before, all.take(i as int)),
        decreases list.len() - i,
    {
        proof {
            assert(all.take(i + 1).drop_last() =~= all.take(i as int));
            assert(all.take(i + 1).last() == list@[i as int]@);
        }
        match add_arg(caps, list[i].as_str()) {
            Ok(_) => {},
            Err(e) => {
                return Err(ChromeError::from(e));
            },
        }
        i = i + 1;
    }
    assert(all.take(i as int) =~= all);
    Ok(())
}

/// Arguments that hide automation and stop the browser from phoning home.
pub open spec fn stealth_args() -> Seq<Seq<char>> {
    seq!["--no-sandbox"@, "--disable-dev-shm-usage"@] + quiet_args()
}

/// The stealth arguments that have no method of their own.
pub open spec fn quiet_args() -> Seq<Seq<char>> {
    seq![
        "--disable-blink-features=AutomationControlled"@,
        "window-size=960,540"@,
        "--disable-infobars"@,
        "--no-default-browser-check"@,
        "--no-first-run"@,
        "--no-service-autorun"@,
        "--password-store=basic"@,
        "--profile-directory=Default"@,
        "--no-pings"@,
        "--homepage=about:blank"@,
        "--safebrowsing-disable-download-protection"@,
        "--disable-client-side-phishing-detection"@,
        "--simulate-outdated-no-au=\"Tue, 31 Dec 2099 23:59:59 GMT\""@,
        "--disable-single-click-autofill"@,
        "--disable-password-generation"@,
        "--disable-save-password-bubble"@,
    ]
}

/// Add the arguments that hide automation and stop the browser from phoning home.
pub fn add_stealth_args(caps: &mut ChromeCapabilities) -> (r: Result<(), ChromeError>)
    ensures
        r is Ok,
        chrome_args(*final(caps)) == with_args(chrome_args(*old(caps)), stealth_args()),
{
    let ghost before = chrome_args(*caps);
    match set_no_sandbox(caps) {
        Ok(_) => {},
        Err(e) => {
            return Err(ChromeError::from(e));
        },
    }
    match set_disable_dev_shm_usage(caps) {
        Ok(_) => {},
        Err(e) => {
            return Err(ChromeError::from(e));
        },
    }
    let list = vec![
        "--disable-blink-features=AutomationControlled".to_string(),
        "window-size=960,540".to_string(),
        "--disable-infobars".to_string(),
        "--no-default-browser-check".to_string(),
        "--no-first-run".to_string(),
        "--no-service-autorun".to_string(),
        "--password-store=basic".to_string(),
        "--profile-directory=Default".to_string(),
        "--no-pings".to_string(),
        "--homepage=about:blank".to_string(),
        "--safebrowsing-disable-download-protection".to_string(),
        "--disable-client-side-phishing-detection".to_string(),
        "--simulate-outdated-no-au=\"Tue, 31 Dec 2099 23:59:59 GMT\"".to_string(),
        "--disable-single-click-autofill".to_string(),
        "--disable-password-generation".to_string(),
        "--disable-save-password-bubble".to_string(),
    ];
    proof {
        assert(texts(list@) =~= quiet_args());
        let two = seq!["--no-sandbox"@, "--disable-dev-shm-usage"@];
        lemma_with_two(before, two[0], two[1]);
        assert(two =~= seq![two[0], two[1]]);
        lemma_with_args_add(before, two, quiet_args());
    }
    add_all(caps, &list)
}

/// The user agent that the browser shows on an operating system.
pub open spec fn desktop_user_agent(os: Seq<char>) -> Seq<char> {
    if os == "windows"@ {
        "Mozilla/5.0 (Windows NT 10.0; Win64; x64) AppleWebKit/537.36 (KHTML, like Gecko) Chrome/146.0.0.0 Safari/537.36"@
    } else if os == "macos"@ {
        "Mozilla/5.0 (Macintosh; Intel Mac OS X 10_15_7) AppleWebKit/537.36 (KHTML, like Gecko) Chrome/146.0.0.0 Safari/537.36"@
    } else {
        "Mozilla/5.0 (X11; Linux x86_64) AppleWebKit/537.36 (KHTML, like Gecko) Chrome/146.0.0.0 Safari/537.36"@
    }
}

/// The user agent that the browser shows on an operating system.
fn user_agent_for(os: &str) -> (r: &'static str)
    ensures
        r@ == desktop_user_agent(os@),
{
    if same_text(os, "windows") {
        "Mozilla/5.0 (Windows NT 10.0; Win64; x64) AppleWebKit/537.36 (KHTML, like Gecko) Chrome/146.0.0.0 Safari/537.36"
    } else if same_text(os, "macos") {
        "Mozilla/5.0 (Macintosh; Intel Mac OS X 10_15_7) AppleWebKit/537.36 (KHTML, like Gecko) Chrome/146.0.0.0 Safari/537.36"
    } else {
        "Mozilla/5.0 (X11; Linux x86_64) AppleWebKit/537.36 (KHTML, like Gecko) Chrome/146.0.0.0 Safari/537.36"
    }
}

/// Add one argument that has a value.
fn add_valued(caps: &mut ChromeCapabilities, name: &str, value: &str) -> (r: Result<
    (),
    ChromeError,
>)
    ensures
        r is Ok,
        chrome_args(*final(caps)) == with_args(chrome_args(*old(caps)), seq![name@ + value@]),
{
    let ghost before = chrome_args(*caps);
    let mut arg: String = name.to_string();
    arg.append(value);
    proof {
        lemma_with_one(before, arg@);
    }
    match add_arg(caps, arg.as_str()) {
        Ok(_) => Ok(()),
        Err(e) => Err(ChromeError::from(e)),
    }
}

/// The argument that sets the user agent.
pub open spec fn user_agent_args(os: Seq<char>) -> Seq<Seq<char>> {
    seq!["--user-agent="@ + desktop_user_agent(os)]
}

/// Add the argument that sets the user agent; `os` names the operating system.
pub fn add_user_agent_arg(caps: &mut ChromeCapabilities, os: &str) -> (r: Result<(), ChromeError>)
    ensures
        r is Ok,
        chrome_args(*final(caps)) == with_args(chrome_args(*old(caps)), user_agent_args(os@)),
{
    add_valued(caps, "--user-agent=", user_agent_for(os))
}

/// Arguments that keep the browser from asking and offering.
pub open spec fn ui_suppression_args() -> Seq<Seq<char>> {
    seq![
        "--disable-popup-blocking"@,
        "--disable-translate"@,
        "--disable-search-engine-choice-screen"@,
        "--enable-unsafe-extension-debugging"@,
    ]
}

/// Add the arguments that keep the browser from asking and offering.
pub fn add_ui_suppression_args(caps: &mut ChromeCapabilities) -> (r: Result<(), ChromeError>)
    ensures
        r is Ok,
        chrome_args(*final(caps)) == with_args(chrome_args(*old(caps)), ui_suppression_args()),
{
    let list = vec![
        "--disable-popup-blocking".to_string(),
        "--disable-translate".to_string(),
        "--disable-search-engine-choice-screen".to_string(),
        "--enable-unsafe-extension-debugging".to_string(),
    ];
    assert(texts(list@) =~= ui_suppression_args());
    add_all(caps, &list)
}

/// The argument that sets the language: the configured one, or English.
pub open spec fn language_args(lang: Option<String>) -> Seq<Seq<char>> {
    seq![
        "--lang="@ + (match lang {
            Some(s) => s@,
            None => "en-US,en;q=0.9"@,
        }),
    ]
}

/// Add the argument that sets the language.
pub fn add_language_arg(caps: &mut ChromeCapabilities, config: &ChromeConfig) -> (r: Result<
    (),
    ChromeError,
>)
    ensures
        r is Ok,
        chrome_args(*final(caps)) == with_args(
            chrome_args(*old(caps)),
            language_args(config.lang),
        ),
{
    match &config.lang {
        Some(lang) => add_valued(caps, "--lang=", lang.as_str()),
        None => add_valued(caps, "--lang=", "en-US,en;q=0.9"),
    }
}

/// The argument that turns off features which give automation away.
pub open spec fn disable_features_args() -> Seq<Seq<char>> {
    seq![
        "--disable-features=IsolateOrigins,site-per-process,Translate,InsecureDownloadWarnings,DownloadBubble,DownloadBubbleV2,OptimizationTargetPrediction,OptimizationGuideModelDownloading,SafeBrowsingEnhancedProtection,PrivacySandboxSettings4,AutofillEnableAccountWalletStorage"@,
    ]
}

/// Add the argument that turns off features which give automation away.
pub fn add_disable_features_arg(caps: &mut ChromeCapabilities) -> (r: Result<(), ChromeError>)
    ensures
        r is Ok,
        chrome_args(*final(caps)) == with_args(chrome_args(*old(caps)), disable_features_args()),
{
    let list = vec![
        "--disable-features=IsolateOrigins,site-per-process,Translate,InsecureDownloadWarnings,DownloadBubble,DownloadBubbleV2,OptimizationTargetPrediction,OptimizationGuideModelDownloading,SafeBrowsingEnhancedProtection,PrivacySandboxSettings4,AutofillEnableAccountWalletStorage".to_string(),
    ];
    assert(texts(list@) =~= disable_features_args());
    add_all(caps, &list)
}

/// Arguments that keep pages in the background running at full speed.
pub open spec fn anti_throttling_args() -> Seq<Seq<char>> {
    seq![
        "--disable-background-timer-throttling"@,
        "--disable-backgrounding-occluded-windows"@,
        "--disable-renderer-backgrounding"@,
    ]
}

/// Add the arguments that keep pages in the background running at full speed.
pub fn add_anti_throttling_args(caps: &mut ChromeCapabilities) -> (r: Result<(), ChromeError>)
    ensures
        r is Ok,
        chrome_args(*final(caps)) == with_args(chrome_args(*old(caps)), anti_throttling_args()),
{
    let list = vec![
        "--disable-background-timer-throttling".to_string(),
        "--disable-backgrounding-occluded-windows".to_string(),
        "--disable-renderer-backgrounding".to_string(),
    ];
    assert(texts(list@) =~= anti_throttling_args());
    add_all(caps, &list)
}

/// Arguments of a browser without a window.
pub open spec fn headless_args(headless: bool) -> Seq<Seq<char>> {
    if headless {
        seq!["--headless=new"@, "--window-size=1920,1080"@]
    } else {
        Seq::empty()
    }
}

/// Add the arguments of a browser without a window, where it is configured to have none.
pub fn add_headless_args(caps: &mut ChromeCapabilities, config: &ChromeConfig) -> (r: Result<
    (),
    ChromeError,
>)
    ensures
        r is Ok,
        chrome_args(*final(caps)) == with_args(
            chrome_args(*old(caps)),
            headless_args(config.headless),
        ),
{
    if config.headless {
        let list = vec!["--headless=new".to_string(), "--window-size=1920,1080".to_string()];
        assert(texts(list@) =~= headless_args(config.headless));
        add_all(caps, &list)
    } else {
        Ok(())
    }
}

/// The argument that names the proxy, without its credentials.
pub open spec fn proxy_args(proxy: Option<String>) -> Seq<Seq<char>> {
    match proxy {
        Some(p) => seq!["--proxy-server="@ + host_port(p@)],
        None => Seq::empty(),
    }
}

/// Add the argument that names the proxy, where one is configured.
pub fn add_proxy_arg(caps: &mut ChromeCapabilities, config: &ChromeConfig) -> (r: Result<
    (),
    ChromeError,
>)
    ensures
        r is Ok,
        chrome_args(*final(caps)) == with_args(chrome_args(*old(caps)), proxy_args(config.proxy)),
{
    match &config.proxy {
        Some(proxy) => {
            let address: String = proxy_host_port(proxy.as_str());
            add_valued(caps, "--proxy-server=", address.as_str())
        },
        None => Ok(()),
    }
}

/// The argument that loads extensions from their directories.
pub open spec fn extension_args(paths: Seq<Seq<char>>) -> Seq<Seq<char>> {
    if paths.len() > 0 {
        seq!["--load-extension="@ + joined(paths, ","@)]
    } else {
        Seq::empty()
    }
}

/// Add the argument that loads extensions from their directories, where there are any.
pub fn add_extension_args(caps: &mut ChromeCapabilities, paths: &Vec<String>) -> (r: Result<
    (),
    ChromeError,
>)
    ensures
        r is Ok,
        chrome_args(*final(caps)) == with_args(
            chrome_args(*old(caps)),
            extension_args(texts(paths@)),
        ),
{
    if paths.len() > 0 {
        let list: String = join(paths, ",");
        add_valued(caps, "--load-extension=", list.as_str())
    } else {
        Ok(())
    }
}

/// The argument that names the directory of the profile.
pub open spec fn profile_args(path: Seq<char>) -> Seq<Seq<char>> {
    seq!["--user-data-dir="@ + path]
}

/// Add the argument that names the directory of the profile.
pub fn add_profile_arg(caps: &mut ChromeCapabilities, path: &str) -> (r: Result<(), ChromeError>)
    ensures
        r is Ok,
        chrome_args(*final(caps)) == with_args(chrome_args(*old(caps)), profile_args(path@)),
{
    add_valued(caps, "--user-data-dir=", path)
}

// ─── All arguments ───────────────────────────────────────────────────────────

/// Everything that the browser is started with, in order: `os` names the operating system,
/// `paths` are the directories of the extensions.
pub open spec fn wanted_args(
    config: ChromeConfig,
    os: Seq<char>,
    paths: Seq<Seq<char>>,
) -> Seq<Seq<char>> {
    stealth_args() + user_agent_args(os) + ui_suppression_args() + language_args(config.lang)
        + disable_features_args() + anti_throttling_args() + headless_args(config.headless)
        + proxy_args(config.proxy) + extension_args(paths)
}

/// The capabilities that a session is asked for, but for the profile.
pub fn browser_capabilities(config: &ChromeConfig, os: &str, paths: &Vec<String>) -> (r: Result<
    ChromeCapabilities,
    ChromeError,
>)
    ensures
        r is Ok,
        r matches Ok(caps) ==> chrome_args(caps) == with_args(
            Seq::empty(),
            wanted_args(*config, os@, texts(paths@)),
        ),
{
    let mut caps = chrome_capabilities();
    let ghost g1 = stealth_args();
    let ghost g2 = g1 + user_agent_args(os@);
    let ghost g3 = g2 + ui_suppression_args();
    let ghost g4 = g3 + language_args(config.lang);
    let ghost g5 = g4 + disable_features_args();
    let ghost g6 = g5 + anti_throttling_args();
    let ghost g7 = g6 + headless_args(config.headless);
    let ghost g8 = g7 + proxy_args(config.proxy);
    proof {
        let none = Seq::<Seq<char>>::empty();
        lemma_with_args_add(none, g1, user_agent_args(os@));
        lemma_with_args_add(none, g2, ui_suppression_args());
        lemma_with_args_add(none, g3, language_args(config.lang));
        lemma_with_args_add(none, g4, disable_features_args());
        lemma_with_args_add(none, g5, anti_throttling_args());
        lemma_with_args_add(none, g6, headless_args(config.headless));
        lemma_with_args_add(none, g7, proxy_args(config.proxy));
        lemma_with_args_add(none, g8, extension_args(texts(paths@)));
    }
    add_stealth_args(&mut caps)?;
    add_user_agent_arg(&mut caps, os)?;
    add_ui_suppression_args(&mut caps)?;
    add_language_arg(&mut caps, config)?;
    add_disable_features_arg(&mut caps)?;
    add_anti_throttling_args(&mut caps)?;
    add_headless_args(&mut caps, config)?;
    add_proxy_arg(&mut caps, config)?;
    add_extension_args(&mut caps, paths)?;
    Ok(caps)
}

// ─── Laws of arguments ───────────────────────────────────────────────────────

/// Adding a list of one is adding it.
proof fn lemma_with_one(args: Seq<Seq<char>>, arg: Seq<char>)
    ensures
        with_args(args, seq![arg]) == with_arg(args, arg),
{
    let one = seq![arg];
    assert(one.drop_last() =~= Seq::<Seq<char>>::empty());
    assert(with_args(args, one.drop_last()) == args);
}

/// Adding a list of two is adding the first, and the second.
proof fn lemma_with_two(args: Seq<Seq<char>>, first: Seq<char>, second: Seq<char>)
    ensures
        with_args(args, seq![first, second]) == with_arg(with_arg(args, first), second),
{
    let two = seq![first, second];
    assert(two.drop_last() =~= seq![first]);
    lemma_with_one(args, first);
}

/// Adding two lists one after the other is adding both in a row.
pub proof fn lemma_with_args_add(
    args: Seq<Seq<char>>,
    first: Seq<Seq<char>>,
    second: Seq<Seq<char>>,
)
    ensures
        with_args(args, first + second) == with_args(with_args(args, first), second),
    decreases second.len(),
{
    if second.len() == 0 {
        assert(first + second =~= first);
    } else {
        lemma_with_args_add(args, first, second.drop_last());
        assert((first + second).drop_last() =~= first + second.drop_last());
        assert((first + second).last() == second.last());
    }
}

/// Law: what is added is there, what was there stays in its place, nothing else comes in, and
/// nothing comes twice.
pub proof fn law_with_args(args: Seq<Seq<char>>, list: Seq<Seq<char>>)
    ensures
        args.is_prefix_of(with_args(args, list)),
        forall|a: Seq<char>|
            #[trigger] with_args(args, list).contains(a) <==> args.contains(a) || list.contains(a),
        args.no_duplicates() ==> with_args(args, list).no_duplicates(),
    decreases list.len(),
{
    if list.len() > 0 {
        let front = list.drop_last();
        law_with_args(args, front);
        let before = with_args(args, front);
        let after = with_args(args, list);
        let last = list.last();
        assert forall|a: Seq<char>| #[trigger] after.contains(a) <==> args.contains(a)
            || list.contains(a) by {
            assert(list =~= front.push(last));
            lemma_push_contains(front, last, a);
            lemma_push_contains(before, last, a);
            assert(before.contains(a) <==> args.contains(a) || front.contains(a));
        }
        if args.no_duplicates() && !before.contains(last) {
            assert forall|i: int, j: int| 0 <= i < after.len() && 0 <= j < after.len() && i
                != j implies after[i] != after[j] by {
                if i == before.len() {
                    assert(before.contains(before[j]));
                }
                if j == before.len() {
                    assert(before.contains(before[i]));
                }
            }
        }
    }
}

/// What a list with one more at the end holds.
proof fn lemma_push_contains(list: Seq<Seq<char>>, last: Seq<char>, a: Seq<char>)
    ensures
        list.push(last).contains(a) <==> list.contains(a) || a == last,
{
    let all = list.push(last);
    if list.contains(a) {
        let i = choose|i: int| 0 <= i < list.len() && list[i] == a;
        assert(all[i] == a);
    }
    if a == last {
        assert(all[list.len() as int] == a);
    }
}

/// Law: the browser is started with every argument that is wanted, and with no other; none comes
/// twice.
pub proof fn law_capabilities_hold_what_is_wanted(
    config: ChromeConfig,
    os: Seq<char>,
    paths: Seq<Seq<char>>,
    path: Seq<char>,
)
    ensures
        ({
            let wanted = wanted_args(config, os, paths);
            let args = with_args(with_args(Seq::empty(), wanted), profile_args(path));
            &&& args.no_duplicates()
            &&& forall|a: Seq<char>|
                #[trigger] args.contains(a) <==> wanted.contains(a) || profile_args(path).contains(
                    a,
                )
        }),
{
    let none = Seq::<Seq<char>>::empty();
    let wanted = wanted_args(config, os, paths);
    let args = with_args(none, wanted);
    law_with_args(none, wanted);
    law_with_args(args, profile_args(path));
    let all = with_args(args, profile_args(path));
    assert forall|a: Seq<char>| #[trigger] all.contains(a) <==> wanted.contains(a)
        || profile_args(path).contains(a) by {
        assert(args.contains(a) <==> none.contains(a) || wanted.contains(a));
    }
}

/// Law: the argument that names a proxy never holds an `@`: credentials stay out of the command
/// line.
pub proof fn law_proxy_arg_has_no_credentials(proxy: Option<String>)
    ensures
        forall|i: int|
            0 <= i < proxy_args(proxy).len() ==> !(#[trigger] proxy_args(proxy)[i]).contains('@'),
{
    if let Some(p) = proxy {
        law_host_port_has_no_credentials(p@);
        let arg = "--proxy-server="@ + host_port(p@);
        reveal_strlit("--proxy-server=");
        if arg.contains('@') {
            let i = choose|i: int| 0 <= i < arg.len() && arg[i] == '@';
            if i >= "--proxy-server="@.len() {
                assert(host_port(p@)[i - "--proxy-server="@.len()] == '@');
                assert(host_port(p@).contains('@'));
            }
        }
    }
}

/// An argument that does not begin as `--headless` does.
pub open spec fn not_headless(arg: Seq<char>) -> bool {
    arg.len() > 3 && (arg[2] != 'h' || arg[3] != 'e')
}

/// Law: the browser runs headless exactly where it is configured to.
pub proof fn law_headless_as_configured(
    config: ChromeConfig,
    os: Seq<char>,
    paths: Seq<Seq<char>>,
)
    ensures
        wanted_args(config, os, paths).contains("--headless=new"@) <==> config.headless,
{
    let wanted = wanted_args(config, os, paths);
    let before = stealth_args() + user_agent_args(os) + ui_suppression_args() + language_args(
        config.lang,
    ) + disable_features_args() + anti_throttling_args();
    let at = before.len() as int;
    if config.headless {
        assert(headless_args(true)[0] == "--headless=new"@);
        assert(wanted[at] == "--headless=new"@);
    } else {
        lemma_fixed_args_not_headless();
        reveal_strlit("--headless=new");
        reveal_strlit("--user-agent=");
        reveal_strlit("--lang=");
        reveal_strlit("--proxy-server=");
        reveal_strlit("--load-extension=");
        let g1 = stealth_args();
        let g2 = user_agent_args(os);
        let g3 = ui_suppression_args();
        let g4 = language_args(config.lang);
        let g5 = disable_features_args();
        let g6 = anti_throttling_args();
        let g8 = proxy_args(config.proxy);
        let g9 = extension_args(paths);
        assert(not_headless(g2[0]));
        assert(not_headless(g4[0]));
        if g8.len() > 0 {
            assert(not_headless(g8[0]));
        }
        if g9.len() > 0 {
            assert(not_headless(g9[0]));
        }
        lemma_all_add(g1, g2);
        lemma_all_add(g1 + g2, g3);
        lemma_all_add(g1 + g2 + g3, g4);
        lemma_all_add(g1 + g2 + g3 + g4, g5);
        lemma_all_add(g1 + g2 + g3 + g4 + g5, g6);
        lemma_all_add(before, headless_args(false));
        lemma_all_add(before + headless_args(false), g8);
        lemma_all_add(before + headless_args(false) + g8, g9);
        assert(all_not_headless(wanted));
        if wanted.contains("--headless=new"@) {
            let i = choose|i: int| 0 <= i < wanted.len() && wanted[i] == "--headless=new"@;
            assert(not_headless(wanted[i]));
        }
    }
}

/// No argument of a list begins as `--headless` does.
pub open spec fn all_not_headless(list: Seq<Seq<char>>) -> bool {
    forall|i: int| 0 <= i < list.len() ==> not_headless(#[trigger] list[i])
}

proof fn lemma_all_add(first: Seq<Seq<char>>, second: Seq<Seq<char>>)
    requires
        all_not_headless(first),
        all_not_headless(second),
    ensures
        all_not_headless(first + second),
{
    let all = first + second;
    assert forall|i: int| 0 <= i < all.len() implies not_headless(#[trigger] all[i]) by {
        if i < first.len() {
            assert(not_headless(first[i]));
        } else {
            assert(not_headless(second[i - first.len()]));
        }
    }
}

proof fn lemma_fixed_args_not_headless()
    ensures
        all_not_headless(stealth_args()),
        all_not_headless(ui_suppression_args()),
        all_not_headless(disable_features_args()),
        all_not_headless(anti_throttling_args()),
{
    reveal_strlit("--no-sandbox");
    reveal_strlit("--disable-dev-shm-usage");
    reveal_strlit("--disable-blink-features=AutomationControlled");
    reveal_strlit("window-size=960,540");
    reveal_strlit("--disable-infobars");
    reveal_strlit("--no-default-browser-check");
    reveal_strlit("--no-first-run");
    reveal_strlit("--no-service-autorun");
    reveal_strlit("--password-store=basic");
    reveal_strlit("--profile-directory=Default");
    reveal_strlit("--no-pings");
    reveal_strlit("--homepage=about:blank");
    reveal_strlit("--safebrowsing-disable-download-protection");
    reveal_strlit("--disable-client-side-phishing-detection");
    reveal_strlit("--simulate-outdated-no-au=\"Tue, 31 Dec 2099 23:59:59 GMT\"");
    reveal_strlit("--disable-single-click-autofill");
    reveal_strlit("--disable-password-generation");
    reveal_strlit("--disable-save-password-bubble");
    reveal_strlit("--disable-popup-blocking");
    reveal_strlit("--disable-translate");
    reveal_strlit("--disable-search-engine-choice-screen");
    reveal_strlit("--enable-unsafe-extension-debugging");
    reveal_strlit("--disable-features=IsolateOrigins,site-per-process,Translate,InsecureDownloadWarnings,DownloadBubble,DownloadBubbleV2,OptimizationTargetPrediction,OptimizationGuideModelDownloading,SafeBrowsingEnhancedProtection,PrivacySandboxSettings4,AutofillEnableAccountWalletStorage");
    reveal_strlit("--disable-background-timer-throttling");
    reveal_strlit("--disable-backgrounding-occluded-windows");
    reveal_strlit("--disable-renderer-backgrounding");
    assert(all_not_headless(quiet_args()));
    assert(all_not_headless(seq!["--no-sandbox"@, "--disable-dev-shm-usage"@]));
    lemma_all_add(seq!["--no-sandbox"@, "--disable-dev-shm-usage"@], quiet_args());
}

/// Law: one more argument is added at the end, unless it is there already.
pub proof fn law_with_one_more(args: Seq<Seq<char>>, list: Seq<Seq<char>>, arg: Seq<char>)
    ensures
        with_args(args, Seq::empty()) == args,
        with_args(args, list.push(arg)) == (if with_args(args, list).contains(arg) {
            with_args(args, list)
        } else {
            with_args(args, list).push(arg)
        }),
{
    assert(list.push(arg).drop_last() =~= list);
}

/// What two lists in a row hold.
proof fn lemma_both_contain(first: Seq<Seq<char>>, second: Seq<Seq<char>>, a: Seq<char>)
    ensures
        (first + second).contains(a) <==> first.contains(a) || second.contains(a),
{
    let all = first + second;
    if first.contains(a) {
        let i = choose|i: int| 0 <= i < first.len() && first[i] == a;
        assert(all[i] == a);
    }
    if second.contains(a) {
        let i = choose|i: int| 0 <= i < second.len() && second[i] == a;
        assert(all[first.len() + i] == a);
    }
    if all.contains(a) {
        let i = choose|i: int| 0 <= i < all.len() && all[i] == a;
        if i < first.len() {
            assert(first[i] == a);
        } else {
            assert(second[i - first.len()] == a);
        }
    }
}

/// What is wanted is wanted by one of the groups.
proof fn lemma_wanted_by_group(
    config: ChromeConfig,
    os: Seq<char>,
    paths: Seq<Seq<char>>,
    a: Seq<char>,
)
    ensures
        wanted_args(config, os, paths).contains(a) <==> {
            ||| stealth_args().contains(a)
            ||| user_agent_args(os).contains(a)
            ||| ui_suppression_args().contains(a)
            ||| language_args(config.lang).contains(a)
            ||| disable_features_args().contains(a)
            ||| anti_throttling_args().contains(a)
            ||| headless_args(config.headless).contains(a)
            ||| proxy_args(config.proxy).contains(a)
            ||| extension_args(paths).contains(a)
        },
{
    let g1 = stealth_args();
    let g2 = g1 + user_agent_args(os);
    let g3 = g2 + ui_suppression_args();
    let g4 = g3 + language_args(config.lang);
    let g5 = g4 + disable_features_args();
    let g6 = g5 + anti_throttling_args();
    let g7 = g6 + headless_args(config.headless);
    let g8 = g7 + proxy_args(config.proxy);
    lemma_both_contain(g1, user_agent_args(os), a);
    lemma_both_contain(g2, ui_suppression_args(), a);
    lemma_both_contain(g3, language_args(config.lang), a);
    lemma_both_contain(g4, disable_features_args(), a);
    lemma_both_contain(g5, anti_throttling_args(), a);
    lemma_both_contain(g6, headless_args(config.headless), a);
    lemma_both_contain(g7, proxy_args(config.proxy), a);
    lemma_both_contain(g8, extension_args(paths), a);
}

/// An argument that takes no value of a configuration: none of `--lang=`, `--load-extension=`,
/// `--user-agent=`, `--user-data-dir=` and `--proxy-server=` begins it.
spec fn takes_no_value(arg: Seq<char>) -> bool {
    arg.len() > 5 && arg[2] != 'l' && arg[2] != 'u' && (arg[2] != 'p' || arg[5] != 'x')
}

proof fn lemma_fixed_args_take_no_value(a: Seq<char>)
    requires
        stealth_args().contains(a) || ui_suppression_args().contains(a)
            || disable_features_args().contains(a) || anti_throttling_args().contains(a)
            || headless_args(true).contains(a),
    ensures
        takes_no_value(a),
{
    reveal_strlit("--no-sandbox");
    reveal_strlit("--disable-dev-shm-usage");
    reveal_strlit("--disable-blink-features=AutomationControlled");
    reveal_strlit("window-size=960,540");
    reveal_strlit("--disable-infobars");
    reveal_strlit("--no-default-browser-check");
    reveal_strlit("--no-first-run");
    reveal_strlit("--no-service-autorun");
    reveal_strlit("--password-store=basic");
    reveal_strlit("--profile-directory=Default");
    reveal_strlit("--no-pings");
    reveal_strlit("--homepage=about:blank");
    reveal_strlit("--safebrowsing-disable-download-protection");
    reveal_strlit("--disable-client-side-phishing-detection");
    reveal_strlit("--simulate-outdated-no-au=\"Tue, 31 Dec 2099 23:59:59 GMT\"");
    reveal_strlit("--disable-single-click-autofill");
    reveal_strlit("--disable-password-generation");
    reveal_strlit("--disable-save-password-bubble");
    reveal_strlit("--disable-popup-blocking");
    reveal_strlit("--disable-translate");
    reveal_strlit("--disable-search-engine-choice-screen");
    reveal_strlit("--enable-unsafe-extension-debugging");
    reveal_strlit("--disable-features=IsolateOrigins,site-per-process,Translate,InsecureDownloadWarnings,DownloadBubble,DownloadBubbleV2,OptimizationTargetPrediction,OptimizationGuideModelDownloading,SafeBrowsingEnhancedProtection,PrivacySandboxSettings4,AutofillEnableAccountWalletStorage");
    reveal_strlit("--disable-background-timer-throttling");
    reveal_strlit("--disable-backgrounding-occluded-windows");
    reveal_strlit("--disable-renderer-backgrounding");
    reveal_strlit("--headless=new");
    reveal_strlit("--window-size=1920,1080");
    lemma_both_contain(seq!["--no-sandbox"@, "--disable-dev-shm-usage"@], quiet_args(), a);
}

/// All the arguments of a browser whose profile is in a directory.
pub open spec fn all_args(
    config: ChromeConfig,
    os: Seq<char>,
    paths: Seq<Seq<char>>,
    path: Seq<char>,
) -> Seq<Seq<char>> {
    with_args(with_args(Seq::empty(), wanted_args(config, os, paths)), profile_args(path))
}

/// An argument is there once, and it is the only one that begins as it does.
pub open spec fn alone(args: Seq<Seq<char>>, name: Seq<char>, value: Seq<char>) -> bool {
    exists|i: int|
        0 <= i < args.len() && #[trigger] args[i] == name + value && forall|j: int|
            0 <= j < args.len() && name.is_prefix_of(#[trigger] args[j]) ==> j == i
}

/// No argument begins with a name.
pub open spec fn absent(args: Seq<Seq<char>>, name: Seq<char>) -> bool {
    forall|j: int| 0 <= j < args.len() ==> !name.is_prefix_of(#[trigger] args[j])
}

proof fn lemma_alone(args: Seq<Seq<char>>, name: Seq<char>, value: Seq<char>)
    requires
        args.no_duplicates(),
        args.contains(name + value),
        forall|a: Seq<char>| #[trigger]
            args.contains(a) && name.is_prefix_of(a) ==> a == name + value,
    ensures
        alone(args, name, value),
{
    let i = choose|i: int| 0 <= i < args.len() && args[i] == name + value;
    assert forall|j: int| 0 <= j < args.len() && name.is_prefix_of(#[trigger] args[j]) implies j
        == i by {
        assert(args.contains(args[j]));
    }
}

/// A text begins as its prefix does.
proof fn lemma_prefix_chars(prefix: Seq<char>, text: Seq<char>, i: int, j: int)
    requires
        0 <= i < prefix.len(),
        0 <= j < prefix.len(),
    ensures
        prefix.is_prefix_of(text) ==> text[i] == prefix[i] && text[j] == prefix[j],
{
    if prefix.is_prefix_of(text) {
        assert(text.subrange(0, prefix.len() as int)[i] == text[i]);
        assert(text.subrange(0, prefix.len() as int)[j] == text[j]);
    }
}

/// Which arguments take values, and with which values they come.
proof fn lemma_valued_args(
    config: ChromeConfig,
    os: Seq<char>,
    paths: Seq<Seq<char>>,
    path: Seq<char>,
    a: Seq<char>,
)
    requires
        all_args(config, os, paths, path).contains(a),
    ensures
        "--proxy-server="@.is_prefix_of(a) ==> proxy_args(config.proxy).contains(a),
        "--lang="@.is_prefix_of(a) ==> language_args(config.lang).contains(a),
        "--user-agent="@.is_prefix_of(a) ==> user_agent_args(os).contains(a),
        "--load-extension="@.is_prefix_of(a) ==> extension_args(paths).contains(a),
        "--user-data-dir="@.is_prefix_of(a) ==> profile_args(path).contains(a),
{
    law_capabilities_hold_what_is_wanted(config, os, paths, path);
    lemma_wanted_by_group(config, os, paths, a);
    reveal_strlit("--proxy-server=");
    reveal_strlit("--lang=");
    reveal_strlit("--user-agent=");
    reveal_strlit("--load-extension=");
    reveal_strlit("--user-data-dir=");
    if stealth_args().contains(a) || ui_suppression_args().contains(a)
        || disable_features_args().contains(a) || anti_throttling_args().contains(a)
        || headless_args(config.headless).contains(a) {
        lemma_fixed_args_take_no_value(a);
    }
    lemma_prefix_chars("--proxy-server="@, a, 2, 5);
    lemma_prefix_chars("--lang="@, a, 2, 3);
    lemma_prefix_chars("--user-agent="@, a, 2, 7);
    lemma_prefix_chars("--load-extension="@, a, 2, 3);
    lemma_prefix_chars("--user-data-dir="@, a, 2, 7);
}

/// Law: where a proxy is configured, exactly one argument begins with `--proxy-server=`, and it
/// goes on with what stands behind the last `@` of the proxy, or with all of it where it has
/// none; where no proxy is configured, no argument does.
pub proof fn law_one_proxy_argument(
    config: ChromeConfig,
    os: Seq<char>,
    paths: Seq<Seq<char>>,
    path: Seq<char>,
    head: Seq<char>,
    host: Seq<char>,
)
    ensures
        ({
            let args = all_args(config, os, paths, path);
            &&& config.proxy matches Some(p) ==> {
                &&& p@ == head + seq!['@'] + host && !host.contains('@') ==> alone(
                    args,
                    "--proxy-server="@,
                    host,
                )
                &&& !p@.contains('@') ==> alone(args, "--proxy-server="@, p@)
            }
            &&& config.proxy is None ==> absent(args, "--proxy-server="@)
        }),
{
    let args = all_args(config, os, paths, path);
    law_capabilities_hold_what_is_wanted(config, os, paths, path);
    assert forall|a: Seq<char>| #[trigger]
        args.contains(a) && "--proxy-server="@.is_prefix_of(a) implies proxy_args(
        config.proxy,
    ).contains(a) by {
        lemma_valued_args(config, os, paths, path, a);
    }
    match config.proxy {
        Some(p) => {
            let value = host_port(p@);
            let arg = "--proxy-server="@ + value;
            assert(proxy_args(config.proxy)[0] == arg);
            lemma_wanted_by_group(config, os, paths, arg);
            assert(args.contains(arg));
            lemma_alone(args, "--proxy-server="@, value);
            if p@ == head + seq!['@'] + host && !host.contains('@') {
                law_host_behind_the_at(head, host);
            }
            if !p@.contains('@') {
                law_host_port_has_no_credentials(p@);
            }
        },
        None => {
            assert forall|j: int| 0 <= j < args.len() implies !"--proxy-server="@.is_prefix_of(
                #[trigger] args[j],
            ) by {
                assert(args.contains(args[j]));
            }
        },
    }
}

/// Law: exactly one argument sets the language, to the one that is configured, or to English;
/// exactly one names the user agent; exactly one names the directory of the profile.
pub proof fn law_one_language_agent_and_profile(
    config: ChromeConfig,
    os: Seq<char>,
    paths: Seq<Seq<char>>,
    path: Seq<char>,
)
    ensures
        ({
            let args = all_args(config, os, paths, path);
            &&& config.lang matches Some(lang) ==> alone(args, "--lang="@, lang@)
            &&& config.lang is None ==> alone(args, "--lang="@, "en-US,en;q=0.9"@)
            &&& alone(args, "--user-agent="@, desktop_user_agent(os))
            &&& alone(args, "--user-data-dir="@, path)
        }),
{
    let args = all_args(config, os, paths, path);
    law_capabilities_hold_what_is_wanted(config, os, paths, path);
    assert forall|a: Seq<char>| #[trigger] args.contains(a) implies {
        &&& "--lang="@.is_prefix_of(a) ==> language_args(config.lang).contains(a)
        &&& "--user-agent="@.is_prefix_of(a) ==> user_agent_args(os).contains(a)
        &&& "--user-data-dir="@.is_prefix_of(a) ==> profile_args(path).contains(a)
    } by {
        lemma_valued_args(config, os, paths, path, a);
    }
    let lang = match config.lang {
        Some(lang) => lang@,
        None => "en-US,en;q=0.9"@,
    };
    assert(language_args(config.lang)[0] == "--lang="@ + lang);
    assert(user_agent_args(os)[0] == "--user-agent="@ + desktop_user_agent(os));
    assert(profile_args(path)[0] == "--user-data-dir="@ + path);
    lemma_wanted_by_group(config, os, paths, "--lang="@ + lang);
    lemma_wanted_by_group(config, os, paths, "--user-agent="@ + desktop_user_agent(os));
    assert(args.contains("--lang="@ + lang));
    assert(args.contains("--user-agent="@ + desktop_user_agent(os)));
    assert(args.contains("--user-data-dir="@ + path));
    lemma_alone(args, "--lang="@, lang);
    lemma_alone(args, "--user-agent="@, desktop_user_agent(os));
    lemma_alone(args, "--user-data-dir="@, path);
}

/// Law: where there are extensions, exactly one argument loads them, with all their directories
/// between commas; where there are none, no argument does.
pub proof fn law_one_extension_argument(
    config: ChromeConfig,
    os: Seq<char>,
    paths: Seq<Seq<char>>,
    path: Seq<char>,
    one: Seq<char>,
)
    ensures
        ({
            let args = all_args(config, os, paths, path);
            &&& paths.len() > 0 ==> alone(args, "--load-extension="@, joined(paths, seq![',']))
            &&& paths == seq![one] ==> alone(args, "--load-extension="@, one)
            &&& paths.len() == 0 ==> absent(args, "--load-extension="@)
        }),
{
    let args = all_args(config, os, paths, path);
    law_capabilities_hold_what_is_wanted(config, os, paths, path);
    reveal_strlit(",");
    assert(","@ =~= seq![',']);
    assert forall|a: Seq<char>| #[trigger]
        args.contains(a) && "--load-extension="@.is_prefix_of(a) implies extension_args(
        paths,
    ).contains(a) by {
        lemma_valued_args(config, os, paths, path, a);
    }
    if paths.len() > 0 {
        let value = joined(paths, ","@);
        assert(extension_args(paths)[0] == "--load-extension="@ + value);
        lemma_wanted_by_group(config, os, paths, "--load-extension="@ + value);
        assert(args.contains("--load-extension="@ + value));
        lemma_alone(args, "--load-extension="@, value);
        if paths == seq![one] {
            law_joined(Seq::empty(), one, ","@);
        }
    } else {
        assert forall|j: int| 0 <= j < args.len() implies !"--load-extension="@.is_prefix_of(
            #[trigger] args[j],
        ) by {
            assert(args.contains(args[j]));
        }
    }
}

/// Law: every browser hides automation, stays quiet, does not ask and does not throttle, whatever
/// is configured.
pub proof fn law_fixed_arguments(config: ChromeConfig, os: Seq<char>, paths: Seq<Seq<char>>)
    ensures
        wanted_args(config, os, paths).contains("--no-sandbox"@),
        wanted_args(config, os, paths).contains("--disable-dev-shm-usage"@),
        wanted_args(config, os, paths).contains("--disable-blink-features=AutomationControlled"@),
        wanted_args(config, os, paths).contains("window-size=960,540"@),
        wanted_args(config, os, paths).contains("--disable-infobars"@),
        wanted_args(config, os, paths).contains("--no-default-browser-check"@),
        wanted_args(config, os, paths).contains("--no-first-run"@),
        wanted_args(config, os, paths).contains("--no-service-autorun"@),
        wanted_args(config, os, paths).contains("--password-store=basic"@),
        wanted_args(config, os, paths).contains("--profile-directory=Default"@),
        wanted_args(config, os, paths).contains("--no-pings"@),
        wanted_args(config, os, paths).contains("--homepage=about:blank"@),
        wanted_args(config, os, paths).contains("--safebrowsing-disable-download-protection"@),
        wanted_args(config, os, paths).contains("--disable-client-side-phishing-detection"@),
        wanted_args(config, os, paths).contains("--simulate-outdated-no-au=\"Tue, 31 Dec 2099 23:59:59 GMT\""@),
        wanted_args(config, os, paths).contains("--disable-single-click-autofill"@),
        wanted_args(config, os, paths).contains("--disable-password-generation"@),
        wanted_args(config, os, paths).contains("--disable-save-password-bubble"@),
        wanted_args(config, os, paths).contains("--disable-popup-blocking"@),
        wanted_args(config, os, paths).contains("--disable-translate"@),
        wanted_args(config, os, paths).contains("--disable-search-engine-choice-screen"@),
        wanted_args(config, os, paths).contains("--enable-unsafe-extension-debugging"@),
        wanted_args(config, os, paths).contains("--disable-features=IsolateOrigins,site-per-process,Translate,InsecureDownloadWarnings,DownloadBubble,DownloadBubbleV2,OptimizationTargetPrediction,OptimizationGuideModelDownloading,SafeBrowsingEnhancedProtection,PrivacySandboxSettings4,AutofillEnableAccountWalletStorage"@),
        wanted_args(config, os, paths).contains("--disable-background-timer-throttling"@),
        wanted_args(config, os, paths).contains("--disable-backgrounding-occluded-windows"@),
        wanted_args(config, os, paths).contains("--disable-renderer-backgrounding"@),
{
    let wanted = wanted_args(config, os, paths);
    lemma_wanted_places(config, os, paths);
    assert(wanted[0] == "--no-sandbox"@);
    assert(wanted[1] == "--disable-dev-shm-usage"@);
    assert(wanted[2] == "--disable-blink-features=AutomationControlled"@);
    assert(wanted[3] == "window-size=960,540"@);
    assert(wanted[4] == "--disable-infobars"@);
    assert(wanted[5] == "--no-default-browser-check"@);
    assert(wanted[6] == "--no-first-run"@);
    assert(wanted[7] == "--no-service-autorun"@);
    assert(wanted[8] == "--password-store=basic"@);
    assert(wanted[9] == "--profile-directory=Default"@);
    assert(wanted[10] == "--no-pings"@);
    assert(wanted[11] == "--homepage=about:blank"@);
    assert(wanted[12] == "--safebrowsing-disable-download-protection"@);
    assert(wanted[13] == "--disable-client-side-phishing-detection"@);
    assert(wanted[14] == "--simulate-outdated-no-au=\"Tue, 31 Dec 2099 23:59:59 GMT\""@);
    assert(wanted[15] == "--disable-single-click-autofill"@);
    assert(wanted[16] == "--disable-password-generation"@);
    assert(wanted[17] == "--disable-save-password-bubble"@);
    assert(wanted[19] == "--disable-popup-blocking"@);
    assert(wanted[20] == "--disable-translate"@);
    assert(wanted[21] == "--disable-search-engine-choice-screen"@);
    assert(wanted[22] == "--enable-unsafe-extension-debugging"@);
    assert(wanted[24] == "--disable-features=IsolateOrigins,site-per-process,Translate,InsecureDownloadWarnings,DownloadBubble,DownloadBubbleV2,OptimizationTargetPrediction,OptimizationGuideModelDownloading,SafeBrowsingEnhancedProtection,PrivacySandboxSettings4,AutofillEnableAccountWalletStorage"@);
    assert(wanted[25] == "--disable-background-timer-throttling"@);
    assert(wanted[26] == "--disable-backgrounding-occluded-windows"@);
    assert(wanted[27] == "--disable-renderer-backgrounding"@);
}

/// Where the fixed groups stand.
proof fn lemma_wanted_places(config: ChromeConfig, os: Seq<char>, paths: Seq<Seq<char>>)
    ensures
        ({
            let wanted = wanted_args(config, os, paths);
            &&& wanted.len() >= 28
            &&& wanted.subrange(0, 18) == stealth_args()
            &&& wanted.subrange(18, 19) == user_agent_args(os)
            &&& wanted.subrange(19, 23) == ui_suppression_args()
            &&& wanted.subrange(23, 24) == language_args(config.lang)
            &&& wanted.subrange(24, 25) == disable_features_args()
            &&& wanted.subrange(25, 28) == anti_throttling_args()
            &&& wanted[24] == disable_features_args()[0]
            &&& forall|i: int| 0 <= i < 18 ==> #[trigger] wanted[i] == stealth_args()[i]
            &&& forall|i: int|
                19 <= i < 23 ==> #[trigger] wanted[i] == ui_suppression_args()[i - 19]
            &&& forall|i: int|
                25 <= i < 28 ==> #[trigger] wanted[i] == anti_throttling_args()[i - 25]
        }),
{
}

/// Law: a browser without a window is asked for by two arguments, one of which sets its size, and
/// nothing is asked for that no option and no fixed group asks for.
pub proof fn law_number_of_arguments(config: ChromeConfig, os: Seq<char>, paths: Seq<Seq<char>>)
    ensures
        config.headless ==> wanted_args(config, os, paths).contains("--headless=new"@)
            && wanted_args(config, os, paths).contains("--window-size=1920,1080"@),
        wanted_args(config, os, paths).len() == 28 + (if config.headless {
            2int
        } else {
            0
        }) + (if config.proxy is Some {
            1int
        } else {
            0
        }) + (if paths.len() > 0 {
            1int
        } else {
            0
        }),
{
    let wanted = wanted_args(config, os, paths);
    if config.headless {
        assert(wanted[28] == "--headless=new"@);
        assert(wanted[29] == "--window-size=1920,1080"@);
    }
}

/// Law: the user agent that is shown is that of a desktop browser on the operating system; one
/// that is neither Windows nor macOS counts as Linux.
pub proof fn law_desktop_user_agent(os: Seq<char>)
    requires
        os != "windows"@,
        os != "macos"@,
    ensures
        desktop_user_agent("windows"@)
            == "Mozilla/5.0 (Windows NT 10.0; Win64; x64) AppleWebKit/537.36 (KHTML, like Gecko) Chrome/146.0.0.0 Safari/537.36"@,
        desktop_user_agent("macos"@)
            == "Mozilla/5.0 (Macintosh; Intel Mac OS X 10_15_7) AppleWebKit/537.36 (KHTML, like Gecko) Chrome/146.0.0.0 Safari/537.36"@,
        desktop_user_agent(os)
            == "Mozilla/5.0 (X11; Linux x86_64) AppleWebKit/537.36 (KHTML, like Gecko) Chrome/146.0.0.0 Safari/537.36"@,
{
    reveal_strlit("windows");
    reveal_strlit("macos");
    assert("windows"@.len() != "macos"@.len());
}

} // verus!
