//! The driver's lifecycle: what has to happen before a session can be used, and in what order.

use vstd::prelude::*;
use vstd::string::*;
use vstd::utf8::encode_utf8;

use serde_json::Value;

use crate::capabilities::{
    anti_throttling_args, disable_features_args, extension_args, headless_args,
    law_headless_as_configured, proxy_args, stealth_args, ui_suppression_args, user_agent_args,
    wanted_args,
};
use crate::chance::random_between;
use crate::chrome::{all_optional, authorizing, blocking, emulating, law_override_commands};
use crate::commands::{
    blocked_ads, bypass_csp, device_metrics, grant_permissions, network_enable, proxy_header,
    touch_emulation, user_agent,
};
use crate::commands::{
    blocked_urls_command, bypass_csp_command, device_metrics_command, grant_permissions_command,
    proxy_header_command, touch_emulation_command, user_agent_command,
};
use crate::config::patched_driver_name;
use crate::config::ChromeConfig;
use crate::config::{ad_block_list, asks_for_nothing, patched_driver_file};
use crate::encoding::base64_text;
use crate::json::{as_floating, duplicate, integer};
use crate::json::{floating, json_of, Json};
use crate::plan::{
    fails_at, law_run_fails, optional, plan, ran, required, started, ActionView, OnError, StepView,
};
use crate::plan::{followed_by, may, Step};
use crate::proxy::{proxy_authorization, proxy_credentials};
use crate::stealth::inject_all_persistent_stealth;
use crate::stealth::{registering, stealth_plan};
use crate::stealth::{ADVANCED_FINGERPRINT_SCRIPT, CDC_SCRUB_SCRIPT, STEALTH_SCRIPT};
use crate::text::natural_text;
use crate::text::{decimal, digits};

verus! {

// ─── Launching ───────────────────────────────────────────────────────────────

/// What is done next to launch a browser.
#[derive(Debug, Clone, Copy, PartialEq, Eq, Structural)]
pub enum LaunchStep {
    /// Look whether the driver's binary is there.
    CheckDriver,
    /// Download the driver's binary.
    FetchDriver,
    /// Look whether the patched binary is there.
    CheckPatched,
    /// Write the patched binary.
    PatchDriver,
    /// Make the patched binary executable.
    SetPermissions,
    /// Start the patched binary.
    StartProcess,
    /// Connect to it.
    Connect,
    /// Perform the startup plan on the session.
    PrepareSession,
    /// The session can be used.
    Ready,
}

/// What follows a step that succeeded; `exists` is what a look for a binary found.
pub open spec fn following(step: LaunchStep, exists: bool) -> LaunchStep {
    match step {
        LaunchStep::CheckDriver => if exists {
            LaunchStep::CheckPatched
        } else {
            LaunchStep::FetchDriver
        },
        LaunchStep::FetchDriver => LaunchStep::CheckPatched,
        LaunchStep::CheckPatched => if exists {
            LaunchStep::SetPermissions
        } else {
            LaunchStep::PatchDriver
        },
        LaunchStep::PatchDriver => LaunchStep::SetPermissions,
        LaunchStep::SetPermissions => LaunchStep::StartProcess,
        LaunchStep::StartProcess => LaunchStep::Connect,
        LaunchStep::Connect => LaunchStep::PrepareSession,
        LaunchStep::PrepareSession => LaunchStep::Ready,
        LaunchStep::Ready => LaunchStep::Ready,
    }
}

/// What follows a step that succeeded; `exists` matters after a look for a binary only. A step
/// that fails ends the launch with its error.
pub fn next_launch_step(step: LaunchStep, exists: bool) -> (r: LaunchStep)
    ensures
        r == following(step, exists),
{
    match step {
        LaunchStep::CheckDriver => if exists {
            LaunchStep::CheckPatched
        } else {
            LaunchStep::FetchDriver
        },
        LaunchStep::FetchDriver => LaunchStep::CheckPatched,
        LaunchStep::CheckPatched => if exists {
            LaunchStep::SetPermissions
        } else {
            LaunchStep::PatchDriver
        },
        LaunchStep::PatchDriver => LaunchStep::SetPermissions,
        LaunchStep::SetPermissions => LaunchStep::StartProcess,
        LaunchStep::StartProcess => LaunchStep::Connect,
        LaunchStep::Connect => LaunchStep::PrepareSession,
        LaunchStep::PrepareSession => LaunchStep::Ready,
        LaunchStep::Ready => LaunchStep::Ready,
    }
}

/// What a look finds: whether the binary is there that it looks for.
pub open spec fn answer(step: LaunchStep, driver: bool, patched: bool) -> bool {
    match step {
        LaunchStep::CheckDriver => driver,
        _ => patched,
    }
}

/// The steps of a launch, where `driver` and `patched` say which binaries are there.
pub open spec fn launch(driver: bool, patched: bool) -> Seq<LaunchStep> {
    seq![LaunchStep::CheckDriver] + (if driver {
        Seq::empty()
    } else {
        seq![LaunchStep::FetchDriver]
    }) + seq![LaunchStep::CheckPatched] + (if patched {
        Seq::empty()
    } else {
        seq![LaunchStep::PatchDriver]
    }) + seq![
        LaunchStep::SetPermissions,
        LaunchStep::StartProcess,
        LaunchStep::Connect,
        LaunchStep::PrepareSession,
        LaunchStep::Ready,
    ]
}

/// Law: a launch goes from the look for the driver to a session that can be used. It downloads
/// exactly where the driver is missing, and patches exactly where the patched binary is.
pub proof fn law_launch(driver: bool, patched: bool)
    ensures
        launch(driver, patched)[0] == LaunchStep::CheckDriver,
        launch(driver, patched).last() == LaunchStep::Ready,
        forall|i: int|
            0 <= i < launch(driver, patched).len() - 1 ==> #[trigger] launch(driver, patched)[i
                + 1] == following(
                launch(driver, patched)[i],
                answer(launch(driver, patched)[i], driver, patched),
            ),
        launch(driver, patched).contains(LaunchStep::FetchDriver) <==> !driver,
        launch(driver, patched).contains(LaunchStep::PatchDriver) <==> !patched,
{
    let all = launch(driver, patched);
    if !driver {
        assert(all[1] == LaunchStep::FetchDriver);
        if !patched {
            assert(all[3] == LaunchStep::PatchDriver);
        }
    } else if !patched {
        assert(all[2] == LaunchStep::PatchDriver);
    }
}

/// Law: the driver is never started before the patched binary is there and executable: its
/// start directly follows the setting of permissions, which follows a look that found the
/// patched binary, or its writing.
pub proof fn law_start_needs_patched_binary(step: LaunchStep, exists: bool)
    ensures
        following(step, exists) == LaunchStep::StartProcess ==> step == LaunchStep::SetPermissions,
        following(step, exists) == LaunchStep::SetPermissions ==> step == LaunchStep::PatchDriver
            || (step == LaunchStep::CheckPatched && exists),
{
}

// ─── Reconnecting ────────────────────────────────────────────────────────────

/// What is done next to open an address behind the driver's back.
#[derive(Debug, Clone, Copy, PartialEq, Eq, Structural)]
pub enum ReconnectStep {
    /// Open the address in a new tab, and quit the session.
    Leave,
    /// Wait for as long as the caller asked.
    Pause,
    /// Try to connect again, a limited number of times.
    Connect,
    /// Register the stealth hooks in the new session.
    Register,
    /// Read the list of windows; where that fails it counts as empty.
    ReadWindows,
    /// Switch to the last window.
    Resume,
    /// The new session can be used.
    Done,
    /// No attempt at connecting succeeded.
    GiveUp,
}

/// What follows a step; `connected` says whether an attempt at connecting succeeded.
pub open spec fn following_reconnect(step: ReconnectStep, connected: bool) -> ReconnectStep {
    match step {
        ReconnectStep::Leave => ReconnectStep::Pause,
        ReconnectStep::Pause => ReconnectStep::Connect,
        ReconnectStep::Connect => if connected {
            ReconnectStep::Register
        } else {
            ReconnectStep::GiveUp
        },
        ReconnectStep::Register => ReconnectStep::ReadWindows,
        ReconnectStep::ReadWindows => ReconnectStep::Resume,
        ReconnectStep::Resume => ReconnectStep::Done,
        ReconnectStep::Done => ReconnectStep::Done,
        ReconnectStep::GiveUp => ReconnectStep::GiveUp,
    }
}

/// What follows a step; `connected` matters after the attempts at connecting only. Where the
/// hooks cannot be registered, the reconnecting ends with that error.
pub fn next_reconnect_step(step: ReconnectStep, connected: bool) -> (r: ReconnectStep)
    ensures
        r == following_reconnect(step, connected),
{
    match step {
        ReconnectStep::Leave => ReconnectStep::Pause,
        ReconnectStep::Pause => ReconnectStep::Connect,
        ReconnectStep::Connect => if connected {
            ReconnectStep::Register
        } else {
            ReconnectStep::GiveUp
        },
        ReconnectStep::Register => ReconnectStep::ReadWindows,
        ReconnectStep::ReadWindows => ReconnectStep::Resume,
        ReconnectStep::Resume => ReconnectStep::Done,
        ReconnectStep::Done => ReconnectStep::Done,
        ReconnectStep::GiveUp => ReconnectStep::GiveUp,
    }
}

/// The steps of reconnecting, where `connected` says whether an attempt succeeds.
pub open spec fn reconnect(connected: bool) -> Seq<ReconnectStep> {
    seq![ReconnectStep::Leave, ReconnectStep::Pause, ReconnectStep::Connect] + (if connected {
        seq![
            ReconnectStep::Register,
            ReconnectStep::ReadWindows,
            ReconnectStep::Resume,
            ReconnectStep::Done,
        ]
    } else {
        seq![ReconnectStep::GiveUp]
    })
}

/// Law: the session is left before the pause, the pause comes before the attempts, and nothing is
/// done to the new session before the stealth hooks are registered in it; without a new session
/// the reconnecting is given up.
pub proof fn law_reconnect(connected: bool)
    ensures
        reconnect(connected)[0] == ReconnectStep::Leave,
        reconnect(connected).last() == (if connected {
            ReconnectStep::Done
        } else {
            ReconnectStep::GiveUp
        }),
        following_reconnect(reconnect(connected).last(), connected) == reconnect(
            connected,
        ).last(),
        forall|i: int|
            0 <= i < reconnect(connected).len() - 1 ==> #[trigger] reconnect(connected)[i + 1]
                == following_reconnect(reconnect(connected)[i], connected),
{
}

// ─── The process ─────────────────────────────────────────────────────────────

/// A port for the driver, drawn at random.
pub fn driver_port() -> (r: usize)
    ensures
        2000 <= r < 5000,
{
    random_between(2000, 5000)
}

/// The program that is started.
pub fn driver_program(windows: bool) -> (r: String)
    ensures
        r@ == "./"@ + patched_driver_file(windows),
{
    let mut program: String = "./".to_string();
    program.append(patched_driver_name(windows));
    program
}

/// The argument that names the port.
pub fn port_argument(port: usize) -> (r: String)
    ensures
        r@ == "--port="@ + digits(port as nat),
{
    let mut arg: String = "--port=".to_string();
    let number: String = natural_text(port as u64);
    arg.append(number.as_str());
    arg
}

/// Where the driver listens.
pub fn driver_url(port: usize) -> (r: String)
    ensures
        r@ == "http://localhost:"@ + digits(port as nat),
{
    let mut url: String = "http://localhost:".to_string();
    let number: String = natural_text(port as u64);
    url.append(number.as_str());
    url
}

// ─── The session ─────────────────────────────────────────────────────────────

/// The metrics of a mobile device: the configured ones, or 412 by 732 with three device pixels
/// for each.
pub open spec fn mobile_device(config: ChromeConfig) -> (int, int, Json) {
    match config.mobile_metrics {
        Some(metrics) => (metrics.0 as int, metrics.1 as int, json_of(metrics.2)),
        None => (412, 732, Json::Number(floating(decimal(3)))),
    }
}

/// The overrides for a mobile device.
pub open spec fn mobile_overrides(config: ChromeConfig) -> Seq<ActionView> {
    if config.mobile {
        let (width, height, ratio) = mobile_device(config);
        emulating(width, height, ratio) + (match config.mobile_user_agent {
            Some(ua) => seq![user_agent_command(ua@)],
            None => Seq::empty(),
        })
    } else {
        Seq::empty()
    }
}

/// The overrides that a configuration asks for, in order.
pub open spec fn overrides(config: ChromeConfig) -> Seq<ActionView> {
    mobile_overrides(config) + (if config.ad_block {
        blocking(ad_block_list())
    } else {
        Seq::empty()
    }) + (if config.disable_csp {
        seq![bypass_csp_command()]
    } else {
        Seq::empty()
    }) + (match config.proxy {
        Some(proxy) => authorizing(proxy@),
        None => Seq::empty(),
    })
}

/// The pixel ratio of a mobile device where none is configured.
fn default_ratio() -> (r: Value)
    ensures
        json_of(r) == Json::Number(floating(decimal(3))),
{
    let three: Value = integer(3);
    match as_floating(&three) {
        Some(ratio) => ratio,
        None => three,
    }
}

/// Add a step that may fail.
fn also(steps: &mut Vec<Step>, step: Step)
    ensures
        plan(final(steps)@) == plan(old(steps)@).push(step@),
{
    steps.push(step);
    assert(plan(steps@) =~= plan(old(steps)@).push(step@));
}

/// Apply the overrides of a configuration: mobile device, ad blocking, content security policy,
/// proxy. None of them has to succeed.
#[verifier::rlimit(40)]
pub fn apply_cdp_overrides(config: &ChromeConfig) -> (r: Vec<Step>)
    ensures
        plan(r@) == all_optional(overrides(*config)),
{
    let mut steps: Vec<Step> = Vec::new();
    let ghost mobile = all_optional(mobile_overrides(*config));
    if config.mobile {
        match &config.mobile_metrics {
            Some(metrics) => {
                also(&mut steps, may(device_metrics(metrics.0, metrics.1, duplicate(&metrics.2))));
            },
            None => {
                also(&mut steps, may(device_metrics(412, 732, default_ratio())));
            },
        }
        also(&mut steps, may(touch_emulation()));
        match &config.mobile_user_agent {
            Some(ua) => {
                also(&mut steps, may(user_agent(ua.as_str())));
            },
            None => {},
        }
    }
    assert(plan(steps@) =~= mobile);
    let ghost ads = if config.ad_block {
        all_optional(blocking(ad_block_list()))
    } else {
        Seq::empty()
    };
    if config.ad_block {
        also(&mut steps, may(network_enable()));
        also(&mut steps, may(blocked_ads()));
    }
    assert(plan(steps@) =~= mobile + ads);
    let ghost csp = if config.disable_csp {
        seq![optional(bypass_csp_command())]
    } else {
        Seq::empty()
    };
    if config.disable_csp {
        also(&mut steps, may(bypass_csp()));
    }
    assert(plan(steps@) =~= mobile + ads + csp);
    let ghost proxied = match &config.proxy {
        Some(proxy) => all_optional(authorizing(proxy@)),
        None => Seq::empty(),
    };
    match &config.proxy {
        Some(proxy) => match proxy_credentials(proxy.as_str()) {
            Some(creds) => {
                let header: String = proxy_authorization(creds.as_str());
                also(&mut steps, may(network_enable()));
                also(&mut steps, may(proxy_header(header.as_str())));
            },
            None => {},
        },
        None => {},
    }
    assert(plan(steps@) =~= mobile + ads + csp + proxied);
    assert(all_optional(overrides(*config)) =~= mobile + ads + csp + proxied);
    steps
}

/// Grant all permissions so prompts never fire (a bot-detection signal).
pub fn grant_startup_permissions() -> (r: Vec<Step>)
    ensures
        plan(r@) == seq![optional(grant_permissions_command())],
{
    vec![may(grant_permissions())]
}

/// What is done to a new session: the stealth hooks, which have to succeed, and the permissions
/// and overrides, which may fail.
pub open spec fn startup_plan(config: ChromeConfig) -> Seq<StepView> {
    stealth_plan() + seq![optional(grant_permissions_command())] + all_optional(overrides(config))
}

/// What is done to a new session.
pub fn prepare_session(config: &ChromeConfig) -> (r: Vec<Step>)
    ensures
        plan(r@) == startup_plan(*config),
{
    followed_by(
        followed_by(inject_all_persistent_stealth(), grant_startup_permissions()),
        apply_cdp_overrides(config),
    )
}

/// Law: a new session is refused only where a stealth hook could not be registered; whatever
/// else goes wrong, the session can be used.
pub proof fn law_startup_fails_only_in_stealth(
    config: ChromeConfig,
    outcomes: Seq<Option<Json>>,
)
    ensures
        ran(started(startup_plan(config)), outcomes).failed ==> ran(
            started(startup_plan(config)),
            outcomes,
        ).next <= stealth_plan().len(),
        stealth_plan().len() == 3,
{
    let steps = startup_plan(config);
    law_run_fails(steps, outcomes);
    if ran(started(steps), outcomes).failed {
        let at = choose|at: int| fails_at(steps, outcomes, at);
        assert(fails_at(steps, outcomes, at));
        if at >= 3 {
            assert(steps[at].on_error == OnError::Skip);
        }
    }
}

/// Law: in every session the stealth hooks are registered before anything else is done.
pub proof fn law_startup_begins_with_stealth(config: ChromeConfig)
    ensures
        stealth_plan().is_prefix_of(startup_plan(config)),
{
    assert(startup_plan(config).take(stealth_plan().len() as int) =~= stealth_plan());
}

/// Law: the default configuration applies no option: the browser is started with the fixed
/// arguments and the default language alone, without any for headless mode, a proxy or
/// extensions, and a new session gets the hooks and the permissions, and no override.
pub proof fn law_default_applies_no_option(
    config: ChromeConfig,
    os: Seq<char>,
    paths: Seq<Seq<char>>,
)
    requires
        asks_for_nothing(config),
        paths.len() == config.extensions@.len(),
    ensures
        wanted_args(config, os, paths) == stealth_args() + user_agent_args(os)
            + ui_suppression_args() + seq!["--lang="@ + "en-US,en;q=0.9"@]
            + disable_features_args() + anti_throttling_args(),
        !wanted_args(config, os, paths).contains("--headless=new"@),
        headless_args(config.headless).len() == 0,
        proxy_args(config.proxy).len() == 0,
        extension_args(paths).len() == 0,
        overrides(config).len() == 0,
        startup_plan(config) == stealth_plan() + seq![optional(grant_permissions_command())],
{
    law_headless_as_configured(config, os, paths);
    assert(wanted_args(config, os, paths) =~= stealth_args() + user_agent_args(os)
        + ui_suppression_args() + seq!["--lang="@ + "en-US,en;q=0.9"@] + disable_features_args()
        + anti_throttling_args());
    assert(overrides(config) =~= Seq::<ActionView>::empty());
    assert(startup_plan(config) =~= stealth_plan() + seq![
        optional(grant_permissions_command()),
    ]);
}

/// Law: which step a step of a launch follows, and on which finding.
pub proof fn law_launch_by_predecessor(step: LaunchStep, exists: bool)
    ensures
        following(step, exists) != LaunchStep::CheckDriver,
        following(step, exists) == LaunchStep::FetchDriver <==> step == LaunchStep::CheckDriver
            && !exists,
        following(step, exists) == LaunchStep::CheckPatched <==> step == LaunchStep::FetchDriver
            || (step == LaunchStep::CheckDriver && exists),
        following(step, exists) == LaunchStep::PatchDriver <==> step == LaunchStep::CheckPatched
            && !exists,
        following(step, exists) == LaunchStep::SetPermissions <==> step == LaunchStep::PatchDriver
            || (step == LaunchStep::CheckPatched && exists),
        following(step, exists) == LaunchStep::StartProcess <==> step == LaunchStep::SetPermissions,
        following(step, exists) == LaunchStep::Connect <==> step == LaunchStep::StartProcess,
        following(step, exists) == LaunchStep::PrepareSession <==> step == LaunchStep::Connect,
        following(step, exists) == LaunchStep::Ready <==> step == LaunchStep::PrepareSession || step
            == LaunchStep::Ready,
{
}

/// Law: which step a step of reconnecting follows; a session is given up exactly where no attempt
/// at connecting succeeded, and that is final.
pub proof fn law_reconnect_by_predecessor(step: ReconnectStep, connected: bool)
    ensures
        following_reconnect(step, connected) != ReconnectStep::Leave,
        following_reconnect(step, connected) == ReconnectStep::Pause <==> step
            == ReconnectStep::Leave,
        following_reconnect(step, connected) == ReconnectStep::Connect <==> step
            == ReconnectStep::Pause,
        following_reconnect(step, connected) == ReconnectStep::Register <==> step
            == ReconnectStep::Connect && connected,
        following_reconnect(step, connected) == ReconnectStep::ReadWindows <==> step
            == ReconnectStep::Register,
        following_reconnect(step, connected) == ReconnectStep::Resume <==> step
            == ReconnectStep::ReadWindows,
        following_reconnect(step, connected) == ReconnectStep::Done <==> step
            == ReconnectStep::Resume || step == ReconnectStep::Done,
        following_reconnect(step, connected) == ReconnectStep::GiveUp <==> (step
            == ReconnectStep::Connect && !connected) || step == ReconnectStep::GiveUp,
{
}

/// How many commands the mobile device of a configuration takes.
spec fn mobile_commands(config: ChromeConfig) -> int {
    (if config.mobile {
        2int
    } else {
        0
    }) + (if config.mobile && config.mobile_user_agent is Some {
        1int
    } else {
        0
    })
}

/// Law: what is done to a new session, step by step. The three hooks have to succeed and nothing
/// else has to; the permissions come next; then each option that is set adds its own commands,
/// with its own values, whatever the others are.
pub proof fn law_startup_step_by_step(config: ChromeConfig, creds: Seq<char>, rest: Seq<char>)
    requires
        !creds.contains('@'),
    ensures
        ({
            let steps = startup_plan(config);
            let m = (if config.mobile {
                2int
            } else {
                0
            }) + (if config.mobile && config.mobile_user_agent is Some {
                1int
            } else {
                0
            });
            let a = if config.ad_block {
                2int
            } else {
                0
            };
            let c = if config.disable_csp {
                1int
            } else {
                0
            };
            let x = if config.proxy is Some && config.proxy->0@.contains('@') {
                2int
            } else {
                0
            };
            &&& steps.len() == 4 + m + a + c + x
            &&& forall|i: int|
                0 <= i < steps.len() ==> (#[trigger] steps[i]).on_error == (if i < 3 {
                    OnError::Fail
                } else {
                    OnError::Skip
                })
            &&& steps[0].action == registering(STEALTH_SCRIPT@)
            &&& steps[1].action == registering(CDC_SCRUB_SCRIPT@)
            &&& steps[2].action == registering(ADVANCED_FINGERPRINT_SCRIPT@)
            &&& steps[3].action == grant_permissions_command()
            &&& config.mobile ==> {
                &&& config.mobile_metrics matches Some(metrics) ==> steps[4].action
                    == device_metrics_command(
                    metrics.0 as int,
                    metrics.1 as int,
                    json_of(metrics.2),
                )
                &&& config.mobile_metrics is None ==> steps[4].action == device_metrics_command(
                    412,
                    732,
                    Json::Number(floating(decimal(3))),
                )
                &&& steps[5].action == touch_emulation_command()
                &&& config.mobile_user_agent matches Some(ua) ==> steps[6].action
                    == ActionView::CommandWith(
                    "Network.setUserAgentOverride"@,
                    Json::Object(seq![("userAgent"@, Json::Text(ua@))]),
                )
            }
            &&& config.ad_block ==> {
                &&& steps[4 + m].action == ActionView::Command("Network.enable"@)
                &&& steps[5 + m].action == blocked_urls_command(ad_block_list())
            }
            &&& config.disable_csp ==> steps[4 + m + a].action == ActionView::CommandWith(
                "Page.setBypassCSP"@,
                Json::Object(seq![("enabled"@, Json::Bool(true))]),
            )
            &&& config.proxy is Some && config.proxy->0@ == creds + seq!['@'] + rest ==> {
                &&& steps[4 + m + a + c].action == ActionView::Command("Network.enable"@)
                &&& steps[5 + m + a + c].action == proxy_header_command(
                    "Basic "@ + base64_text(encode_utf8(creds)),
                )
            }
        }),
{
    let steps = startup_plan(config);
    let all = overrides(config);
    lemma_overrides_places(config);
    lemma_startup_places(config);
    assert(steps[4] == optional(all[0]) || steps.len() <= 4);
    assert(steps[5] == optional(all[1]) || steps.len() <= 5);
    assert(steps[6] == optional(all[2]) || steps.len() <= 6);
    if config.proxy is Some && config.proxy->0@ == creds + seq!['@'] + rest {
        let p = config.proxy->0@;
        assert(p[creds.len() as int] == '@');
        law_override_commands(0, 0, Json::Null, Seq::empty(), creds, rest, Seq::empty());
    }
}

/// Where the steps of a new session stand.
proof fn lemma_startup_places(config: ChromeConfig)
    ensures
        ({
            let steps = startup_plan(config);
            &&& steps.len() == 4 + overrides(config).len()
            &&& steps[0] == required(registering(STEALTH_SCRIPT@))
            &&& steps[1] == required(registering(CDC_SCRUB_SCRIPT@))
            &&& steps[2] == required(registering(ADVANCED_FINGERPRINT_SCRIPT@))
            &&& steps[3] == optional(grant_permissions_command())
            &&& forall|i: int|
                4 <= i < steps.len() ==> #[trigger] steps[i] == optional(overrides(config)[i - 4])
        }),
{
}

/// Where the overrides stand.
proof fn lemma_overrides_places(config: ChromeConfig)
    ensures
        ({
            let all = overrides(config);
            let m = mobile_commands(config);
            let a = if config.ad_block {
                2int
            } else {
                0
            };
            let c = if config.disable_csp {
                1int
            } else {
                0
            };
            let x = if config.proxy is Some && config.proxy->0@.contains('@') {
                2int
            } else {
                0
            };
            let (width, height, ratio) = mobile_device(config);
            &&& all.len() == m + a + c + x
            &&& config.mobile ==> all[0] == device_metrics_command(width, height, ratio) && all[1]
                == touch_emulation_command()
            &&& config.mobile && config.mobile_user_agent is Some ==> all[2] == user_agent_command(
                config.mobile_user_agent->0@,
            )
            &&& config.ad_block ==> all[m] == ActionView::Command("Network.enable"@) && all[m + 1]
                == blocked_urls_command(ad_block_list())
            &&& config.disable_csp ==> all[m + a] == bypass_csp_command()
            &&& x == 2 ==> all[m + a + c] == authorizing(config.proxy->0@)[0] && all[m + a + c + 1]
                == authorizing(config.proxy->0@)[1]
        }),
{
    let all = overrides(config);
    let mobile = mobile_overrides(config);
    let m = mobile_commands(config);
    assert(mobile.len() == m);
    assert(forall|i: int| 0 <= i < m ==> #[trigger] all[i] == mobile[i]);
    if let Some(p) = config.proxy {
        assert(p@.contains('@') ==> authorizing(p@).len() == 2);
        assert(!p@.contains('@') ==> authorizing(p@).len() == 0);
    }
}

/// Law: a new session is told a user agent exactly where a mobile device with one is configured,
/// whatever its metrics and the other options are, and it is told that one and no other.
pub proof fn law_mobile_user_agent_is_told(config: ChromeConfig, ua: Seq<char>)
    ensures
        startup_plan(config).contains(
            StepView {
                action: ActionView::CommandWith(
                    "Network.setUserAgentOverride"@,
                    Json::Object(seq![("userAgent"@, Json::Text(ua))]),
                ),
                on_error: OnError::Skip,
            },
        ) <==> config.mobile && config.mobile_user_agent is Some && config.mobile_user_agent->0@
            == ua,
        forall|i: int|
            0 <= i < startup_plan(config).len() && ((
            #[trigger] startup_plan(config)[i]).action matches ActionView::CommandWith(name, _)
                && name == "Network.setUserAgentOverride"@) ==> i == 6 && config.mobile
                && config.mobile_user_agent is Some,
{
    let steps = startup_plan(config);
    let told = StepView {
        action: ActionView::CommandWith(
            "Network.setUserAgentOverride"@,
            Json::Object(seq![("userAgent"@, Json::Text(ua))]),
        ),
        on_error: OnError::Skip,
    };
    lemma_command_names();
    if config.mobile && config.mobile_user_agent is Some {
        let ours = config.mobile_user_agent->0@;
        assert(steps[6].action == user_agent_command(ours));
        if ours == ua {
            assert(steps[6] == told);
        }
        let params = seq![("userAgent"@, Json::Text(ua))];
        let own = seq![("userAgent"@, Json::Text(ours))];
        assert(params[0].1 == Json::Text(ua) && own[0].1 == Json::Text(ours));
    }
    assert forall|i: int| 0 <= i < steps.len() && ((#[trigger] steps[i]).action matches
        ActionView::CommandWith(name, _) && name == "Network.setUserAgentOverride"@) implies i == 6
        && config.mobile && config.mobile_user_agent is Some by {
        lemma_startup_step(config, i);
    }
    if steps.contains(told) {
        let i = choose|i: int| 0 <= i < steps.len() && steps[i] == told;
        assert(steps[i].action matches ActionView::CommandWith(name, _) && name
            == "Network.setUserAgentOverride"@);
        assert(steps[6] == told);
    }
}

/// The names of the commands of a new session differ.
proof fn lemma_command_names()
    ensures
        "Page.addScriptToEvaluateOnNewDocument"@.len() == 37,
        "Browser.grantPermissions"@.len() == 24,
        "Emulation.setDeviceMetricsOverride"@.len() == 34,
        "Emulation.setTouchEmulationEnabled"@.len() == 34,
        "Network.setUserAgentOverride"@.len() == 28,
        "Network.setBlockedURLs"@.len() == 22,
        "Page.setBypassCSP"@.len() == 17,
        "Network.setExtraHTTPHeaders"@.len() == 27,
        "Emulation.setDeviceMetricsOverride"@[13] == 'D',
        "Emulation.setTouchEmulationEnabled"@[13] == 'T',
{
    reveal_strlit("Page.addScriptToEvaluateOnNewDocument");
    reveal_strlit("Browser.grantPermissions");
    reveal_strlit("Emulation.setDeviceMetricsOverride");
    reveal_strlit("Emulation.setTouchEmulationEnabled");
    reveal_strlit("Network.setUserAgentOverride");
    reveal_strlit("Network.setBlockedURLs");
    reveal_strlit("Page.setBypassCSP");
    reveal_strlit("Network.setExtraHTTPHeaders");
}

/// Each step of a new session is one of the hooks, the permissions, or a command of an option.
proof fn lemma_startup_step(config: ChromeConfig, i: int)
    requires
        0 <= i < startup_plan(config).len(),
    ensures
        ({
            let action = startup_plan(config)[i].action;
            ||| i < 3 && (exists|s: Seq<char>| action == #[trigger] registering(s))
            ||| i == 3 && action == grant_permissions_command()
            ||| i == 4 && config.mobile && (exists|w: int, h: int, r: Json|
                action == #[trigger] device_metrics_command(w, h, r))
            ||| i == 5 && config.mobile && action == touch_emulation_command()
            ||| i == 6 && config.mobile && config.mobile_user_agent is Some && action
                == user_agent_command(config.mobile_user_agent->0@)
            ||| action == ActionView::Command("Network.enable"@)
            ||| config.ad_block && action == blocked_urls_command(ad_block_list())
            ||| config.disable_csp && action == bypass_csp_command()
            ||| config.proxy is Some && (exists|s: Seq<char>|
                action == #[trigger] proxy_header_command(s))
        }),
{
    let steps = startup_plan(config);
    let all = overrides(config);
    let mobile = mobile_overrides(config);
    if i < 3 {
        assert(steps[i] == stealth_plan()[i]);
    } else if i > 3 {
        assert(steps[i].action == all[i - 4]);
        if i - 4 < mobile.len() {
            assert(all[i - 4] == mobile[i - 4]);
            let (width, height, ratio) = mobile_device(config);
            assert(mobile[0] == device_metrics_command(width, height, ratio));
        } else {
            let k = i - 4 - mobile.len();
            let a = if config.ad_block {
                2int
            } else {
                0
            };
            let c = if config.disable_csp {
                1int
            } else {
                0
            };
            if k < a {
                assert(all[i - 4] == blocking(ad_block_list())[k]);
            } else if k < a + c {
                assert(all[i - 4] == bypass_csp_command());
            } else {
                assert(all[i - 4] == authorizing(config.proxy->0@)[k - a - c]);
            }
        }
    }
}

/// Law: the commands of an option depend on that option alone. Two configurations that agree on it
/// give a new session the same ones, whatever else they say.
pub proof fn law_options_are_independent(one: ChromeConfig, other: ChromeConfig)
    ensures
        one.ad_block == other.ad_block ==> (startup_plan(one).contains(
            optional(blocked_urls_command(ad_block_list())),
        ) <==> startup_plan(other).contains(
            optional(blocked_urls_command(ad_block_list())),
        )),
        one.disable_csp == other.disable_csp ==> (startup_plan(one).contains(
            optional(bypass_csp_command()),
        ) <==> startup_plan(other).contains(optional(bypass_csp_command()))),
        one.mobile == other.mobile ==> (startup_plan(one).contains(
            optional(touch_emulation_command()),
        ) <==> startup_plan(other).contains(optional(touch_emulation_command()))),
{
    law_option_commands(one);
    law_option_commands(other);
}

/// Law: addresses are blocked exactly where ads are, the content security policy is bypassed
/// exactly where it is disabled, and touch is emulated exactly on a mobile device.
pub proof fn law_option_commands(config: ChromeConfig)
    ensures
        startup_plan(config).contains(optional(blocked_urls_command(ad_block_list())))
            <==> config.ad_block,
        startup_plan(config).contains(optional(bypass_csp_command())) <==> config.disable_csp,
        startup_plan(config).contains(optional(touch_emulation_command())) <==> config.mobile,
{
    let steps = startup_plan(config);
    let m = mobile_commands(config);
    let a = if config.ad_block {
        2int
    } else {
        0
    };
    lemma_command_names();
    law_startup_step_by_step(config, Seq::empty(), Seq::empty());
    if config.ad_block {
        assert(steps[5 + m] == optional(blocked_urls_command(ad_block_list())));
    } else if steps.contains(optional(blocked_urls_command(ad_block_list()))) {
        let i = choose|i: int|
            0 <= i < steps.len() && steps[i] == optional(blocked_urls_command(ad_block_list()));
        lemma_startup_step(config, i);
    }
    if config.disable_csp {
        assert(steps[4 + m + a] == optional(bypass_csp_command()));
    } else if steps.contains(optional(bypass_csp_command())) {
        let i = choose|i: int| 0 <= i < steps.len() && steps[i] == optional(bypass_csp_command());
        lemma_startup_step(config, i);
    }
    if config.mobile {
        assert(steps[5] == optional(touch_emulation_command()));
    } else if steps.contains(optional(touch_emulation_command())) {
        let i = choose|i: int|
            0 <= i < steps.len() && steps[i] == optional(touch_emulation_command());
        lemma_startup_step(config, i);
    }
}

} // verus!
