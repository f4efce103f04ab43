//! Which chromedriver to download: the installed browser's version, and the address that goes
//! with it.

use vstd::prelude::*;
use vstd::string::*;
use vstd::utf8::{decode_utf8, valid_utf8};

use serde_json::Value;

use crate::error::says;
use crate::error::ChromeError;
use crate::json::{as_str, get_member};
use crate::json::lemma_position_is;
use crate::json::{json_of, member, Json};
use crate::text::{chars_of, push_char, same_text, string_from_utf8, text_before};
use crate::text::{
    before_first, digits, law_first_mark, law_first_mark_is, lemma_digits, value_of,
};

verus! {

// ─── Version ─────────────────────────────────────────────────────────────────

/// The command that prints the browser's version on an operating system, with its arguments.
pub open spec fn version_command_for(os: Seq<char>) -> Option<(Seq<char>, Seq<Seq<char>>)> {
    if os == "linux"@ {
        Some(("/usr/bin/google-chrome"@, seq!["--version"@]))
    } else if os == "macos"@ {
        Some(
            (
                "/Applications/Google Chrome.app/Contents/MacOS/Google Chrome"@,
                seq!["--version"@],
            ),
        )
    } else if os == "windows"@ {
        Some(
            (
                "powershell"@,
                seq![
                    "-c"@,
                    "(Get-Item 'C:/Program Files/Google/Chrome/Application/chrome.exe').VersionInfo"@,
                ],
            ),
        )
    } else {
        None
    }
}

/// The texts of a list of constants.
pub open spec fn spelled(list: Seq<&'static str>) -> Seq<Seq<char>> {
    list.map_values(|s: &'static str| s@)
}

/// The command that prints the browser's version on an operating system, with its arguments.
pub fn version_command(os: &str) -> (r: Result<(&'static str, Vec<&'static str>), ChromeError>)
    ensures
        r is Ok <==> version_command_for(os@) is Some,
        r matches Ok(c) ==> version_command_for(os@) == Some((c.0@, spelled(c.1@))),
        r matches Err(e) ==> says(e, "Unsupported OS for Chrome version detection"@),
{
    if same_text(os, "linux") {
        let args = vec!["--version"];
        assert(spelled(args@) =~= seq!["--version"@]);
        Ok(("/usr/bin/google-chrome", args))
    } else if same_text(os, "macos") {
        let args = vec!["--version"];
        assert(spelled(args@) =~= seq!["--version"@]);
        Ok(("/Applications/Google Chrome.app/Contents/MacOS/Google Chrome", args))
    } else if same_text(os, "windows") {
        let args = vec![
            "-c",
            "(Get-Item 'C:/Program Files/Google/Chrome/Application/chrome.exe').VersionInfo",
        ];
        assert(spelled(args@) =~= seq![
            "-c"@,
            "(Get-Item 'C:/Program Files/Google/Chrome/Application/chrome.exe').VersionInfo"@,
        ]);
        Ok(("powershell", args))
    } else {
        Err(ChromeError::from("Unsupported OS for Chrome version detection"))
    }
}

/// An ASCII digit.
pub open spec fn is_digit(c: char) -> bool {
    '0' <= c && c <= '9'
}

/// The ASCII digits of a text, in order.
pub open spec fn digits_in(s: Seq<char>) -> Seq<char>
    decreases s.len(),
{
    if s.len() == 0 {
        Seq::empty()
    } else if is_digit(s.last()) {
        digits_in(s.drop_last()).push(s.last())
    } else {
        digits_in(s.drop_last())
    }
}

/// The ASCII digits of a text, in order.
fn keep_digits(s: &str) -> (r: String)
    ensures
        r@ == digits_in(s@),
{
    let chars: Vec<char> = chars_of(s);
    let mut out: String = String::new();
    let mut i: usize = 0;
    while i < chars.len()
        invariant
            i <= chars.len(),
            chars@ == s@,
            out@ == digits_in(s@.take(i as int)),
        decreases chars.len() - i,
    {
        assert(s@.take(i + 1).drop_last() =~= s@.take(i as int));
        if '0' <= chars[i] && chars[i] <= '9' {
            push_char(&mut out, chars[i]);
        }
        i = i + 1;
    }
    assert(s@.take(i as int) =~= s@);
    out
}

/// The major version in what the browser prints: the digits before the first dot.
pub open spec fn major_version(output: Seq<char>) -> Seq<char> {
    digits_in(before_first(output, '.'))
}

/// The browser's major version, from what its command printed.
pub fn get_chrome_version(stdout: Vec<u8>) -> (r: Result<String, ChromeError>)
    ensures
        !valid_utf8(stdout@) ==> r is Err && r->Err_0 is Utf8,
        valid_utf8(stdout@) ==> {
            let version = major_version(decode_utf8(stdout@));
            &&& r is Ok <==> version.len() > 0
            &&& r matches Ok(s) ==> s@ == version
            &&& r matches Err(e) ==> says(e, "Could not determine Chrome version"@)
        },
{
    match string_from_utf8(stdout) {
        Ok(output) => {
            let head: String = text_before(output.as_str(), '.');
            let version: String = keep_digits(head.as_str());
            if same_text(version.as_str(), "") {
                proof {
                    reveal_strlit("");
                }
                return Err(ChromeError::from("Could not determine Chrome version"));
            }
            proof {
                reveal_strlit("");
                if version@.len() == 0 {
                    assert(version@ =~= ""@);
                }
            }
            Ok(version)
        },
        Err(e) => Err(ChromeError::from(e)),
    }
}

/// The number that a row of digits stands for.
pub open spec fn number(digits: Seq<char>) -> nat
    decreases digits.len(),
{
    if digits.len() == 0 {
        0
    } else {
        number(digits.drop_last()) * 10 + (digits.last() as nat - '0' as nat) as nat
    }
}

/// The first version whose driver is listed by milestone.
pub const FIRST_LISTED: u32 = 114;

/// The driver of a version is listed by milestone: the version's number is 114 or more.
pub open spec fn listed(version: Seq<char>) -> bool {
    number(digits_in(version)) >= FIRST_LISTED
}

/// Whether the driver of a version is listed by milestone.
pub fn is_listed(version: &str) -> (r: bool)
    ensures
        r == listed(version@),
{
    let digits: String = keep_digits(version);
    let chars: Vec<char> = chars_of(digits.as_str());
    let ghost all = digits@;
    proof {
        lemma_digits_only(version@);
    }
    let mut reached: bool = false;
    let mut value: u32 = 0;
    let mut i: usize = 0;
    while i < chars.len()
        invariant
            i <= chars.len(),
            chars@ == all,
            forall|j: int| 0 <= j < all.len() ==> is_digit(#[trigger] all[j]),
            reached == (number(all.take(i as int)) >= FIRST_LISTED),
            !reached ==> value == number(all.take(i as int)),
        decreases chars.len() - i,
    {
        proof {
            assert(all.take(i + 1).drop_last() =~= all.take(i as int));
            assert(is_digit(all[i as int]));
        }
        let d: u32 = chars[i] as u32 - 48;
        if !reached {
            value = value * 10 + d;
            reached = value >= FIRST_LISTED;
        }
        i = i + 1;
    }
    assert(all.take(i as int) =~= all);
    reached
}

/// What is kept of a text are digits.
proof fn lemma_digits_only(s: Seq<char>)
    ensures
        forall|j: int| 0 <= j < digits_in(s).len() ==> is_digit(#[trigger] digits_in(s)[j]),
    decreases s.len(),
{
    if s.len() > 0 {
        let front = digits_in(s.drop_last());
        lemma_digits_only(s.drop_last());
        assert forall|j: int| 0 <= j < digits_in(s).len() implies is_digit(
            #[trigger] digits_in(s)[j],
        ) by {
            if j < front.len() {
                assert(is_digit(front[j]));
            }
        }
    }
}

/// Of a text of digits everything is kept.
proof fn lemma_digits_kept(s: Seq<char>)
    requires
        forall|j: int| 0 <= j < s.len() ==> is_digit(#[trigger] s[j]),
    ensures
        digits_in(s) == s,
    decreases s.len(),
{
    if s.len() > 0 {
        lemma_digits_kept(s.drop_last());
        assert(is_digit(s[s.len() - 1]));
        assert(digits_in(s) =~= s);
    }
}

/// Law: a version that was found is a number, written in digits alone.
pub proof fn law_version_is_digits(output: Seq<char>)
    ensures
        forall|j: int|
            0 <= j < major_version(output).len() ==> is_digit(#[trigger] major_version(output)[j]),
        digits_in(major_version(output)) == major_version(output),
{
    lemma_digits_only(before_first(output, '.'));
    lemma_digits_kept(major_version(output));
}

// ─── Addresses ───────────────────────────────────────────────────────────────

/// Where the versions are listed by milestone.
pub const MILESTONES_URL: &'static str = "https://googlechromelabs.github.io/chrome-for-testing/latest-versions-per-milestone.json";

/// Where the last release of an older version is named.
pub open spec fn latest_release_address(version: Seq<char>) -> Seq<char> {
    "https://chromedriver.storage.googleapis.com/LATEST_RELEASE_"@ + version
}

/// The address to ask before the download: the list of milestones, or the last release of an
/// older version.
pub fn lookup_url(version: &str) -> (r: String)
    ensures
        r@ == (if listed(version@) {
            MILESTONES_URL@
        } else {
            latest_release_address(version@)
        }),
{
    if is_listed(version) {
        MILESTONES_URL.to_string()
    } else {
        let mut url: String = "https://chromedriver.storage.googleapis.com/LATEST_RELEASE_".to_string();
        url.append(version);
        url
    }
}

/// The platform and the archive of a listed driver.
pub open spec fn listed_platform(os: Seq<char>, arch: Seq<char>) -> Option<
    (Seq<char>, Seq<char>),
> {
    if os == "linux"@ {
        Some(("linux64"@, "chromedriver-linux64.zip"@))
    } else if os == "windows"@ {
        Some(("win64"@, "chromedriver-win64.zip"@))
    } else if os == "macos"@ && arch == "aarch64"@ {
        Some(("mac-arm64"@, "chromedriver-mac-arm64.zip"@))
    } else if os == "macos"@ {
        Some(("mac-x64"@, "chromedriver-mac-x64.zip"@))
    } else {
        None
    }
}

/// The full version that the list of milestones names for a major version.
pub open spec fn listed_version(milestones: Json, version: Seq<char>) -> Option<Seq<char>> {
    match member(member(member(milestones, "milestones"@), version), "version"@) {
        Json::Text(full) => Some(full),
        _ => None,
    }
}

/// Where a listed driver is downloaded from.
pub open spec fn listed_address(
    full: Seq<char>,
    platform: Seq<char>,
    zip_name: Seq<char>,
) -> Seq<char> {
    "https://storage.googleapis.com/chrome-for-testing-public/"@ + full + "/"@ + platform + "/"@
        + zip_name
}

/// The platform and the archive of a listed driver.
fn platform_of(os: &str, arch: &str) -> (r: Option<(&'static str, &'static str)>)
    ensures
        r is Some <==> listed_platform(os@, arch@) is Some,
        r matches Some(p) ==> listed_platform(os@, arch@) == Some((p.0@, p.1@)),
{
    if same_text(os, "linux") {
        Some(("linux64", "chromedriver-linux64.zip"))
    } else if same_text(os, "windows") {
        Some(("win64", "chromedriver-win64.zip"))
    } else if same_text(os, "macos") {
        if same_text(arch, "aarch64") {
            Some(("mac-arm64", "chromedriver-mac-arm64.zip"))
        } else {
            Some(("mac-x64", "chromedriver-mac-x64.zip"))
        }
    } else {
        None
    }
}

/// Resolve the download address of a listed driver, from the list of milestones. A version that
/// is not in the list is reported before a platform that is not supported.
pub fn get_new_chrome_url(milestones: &Value, version: &str, os: &str, arch: &str) -> (r: Result<
    String,
    ChromeError,
>)
    ensures
        match (listed_version(json_of(*milestones), version@), listed_platform(os@, arch@)) {
            (None, _) => r is Err && says(r->Err_0, "Version not found in milestone JSON"@),
            (Some(_), None) => r is Err && says(r->Err_0, "Unsupported OS/arch combination"@),
            (Some(full), Some(p)) => r is Ok && r->Ok_0@ == listed_address(full, p.0, p.1),
        },
{
    let entry = get_member(get_member(milestones, "milestones"), version);
    match as_str(get_member(entry, "version")) {
        Some(full) => match platform_of(os, arch) {
            Some(p) => {
                let mut url: String = "https://storage.googleapis.com/chrome-for-testing-public/".to_string();
                url.append(full);
                url.append("/");
                url.append(p.0);
                url.append("/");
                url.append(p.1);
                Ok(url)
            },
            None => Err(ChromeError::from("Unsupported OS/arch combination")),
        },
        None => Err(ChromeError::from("Version not found in milestone JSON")),
    }
}

/// The archive of an older driver, or why there is none.
pub open spec fn legacy_archive(os: Seq<char>, arch: Seq<char>) -> Result<Seq<char>, Seq<char>> {
    if os == "linux"@ {
        Ok("chromedriver_linux64.zip"@)
    } else if os == "windows"@ {
        Ok("chromedriver_win32.zip"@)
    } else if os == "macos"@ && arch == "aarch64"@ {
        Err("macOS Apple Silicon + Chrome <114 unsupported"@)
    } else if os == "macos"@ {
        Ok("chromedriver_mac64.zip"@)
    } else {
        Err("Unsupported OS/arch combination"@)
    }
}

/// Resolve the download address of an older driver, from the name of its last release.
pub fn get_legacy_chrome_url(latest: &str, os: &str, arch: &str) -> (r: Result<
    String,
    ChromeError,
>)
    ensures
        match legacy_archive(os@, arch@) {
            Ok(zip_name) => r is Ok && r->Ok_0@ == "https://chromedriver.storage.googleapis.com/"@
                + latest@ + "/"@ + zip_name,
            Err(words) => r is Err && says(r->Err_0, words),
        },
{
    let zip_name: &str = if same_text(os, "linux") {
        "chromedriver_linux64.zip"
    } else if same_text(os, "windows") {
        "chromedriver_win32.zip"
    } else if same_text(os, "macos") {
        if same_text(arch, "aarch64") {
            return Err(ChromeError::from("macOS Apple Silicon + Chrome <114 unsupported"));
        }
        "chromedriver_mac64.zip"
    } else {
        return Err(ChromeError::from("Unsupported OS/arch combination"));
    };
    let mut url: String = "https://chromedriver.storage.googleapis.com/".to_string();
    url.append(latest);
    url.append("/");
    url.append(zip_name);
    Ok(url)
}

/// Law: a platform whose older drivers can be had has listed drivers too.
pub proof fn law_listed_platforms_cover_legacy(os: Seq<char>, arch: Seq<char>)
    ensures
        legacy_archive(os, arch) is Ok ==> listed_platform(os, arch) is Some,
{
}

/// Law: the major version is made of the digits before the first dot, all of them and in order,
/// whatever stands around them.
pub proof fn law_major_version(head: Seq<char>, rest: Seq<char>)
    requires
        !head.contains('.'),
    ensures
        major_version(head + seq!['.'] + rest) == head.filter(|c: char| '0' <= c && c <= '9'),
        major_version(head) == head.filter(|c: char| '0' <= c && c <= '9'),
{
    law_first_mark_is(head, '.', rest);
    law_first_mark(head, '.');
    lemma_digits_filtered(head);
}

/// The digits of a text are what a filter leaves of it.
proof fn lemma_digits_filtered(s: Seq<char>)
    ensures
        digits_in(s) == s.filter(|c: char| '0' <= c && c <= '9'),
    decreases s.len(),
{
    reveal(Seq::filter);
    if s.len() > 0 {
        lemma_digits_filtered(s.drop_last());
    }
}

/// Law: versions are compared as numbers: the driver of a version is listed exactly where the
/// version's number is 114 or more.
pub proof fn law_listed_by_number(n: nat)
    ensures
        listed(digits(n)) <==> n >= 114,
{
    lemma_digits(n);
    lemma_digits_kept(digits(n));
    lemma_number_is_value(digits(n));
}

proof fn lemma_number_is_value(row: Seq<char>)
    requires
        forall|j: int| 0 <= j < row.len() ==> is_digit(#[trigger] row[j]),
    ensures
        number(row) == value_of(row),
    decreases row.len(),
{
    if row.len() > 0 {
        assert(is_digit(row[row.len() - 1]));
        lemma_number_is_value(row.drop_last());
    }
}

/// Law: a version that is no number of its own counts by its digits, and a greater number is
/// listed where a smaller one is.
pub proof fn law_listed_is_monotone(a: Seq<char>, b: Seq<char>)
    requires
        forall|j: int| 0 <= j < a.len() ==> '0' <= #[trigger] a[j] && a[j] <= '9',
        forall|j: int| 0 <= j < b.len() ==> '0' <= #[trigger] b[j] && b[j] <= '9',
        value_of(a) <= value_of(b),
    ensures
        listed(a) ==> listed(b),
        listed(a) <==> value_of(a) >= 114,
{
    lemma_digits_kept(a);
    lemma_digits_kept(b);
    lemma_number_is_value(a);
    lemma_number_is_value(b);
}

/// Law: a download's address holds the full version, the platform and the archive, one behind the
/// other, and is told by the list of milestones alone.
pub proof fn law_addresses(
    full: Seq<char>,
    platform: Seq<char>,
    zip_name: Seq<char>,
    version: Seq<char>,
)
    ensures
        listed_address(full, platform, zip_name)
            == "https://storage.googleapis.com/chrome-for-testing-public/"@ + full + "/"@ + platform
            + "/"@ + zip_name,
        latest_release_address(version)
            == "https://chromedriver.storage.googleapis.com/LATEST_RELEASE_"@ + version,
        listed_version(
            Json::Object(
                seq![
                    (
                        "milestones"@,
                        Json::Object(
                            seq![(version, Json::Object(seq![("version"@, Json::Text(full))]))],
                        ),
                    ),
                ],
            ),
            version,
        ) == Some(full),
{
    let inner = seq![("version"@, Json::Text(full))];
    let middle = seq![(version, Json::Object(inner))];
    let outer = seq![("milestones"@, Json::Object(middle))];
    lemma_position_is(inner, "version"@, 0);
    lemma_position_is(middle, version, 0);
    lemma_position_is(outer, "milestones"@, 0);
}

/// Law: a full version is named exactly where the list has a text under `version` of the entry of
/// the version under `milestones`.
pub proof fn law_listed_version(milestones: Json, version: Seq<char>, full: Seq<char>)
    ensures
        listed_version(milestones, version) == Some(full) <==> member(
            member(member(milestones, "milestones"@), version),
            "version"@,
        ) == Json::Text(full),
{
}

/// Law: which platforms have a driver, and of which processor. The processor matters on macOS
/// alone.
pub proof fn law_platforms(arch: Seq<char>, other: Seq<char>)
    requires
        other != "linux"@ && other != "windows"@ && other != "macos"@,
    ensures
        listed_platform("linux"@, arch) == Some(("linux64"@, "chromedriver-linux64.zip"@)),
        listed_platform("windows"@, arch) == Some(("win64"@, "chromedriver-win64.zip"@)),
        listed_platform("macos"@, "aarch64"@) == Some(
            ("mac-arm64"@, "chromedriver-mac-arm64.zip"@),
        ),
        arch != "aarch64"@ ==> listed_platform("macos"@, arch) == Some(
            ("mac-x64"@, "chromedriver-mac-x64.zip"@),
        ),
        listed_platform(other, arch) is None,
        legacy_archive("linux"@, arch) == Ok::<Seq<char>, Seq<char>>("chromedriver_linux64.zip"@),
        legacy_archive("windows"@, arch) == Ok::<Seq<char>, Seq<char>>("chromedriver_win32.zip"@),
        legacy_archive("macos"@, "aarch64"@) is Err,
        arch != "aarch64"@ ==> legacy_archive("macos"@, arch) == Ok::<Seq<char>, Seq<char>>(
            "chromedriver_mac64.zip"@,
        ),
        legacy_archive(other, arch) == Err::<Seq<char>, Seq<char>>(
            "Unsupported OS/arch combination"@,
        ),
        version_command_for("linux"@) is Some,
        version_command_for("windows"@) is Some,
        version_command_for("macos"@) is Some,
        version_command_for(other) is None,
{
    reveal_strlit("linux");
    reveal_strlit("windows");
    reveal_strlit("macos");
    assert("linux"@[0] == 'l' && "windows"@[0] == 'w' && "macos"@[0] == 'm');
}

/// Law: the arguments of a command are spelled as they are, each in its place.
pub proof fn law_arguments_are_spelled(list: Seq<&'static str>)
    ensures
        spelled(list).len() == list.len(),
        forall|i: int| 0 <= i < list.len() ==> #[trigger] spelled(list)[i] == list[i]@,
{
}

/// Law: where the list of versions is, and from which version on a driver is looked for in it.
pub proof fn law_list_of_versions()
    ensures
        MILESTONES_URL@
            == "https://googlechromelabs.github.io/chrome-for-testing/latest-versions-per-milestone.json"@,
        FIRST_LISTED == 114,
{
}

} // verus!
