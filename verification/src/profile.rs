//! The preferences of the profile that the browser is started with.

use vstd::prelude::*;
use vstd::string::*;

use serde_json::Value;

use crate::error::ChromeError;
use crate::json::{boolean, empty_map, null, object, parse, to_text, words};
use crate::json::{distinct_keys, entries_of, json_of, parsed, plain, well_formed, written, Json};
use crate::json::{lemma_position_is, lemma_position_none, lookup};
use crate::text::split_on;
use crate::text::{after_first, before_first, lemma_before_first};
use crate::utils::{
    found, law_found_by_keys, law_merge_idempotent, law_merge_keeps_the_rest, law_merge_self, law_merge_takes_values, leaves, merged,
    open_path, placed,
};
use crate::utils::{insert_nested_pref, merge_json};

verus! {

/// What the name of a profile's directory begins with.
pub const PROFILE_PREFIX: &'static str = "uc_";

/// The directory inside a profile that holds its preferences.
pub const PROFILE_DIRECTORY: &'static str = "Default";

/// The file that holds the preferences.
pub const PREFERENCES_FILE: &'static str = "Preferences";

/// The preferences that hide automation.
pub open spec fn stealth_entries() -> Seq<(Seq<char>, Json)> {
    seq![
        ("credentials_enable_service"@, Json::Bool(false)),
        (
            "profile"@,
            Json::Object(
                seq![
                    ("password_manager_enabled"@, Json::Bool(false)),
                    ("password_manager_leak_detection"@, Json::Bool(false)),
                    ("exit_type"@, Json::Null),
                ],
            ),
        ),
        (
            "webrtc"@,
            Json::Object(
                seq![
                    ("ip_handling_policy"@, Json::Text("disable_non_proxied_udp"@)),
                    ("multiple_routes_enabled"@, Json::Bool(false)),
                    ("nonproxied_udp_enabled"@, Json::Bool(false)),
                ],
            ),
        ),
    ]
}

/// The preferences of a profile: those that hide automation, merged into what the profile's file
/// held where that was JSON.
pub open spec fn profile_json(existing: Option<Seq<char>>) -> Json {
    match existing {
        Some(text) => match parsed(text) {
            Some(v) => merged(v, Json::Object(stealth_entries())),
            None => Json::Object(stealth_entries()),
        },
        None => Json::Object(stealth_entries()),
    }
}

// ─── Building ────────────────────────────────────────────────────────────────

/// A text of two stretches with one mark between them splits into the two.
proof fn lemma_split_two(a: Seq<char>, b: Seq<char>, mark: char)
    requires
        !a.contains(mark),
        !b.contains(mark),
    ensures
        split_on(a + seq![mark] + b, mark) == seq![a, b],
{
    let s = a + seq![mark] + b;
    lemma_before_first(s, mark);
    let n = before_first(s, mark).len() as int;
    assert(s[a.len() as int] == mark);
    assert(s.contains(mark));
    if n < a.len() {
        assert(a[n] == mark);
    }
    if n > a.len() {
        assert(before_first(s, mark)[a.len() as int] == mark);
    }
    assert(before_first(s, mark) =~= a);
    assert(after_first(s, mark) =~= b);
    lemma_before_first(b, mark);
    assert(split_on(b, mark) =~= seq![b]);
    assert(split_on(s, mark) =~= seq![a, b]);
}

/// Placing a value under a key of a node that is not there yet makes the node, at the end.
proof fn lemma_place_in_new(
    entries: Seq<(Seq<char>, Json)>,
    outer: Seq<char>,
    inner: Seq<char>,
    value: Json,
)
    requires
        forall|i: int| 0 <= i < entries.len() ==> (#[trigger] entries[i]).0 != outer,
    ensures
        open_path(entries, seq![outer, inner]),
        placed(entries, seq![outer, inner], value) == entries.push(
            (outer, Json::Object(seq![(inner, value)])),
        ),
{
    let path = seq![outer, inner];
    assert(path.drop_first() =~= seq![inner]);
    lemma_position_none(entries, outer);
    let none = Seq::<(Seq<char>, Json)>::empty();
    lemma_position_none(none, inner);
    assert(open_path(none, seq![inner]));
    assert(placed(none, seq![inner], value) =~= seq![(inner, value)]);
}

/// Placing a value under a new key of the last node adds it there, at the end.
proof fn lemma_place_in_last(
    entries: Seq<(Seq<char>, Json)>,
    outer: Seq<char>,
    fields: Seq<(Seq<char>, Json)>,
    inner: Seq<char>,
    value: Json,
)
    requires
        forall|i: int| 0 <= i < entries.len() ==> (#[trigger] entries[i]).0 != outer,
        forall|i: int| 0 <= i < fields.len() ==> (#[trigger] fields[i]).0 != inner,
    ensures
        open_path(entries.push((outer, Json::Object(fields))), seq![outer, inner]),
        placed(entries.push((outer, Json::Object(fields))), seq![outer, inner], value)
            == entries.push((outer, Json::Object(fields.push((inner, value))))),
{
    let path = seq![outer, inner];
    let all = entries.push((outer, Json::Object(fields)));
    assert(path.drop_first() =~= seq![inner]);
    lemma_position_is(all, outer, entries.len() as int);
    lemma_position_none(fields, inner);
    assert(open_path(fields, seq![inner]));
    assert(placed(fields, seq![inner], value) == fields.push((inner, value)));
    assert(placed(all, path, value) =~= entries.push(
        (outer, Json::Object(fields.push((inner, value)))),
    ));
}

/// How the dotted keys of the preferences split.
proof fn lemma_preference_paths()
    ensures
        split_on("credentials_enable_service"@, '.') == seq!["credentials_enable_service"@],
        split_on("profile.password_manager_enabled"@, '.') == seq![
            "profile"@,
            "password_manager_enabled"@,
        ],
        split_on("profile.password_manager_leak_detection"@, '.') == seq![
            "profile"@,
            "password_manager_leak_detection"@,
        ],
        split_on("profile.exit_type"@, '.') == seq!["profile"@, "exit_type"@],
        split_on("webrtc.ip_handling_policy"@, '.') == seq!["webrtc"@, "ip_handling_policy"@],
        split_on("webrtc.multiple_routes_enabled"@, '.') == seq![
            "webrtc"@,
            "multiple_routes_enabled"@,
        ],
        split_on("webrtc.nonproxied_udp_enabled"@, '.') == seq![
            "webrtc"@,
            "nonproxied_udp_enabled"@,
        ],
{
    reveal_strlit("credentials_enable_service");
    reveal_strlit("profile");
    reveal_strlit("webrtc");
    reveal_strlit("password_manager_enabled");
    reveal_strlit("password_manager_leak_detection");
    reveal_strlit("exit_type");
    reveal_strlit("ip_handling_policy");
    reveal_strlit("multiple_routes_enabled");
    reveal_strlit("nonproxied_udp_enabled");
    reveal_strlit("profile.password_manager_enabled");
    reveal_strlit("profile.password_manager_leak_detection");
    reveal_strlit("profile.exit_type");
    reveal_strlit("webrtc.ip_handling_policy");
    reveal_strlit("webrtc.multiple_routes_enabled");
    reveal_strlit("webrtc.nonproxied_udp_enabled");
    lemma_before_first("credentials_enable_service"@, '.');
    assert(!"credentials_enable_service"@.contains('.'));
    lemma_split_two("profile"@, "password_manager_enabled"@, '.');
    lemma_split_two("profile"@, "password_manager_leak_detection"@, '.');
    lemma_split_two("profile"@, "exit_type"@, '.');
    lemma_split_two("webrtc"@, "ip_handling_policy"@, '.');
    lemma_split_two("webrtc"@, "multiple_routes_enabled"@, '.');
    lemma_split_two("webrtc"@, "nonproxied_udp_enabled"@, '.');
    assert("profile.password_manager_enabled"@ =~= "profile"@ + seq!['.']
        + "password_manager_enabled"@);
    assert("profile.password_manager_leak_detection"@ =~= "profile"@ + seq!['.']
        + "password_manager_leak_detection"@);
    assert("profile.exit_type"@ =~= "profile"@ + seq!['.'] + "exit_type"@);
    assert("webrtc.ip_handling_policy"@ =~= "webrtc"@ + seq!['.'] + "ip_handling_policy"@);
    assert("webrtc.multiple_routes_enabled"@ =~= "webrtc"@ + seq!['.']
        + "multiple_routes_enabled"@);
    assert("webrtc.nonproxied_udp_enabled"@ =~= "webrtc"@ + seq!['.'] + "nonproxied_udp_enabled"@);
}

/// The preferences that hide automation.
pub fn stealth_preferences() -> (r: Value)
    ensures
        json_of(r) == Json::Object(stealth_entries()),
{
    proof {
        lemma_preference_paths();
        reveal_strlit("credentials_enable_service");
        reveal_strlit("profile");
        reveal_strlit("webrtc");
        reveal_strlit("password_manager_enabled");
        reveal_strlit("password_manager_leak_detection");
        reveal_strlit("exit_type");
        reveal_strlit("ip_handling_policy");
        reveal_strlit("multiple_routes_enabled");
        reveal_strlit("nonproxied_udp_enabled");
    }
    let ghost off = Json::Bool(false);
    let ghost none = Seq::<(Seq<char>, Json)>::empty();
    let mut prefs = empty_map();
    proof {
        lemma_position_none(none, "credentials_enable_service"@);
    }
    insert_nested_pref(&mut prefs, "credentials_enable_service", boolean(false));
    let ghost one = seq![("credentials_enable_service"@, off)];
    proof {
        assert(entries_of(prefs) =~= one);
        assert("credentials_enable_service"@.len() != "profile"@.len());
        assert("credentials_enable_service"@.len() != "webrtc"@.len());
        lemma_place_in_new(one, "profile"@, "password_manager_enabled"@, off);
    }
    insert_nested_pref(&mut prefs, "profile.password_manager_enabled", boolean(false));
    let ghost p1 = seq![("password_manager_enabled"@, off)];
    proof {
        assert("password_manager_enabled"@.len() != "password_manager_leak_detection"@.len());
        lemma_place_in_last(one, "profile"@, p1, "password_manager_leak_detection"@, off);
    }
    insert_nested_pref(&mut prefs, "profile.password_manager_leak_detection", boolean(false));
    let ghost p2 = p1.push(("password_manager_leak_detection"@, off));
    proof {
        assert("exit_type"@.len() != "password_manager_enabled"@.len());
        assert("exit_type"@.len() != "password_manager_leak_detection"@.len());
        lemma_place_in_last(one, "profile"@, p2, "exit_type"@, Json::Null);
    }
    insert_nested_pref(&mut prefs, "profile.exit_type", null());
    let ghost p3 = p2.push(("exit_type"@, Json::Null));
    let ghost two = one.push(("profile"@, Json::Object(p3)));
    let ghost policy = Json::Text("disable_non_proxied_udp"@);
    proof {
        assert("profile"@.len() != "webrtc"@.len());
        lemma_place_in_new(two, "webrtc"@, "ip_handling_policy"@, policy);
    }
    insert_nested_pref(
        &mut prefs,
        "webrtc.ip_handling_policy",
        words("disable_non_proxied_udp"),
    );
    let ghost w1 = seq![("ip_handling_policy"@, policy)];
    proof {
        assert("ip_handling_policy"@.len() != "multiple_routes_enabled"@.len());
        lemma_place_in_last(two, "webrtc"@, w1, "multiple_routes_enabled"@, off);
    }
    insert_nested_pref(&mut prefs, "webrtc.multiple_routes_enabled", boolean(false));
    let ghost w2 = w1.push(("multiple_routes_enabled"@, off));
    proof {
        assert("nonproxied_udp_enabled"@.len() != "ip_handling_policy"@.len());
        assert("nonproxied_udp_enabled"@.len() != "multiple_routes_enabled"@.len());
        lemma_place_in_last(two, "webrtc"@, w2, "nonproxied_udp_enabled"@, off);
    }
    insert_nested_pref(&mut prefs, "webrtc.nonproxied_udp_enabled", boolean(false));
    let ghost w3 = w2.push(("nonproxied_udp_enabled"@, off));
    proof {
        assert(p3 =~= stealth_entries()[1].1->Object_0);
        assert(w3 =~= stealth_entries()[2].1->Object_0);
        assert(entries_of(prefs) =~= stealth_entries());
    }
    object(prefs)
}

/// The text of the preferences file: `existing` is what the file held, where there was one and it
/// could be read. Reading the file back gives the preferences, unless they hold a number with a
/// fraction. What the file held, where it was JSON, has no key twice in any object, and merging
/// the preferences that hide automation in once more would change nothing.
pub fn profile_preferences(existing: Option<&str>) -> (r: Result<String, ChromeError>)
    ensures
        r is Ok,
        r matches Ok(s) ==> s@ == written(
            profile_json(
                match existing {
                    Some(text) => Some(text@),
                    None => None,
                },
            ),
        ),
        r matches Ok(s) ==> (existing is None ==> parsed(s@) == Some(
            Json::Object(stealth_entries()),
        )),
        r matches Ok(s) ==> (existing matches Some(text) ==> plain(profile_json(Some(text@)), 128)
            ==> parsed(s@) == Some(profile_json(Some(text@)))),
        existing matches Some(text) ==> (parsed(text@) matches Some(v) ==> well_formed(v)),
        merged(
            profile_json(
                match existing {
                    Some(text) => Some(text@),
                    None => None,
                },
            ),
            Json::Object(stealth_entries()),
        ) == profile_json(
            match existing {
                Some(text) => Some(text@),
                None => None,
            },
        ),
{
    let mut prefs: Value = stealth_preferences();
    proof {
        lemma_stealth_entries();
        law_merge_self(Json::Object(stealth_entries()));
    }
    match existing {
        Some(text) => match parse(text) {
            Ok(v) => {
                proof {
                    law_profile_is_stable(json_of(v));
                }
                let mut old_prefs: Value = v;
                merge_json(&mut old_prefs, prefs);
                prefs = old_prefs;
            },
            Err(_) => {},
        },
        None => {},
    }
    match to_text(&prefs) {
        Ok(s) => Ok(s),
        Err(e) => Err(ChromeError::from(e)),
    }
}

/// The preferences that hide automation have distinct keys, and no numbers.
pub proof fn lemma_stealth_entries()
    ensures
        well_formed(Json::Object(stealth_entries())),
        plain(Json::Object(stealth_entries()), 128),
{
    reveal_strlit("credentials_enable_service");
    reveal_strlit("profile");
    reveal_strlit("webrtc");
    reveal_strlit("password_manager_enabled");
    reveal_strlit("password_manager_leak_detection");
    reveal_strlit("exit_type");
    reveal_strlit("ip_handling_policy");
    reveal_strlit("multiple_routes_enabled");
    reveal_strlit("nonproxied_udp_enabled");
    let all = stealth_entries();
    let p = all[1].1->Object_0;
    let w = all[2].1->Object_0;
    assert(all[0].0.len() == 26 && all[1].0.len() == 7 && all[2].0.len() == 6);
    assert(p[0].0.len() == 24 && p[1].0.len() == 31 && p[2].0.len() == 9);
    assert(w[0].0.len() == 18 && w[1].0.len() == 23 && w[2].0.len() == 22);
    assert(distinct_keys(all));
    assert(distinct_keys(p));
    assert(distinct_keys(w));
    assert forall|i: int| 0 <= i < p.len() implies well_formed((#[trigger] p[i]).1) && plain(
        p[i].1,
        126,
    ) by {}
    assert forall|i: int| 0 <= i < w.len() implies well_formed((#[trigger] w[i]).1) && plain(
        w[i].1,
        126,
    ) by {}
    assert(well_formed(all[1].1) && well_formed(all[2].1));
    assert(plain(all[1].1, 127) && plain(all[2].1, 127));
    assert forall|i: int| 0 <= i < all.len() implies well_formed((#[trigger] all[i]).1) && plain(
        all[i].1,
        127,
    ) by {}
}

// ─── Laws of the profile ─────────────────────────────────────────────────────

/// Law: in every profile each preference that hides automation has its value, whatever the
/// profile held.
pub proof fn law_profile_hides_automation(existing: Option<Seq<char>>, path: Seq<Seq<char>>)
    requires
        path.len() >= 1,
        found(stealth_entries(), path) is Some,
        !(found(stealth_entries(), path)->0 is Object),
    ensures
        profile_json(existing) is Object,
        found(profile_json(existing)->Object_0, path) == found(stealth_entries(), path),
{
    lemma_stealth_entries();
    if existing is Some && parsed(existing->0) is Some {
        let v = parsed(existing->0)->0;
        if let Json::Object(m) = v {
            law_merge_takes_values(m, stealth_entries(), path);
        }
    }
}

/// Law: where a profile held an object, everything in it stays that is not a preference which
/// hides automation.
pub proof fn law_profile_keeps_the_rest(text: Seq<char>, path: Seq<Seq<char>>)
    requires
        path.len() >= 1,
        parsed(text) matches Some(Json::Object(_)),
        leaves(stealth_entries(), path),
    ensures
        found(profile_json(Some(text))->Object_0, path) == found(
            (parsed(text)->0)->Object_0,
            path,
        ),
{
    lemma_stealth_entries();
    law_merge_keeps_the_rest((parsed(text)->0)->Object_0, stealth_entries(), path);
}

/// Law: writing the preferences into a profile that has them changes nothing.
pub proof fn law_profile_is_stable(v: Json)
    requires
        well_formed(v),
    ensures
        merged(
            merged(v, Json::Object(stealth_entries())),
            Json::Object(stealth_entries()),
        ) == merged(v, Json::Object(stealth_entries())),
{
    lemma_stealth_entries();
    law_merge_idempotent(v, Json::Object(stealth_entries()));
}

/// Law: in every profile, whatever it held before, passwords are not saved or watched, the last exit
/// is not recorded, and addresses do not leak around the proxy.
pub proof fn law_values_of_every_profile(existing: Option<Seq<char>>)
    ensures
        profile_json(existing) is Object,
        ({
            let prefs = profile_json(existing)->Object_0;
            &&& found(prefs, seq!["credentials_enable_service"@]) == Some(Json::Bool(false))
            &&& found(prefs, seq!["profile"@, "password_manager_enabled"@]) == Some(Json::Bool(false))
            &&& found(prefs, seq!["profile"@, "password_manager_leak_detection"@]) == Some(Json::Bool(false))
            &&& found(prefs, seq!["profile"@, "exit_type"@]) == Some(Json::Null)
            &&& found(prefs, seq!["webrtc"@, "ip_handling_policy"@]) == Some(Json::Text("disable_non_proxied_udp"@))
            &&& found(prefs, seq!["webrtc"@, "multiple_routes_enabled"@]) == Some(Json::Bool(false))
            &&& found(prefs, seq!["webrtc"@, "nonproxied_udp_enabled"@]) == Some(Json::Bool(false))
        }),
{
    lemma_stealth_values();
    law_profile_hides_automation(existing, seq!["credentials_enable_service"@]);
    law_profile_hides_automation(existing, seq!["profile"@, "password_manager_enabled"@]);
    law_profile_hides_automation(existing, seq!["profile"@, "password_manager_leak_detection"@]);
    law_profile_hides_automation(existing, seq!["profile"@, "exit_type"@]);
    law_profile_hides_automation(existing, seq!["webrtc"@, "ip_handling_policy"@]);
    law_profile_hides_automation(existing, seq!["webrtc"@, "multiple_routes_enabled"@]);
    law_profile_hides_automation(existing, seq!["webrtc"@, "nonproxied_udp_enabled"@]);
}

/// The values of the preferences that hide automation.
proof fn lemma_stealth_values()
    ensures
        found(stealth_entries(), seq!["credentials_enable_service"@]) == Some(Json::Bool(false)),
        found(stealth_entries(), seq!["profile"@, "password_manager_enabled"@]) == Some(Json::Bool(false)),
        found(stealth_entries(), seq!["profile"@, "password_manager_leak_detection"@]) == Some(Json::Bool(false)),
        found(stealth_entries(), seq!["profile"@, "exit_type"@]) == Some(Json::Null),
        found(stealth_entries(), seq!["webrtc"@, "ip_handling_policy"@]) == Some(Json::Text("disable_non_proxied_udp"@)),
        found(stealth_entries(), seq!["webrtc"@, "multiple_routes_enabled"@]) == Some(Json::Bool(false)),
        found(stealth_entries(), seq!["webrtc"@, "nonproxied_udp_enabled"@]) == Some(Json::Bool(false)),
{
    reveal_strlit("credentials_enable_service");
    reveal_strlit("profile");
    reveal_strlit("webrtc");
    reveal_strlit("password_manager_enabled");
    reveal_strlit("password_manager_leak_detection");
    reveal_strlit("exit_type");
    reveal_strlit("ip_handling_policy");
    reveal_strlit("multiple_routes_enabled");
    reveal_strlit("nonproxied_udp_enabled");
    let all = stealth_entries();
    let p = all[1].1->Object_0;
    let w = all[2].1->Object_0;
    assert(all[0].0.len() == 26 && all[1].0.len() == 7 && all[2].0.len() == 6);
    assert(p[0].0.len() == 24 && p[1].0.len() == 31 && p[2].0.len() == 9);
    assert(w[0].0.len() == 18 && w[1].0.len() == 23 && w[2].0.len() == 22);
    lemma_position_is(all, "credentials_enable_service"@, 0);
    lemma_position_is(all, "profile"@, 1);
    lemma_position_is(all, "webrtc"@, 2);
    lemma_position_is(p, "password_manager_enabled"@, 0);
    lemma_position_is(p, "password_manager_leak_detection"@, 1);
    lemma_position_is(p, "exit_type"@, 2);
    lemma_position_is(w, "ip_handling_policy"@, 0);
    lemma_position_is(w, "multiple_routes_enabled"@, 1);
    lemma_position_is(w, "nonproxied_udp_enabled"@, 2);
    law_found_by_keys(all, "credentials_enable_service"@, seq!["profile"@]);
    lemma_found_in_node(all, "profile"@, p, "password_manager_enabled"@);
    lemma_found_in_node(all, "profile"@, p, "password_manager_leak_detection"@);
    lemma_found_in_node(all, "profile"@, p, "exit_type"@);
    lemma_found_in_node(all, "webrtc"@, w, "ip_handling_policy"@);
    lemma_found_in_node(all, "webrtc"@, w, "multiple_routes_enabled"@);
    lemma_found_in_node(all, "webrtc"@, w, "nonproxied_udp_enabled"@);
}

/// What stands under two keys stands under the second in the node under the first.
proof fn lemma_found_in_node(
    entries: Seq<(Seq<char>, Json)>,
    outer: Seq<char>,
    fields: Seq<(Seq<char>, Json)>,
    inner: Seq<char>,
)
    requires
        lookup(entries, outer) == Some(Json::Object(fields)),
    ensures
        found(entries, seq![outer, inner]) == lookup(fields, inner),
{
    law_found_by_keys(entries, outer, seq![inner]);
    law_found_by_keys(fields, inner, seq![inner]);
    assert(seq![outer] + seq![inner] =~= seq![outer, inner]);
    assert(found(fields, seq![inner]) == lookup(fields, inner));
}

/// Law: a new profile, one whose file is no JSON, and one whose file holds no object get the same
/// preferences: three entries, of which the second and the third hold three each.
pub proof fn law_profiles_made_anew(text: Seq<char>)
    requires
        parsed(text) matches Some(v) ==> !(v is Object),
    ensures
        profile_json(Some(text)) == profile_json(None),
        profile_json(None)->Object_0.len() == 3,
        profile_json(None)->Object_0[1].1->Object_0.len() == 3,
        profile_json(None)->Object_0[2].1->Object_0.len() == 3,
{
}

/// Law: where the preferences of a profile are.
pub proof fn law_profile_files()
    ensures
        PROFILE_PREFIX@ == "uc_"@,
        PROFILE_DIRECTORY@ == "Default"@,
        PREFERENCES_FILE@ == "Preferences"@,
{
}

} // verus!
