//! Preference trees: dotted paths into them, and merging one into another.

use vstd::prelude::*;

use serde_json::Value;

use crate::json::{
    as_object, as_object_mut, empty_map, entry_or_insert, get, insert, into_entries, into_object,
    null, object,
};
use crate::json::{
    distinct_keys, entries_of, fields, json_of, lookup, position, upsert, well_formed, Json,
};
use crate::json::{lemma_position, lemma_position_is, lemma_position_none, lemma_upsert};
use crate::text::{contains_char, text_before, text_past};
use crate::text::{after_first, lemma_before_first, split_on};

verus! {

// ─── Paths ───────────────────────────────────────────────────────────────────

/// The entries of the node under `key`: none where nothing stands there.
pub open spec fn node(entries: Seq<(Seq<char>, Json)>, key: Seq<char>) -> Json {
    match lookup(entries, key) {
        Some(v) => v,
        None => Json::Object(Seq::empty()),
    }
}

/// Every node that a path goes through is an object, or is not there yet.
pub open spec fn open_path(entries: Seq<(Seq<char>, Json)>, path: Seq<Seq<char>>) -> bool
    decreases path.len(),
{
    path.len() > 1 ==> {
        &&& node(entries, path[0]) is Object
        &&& open_path(node(entries, path[0])->Object_0, path.drop_first())
    }
}

/// The entries with `value` at the end of the path; nodes on the way that are missing are made.
pub open spec fn placed(
    entries: Seq<(Seq<char>, Json)>,
    path: Seq<Seq<char>>,
    value: Json,
) -> Seq<(Seq<char>, Json)>
    decreases path.len(),
{
    if path.len() <= 1 {
        upsert(entries, path[0], value)
    } else {
        upsert(
            entries,
            path[0],
            Json::Object(placed(node(entries, path[0])->Object_0, path.drop_first(), value)),
        )
    }
}

/// What stands at the end of a path.
pub open spec fn found(entries: Seq<(Seq<char>, Json)>, path: Seq<Seq<char>>) -> Option<Json>
    decreases path.len(),
{
    if path.len() <= 1 {
        lookup(entries, path[0])
    } else {
        match lookup(entries, path[0]) {
            Some(Json::Object(inner)) => found(inner, path.drop_first()),
            _ => None,
        }
    }
}

/// Two paths part: at some place both go on, under different keys.
pub open spec fn part(p: Seq<Seq<char>>, q: Seq<Seq<char>>) -> bool {
    exists|i: int| 0 <= i < p.len() && i < q.len() && #[trigger] p[i] != #[trigger] q[i]
}

/// Whether a value can be inserted under dot-delimited keys: every node on the way is an object,
/// or is not there yet.
pub fn can_insert_nested_pref(prefs: &serde_json::Map<String, Value>, key: &str) -> (r: bool)
    ensures
        r == open_path(entries_of(*prefs), split_on(key@, '.')),
    decreases key@.len(),
{
    proof {
        lemma_before_first(key@, '.');
    }
    if contains_char(key, '.') {
        let cur: String = text_before(key, '.');
        let rest: String = text_past(key, '.');
        let ghost path = split_on(key@, '.');
        proof {
            lemma_split_nonempty(after_first(key@, '.'), '.');
            assert(path[0] == cur@);
            assert(path.drop_first() =~= split_on(rest@, '.'));
        }
        match get(prefs, cur.as_str()) {
            Some(nested) => match as_object(nested) {
                Some(inner) => can_insert_nested_pref(inner, rest.as_str()),
                None => false,
            },
            None => {
                proof {
                    lemma_empty_is_open(path.drop_first());
                }
                true
            },
        }
    } else {
        true
    }
}

/// Every path is open where nothing is there yet.
proof fn lemma_empty_is_open(path: Seq<Seq<char>>)
    ensures
        open_path(Seq::empty(), path),
    decreases path.len(),
{
    if path.len() > 1 {
        lemma_empty_is_open(path.drop_first());
    }
}

/// Insert a value into a nested preference map using dot-delimited keys.
///
/// For example, `"profile.password_manager_enabled"` inserts into
/// `{ "profile": { "password_manager_enabled": ... } }`.
pub fn insert_nested_pref(prefs: &mut serde_json::Map<String, Value>, key: &str, value: Value)
    requires
        open_path(entries_of(*old(prefs)), split_on(key@, '.')),
    ensures
        entries_of(*final(prefs)) == placed(
            entries_of(*old(prefs)),
            split_on(key@, '.'),
            json_of(value),
        ),
    decreases key@.len(),
{
    proof {
        lemma_before_first(key@, '.');
    }
    if contains_char(key, '.') {
        let cur: String = text_before(key, '.');
        let rest: String = text_past(key, '.');
        let ghost path = split_on(key@, '.');
        proof {
            lemma_split_nonempty(after_first(key@, '.'), '.');
            assert(path[0] == cur@);
            assert(path.drop_first() =~= split_on(rest@, '.'));
        }
        let nested = entry_or_insert(prefs, cur, object(empty_map()));
        match as_object_mut(nested) {
            Some(inner) => {
                insert_nested_pref(inner, rest.as_str(), value);
            },
            None => {
                assert(false);
            },
        }
    } else {
        insert(prefs, key.to_string(), value);
    }
}

/// A text has at least one stretch between its marks.
pub proof fn lemma_split_nonempty(s: Seq<char>, mark: char)
    ensures
        split_on(s, mark).len() >= 1,
{
}

/// Law: what is inserted at a path is found there.
pub proof fn law_insert_then_find(
    entries: Seq<(Seq<char>, Json)>,
    path: Seq<Seq<char>>,
    value: Json,
)
    requires
        path.len() >= 1,
        open_path(entries, path),
    ensures
        found(placed(entries, path, value), path) == Some(value),
    decreases path.len(),
{
    if path.len() == 1 {
        lemma_upsert(entries, path[0], value, path[0]);
    } else {
        let inner = node(entries, path[0])->Object_0;
        law_insert_then_find(inner, path.drop_first(), value);
        lemma_upsert(
            entries,
            path[0],
            Json::Object(placed(inner, path.drop_first(), value)),
            path[0],
        );
    }
}

/// Law: inserting at a path leaves what stands at every path that parts from it.
pub proof fn law_insert_keeps_others(
    entries: Seq<(Seq<char>, Json)>,
    path: Seq<Seq<char>>,
    value: Json,
    other: Seq<Seq<char>>,
)
    requires
        path.len() >= 1,
        other.len() >= 1,
        open_path(entries, path),
        part(path, other),
    ensures
        found(placed(entries, path, value), other) == found(entries, other),
    decreases path.len(),
{
    let here = if path.len() == 1 {
        value
    } else {
        Json::Object(placed(node(entries, path[0])->Object_0, path.drop_first(), value))
    };
    lemma_upsert(entries, path[0], here, other[0]);
    if path[0] == other[0] {
        let i = choose|i: int|
            0 <= i < path.len() && i < other.len() && #[trigger] path[i] != #[trigger] other[i];
        let p = path.drop_first();
        let q = other.drop_first();
        assert(p[i - 1] != q[i - 1]);
        let inner = node(entries, path[0])->Object_0;
        law_insert_keeps_others(inner, p, value, q);
        lemma_upsert(entries, path[0], here, path[0]);
        if lookup(entries, path[0]) is None {
            lemma_nothing_found(q);
        }
    }
}

/// Nothing is found in an empty object.
pub proof fn lemma_nothing_found(path: Seq<Seq<char>>)
    requires
        path.len() >= 1,
    ensures
        found(Seq::empty(), path) is None,
{
}

/// Law: of two values inserted at the same path the later one stays.
pub proof fn law_insert_twice(
    entries: Seq<(Seq<char>, Json)>,
    path: Seq<Seq<char>>,
    first: Json,
    second: Json,
)
    requires
        path.len() >= 1,
        open_path(entries, path),
    ensures
        open_path(placed(entries, path, first), path),
        placed(placed(entries, path, first), path, second) == placed(entries, path, second),
    decreases path.len(),
{
    if path.len() == 1 {
        lemma_upsert_twice(entries, path[0], first, second);
    } else {
        let inner = node(entries, path[0])->Object_0;
        let p = path.drop_first();
        law_insert_twice(inner, p, first, second);
        let one = Json::Object(placed(inner, p, first));
        let two = Json::Object(placed(inner, p, second));
        lemma_upsert(entries, path[0], one, path[0]);
        lemma_upsert_twice(entries, path[0], one, two);
    }
}

/// Of two values put under the same key the later one stays.
pub proof fn lemma_upsert_twice(
    entries: Seq<(Seq<char>, Json)>,
    key: Seq<char>,
    first: Json,
    second: Json,
)
    ensures
        upsert(upsert(entries, key, first), key, second) == upsert(entries, key, second),
{
    let once = upsert(entries, key, first);
    lemma_position(entries, key);
    lemma_position_is(once, key, position(entries, key));
    assert(upsert(once, key, second) =~= upsert(entries, key, second));
}

/// Two values are alike: they differ at most in the order in which their objects have their
/// entries.
pub open spec fn alike(a: Json, b: Json) -> bool
    decreases a,
{
    match (a, b) {
        (Json::Object(m), Json::Object(n)) => {
            &&& forall|i: int|
                0 <= i < m.len() ==> {
                    &&& lookup(n, (#[trigger] m[i]).0) is Some
                    &&& alike(m[i].1, lookup(n, m[i].0)->0)
                }
            &&& forall|j: int| 0 <= j < n.len() ==> lookup(m, (#[trigger] n[j]).0) is Some
        },
        (Json::Array(s), Json::Array(t)) => {
            &&& s.len() == t.len()
            &&& forall|i: int| 0 <= i < s.len() ==> alike(#[trigger] s[i], t[i])
        },
        _ => a == b,
    }
}

/// A value is like itself.
proof fn lemma_like_itself(v: Json)
    requires
        well_formed(v),
    ensures
        alike(v, v),
    decreases v,
{
    match v {
        Json::Object(m) => {
            assert forall|i: int| 0 <= i < m.len() implies {
                &&& lookup(m, (#[trigger] m[i]).0) is Some
                &&& alike(m[i].1, lookup(m, m[i].0)->0)
            } by {
                lemma_position_is(m, m[i].0, i);
                assert(well_formed(m[i].1));
                lemma_like_itself(m[i].1);
            }
        },
        Json::Array(s) => {
            assert forall|i: int| 0 <= i < s.len() implies alike(#[trigger] s[i], s[i]) by {
                assert(well_formed(s[i]));
                lemma_like_itself(s[i]);
            }
        },
        _ => {},
    }
}

/// Objects that hold values which are alike under the same keys are alike.
proof fn lemma_alike_by_keys(m: Seq<(Seq<char>, Json)>, n: Seq<(Seq<char>, Json)>)
    requires
        distinct_keys(m),
        distinct_keys(n),
        forall|k: Seq<char>| lookup(m, k) is Some <==> #[trigger] lookup(n, k) is Some,
        forall|k: Seq<char>|
            lookup(m, k) is Some ==> alike(lookup(m, k)->0, (#[trigger] lookup(n, k))->0),
    ensures
        alike(Json::Object(m), Json::Object(n)),
{
    assert forall|i: int| 0 <= i < m.len() implies {
        &&& lookup(n, (#[trigger] m[i]).0) is Some
        &&& alike(m[i].1, lookup(n, m[i].0)->0)
    } by {
        lemma_position_is(m, m[i].0, i);
    }
    assert forall|j: int| 0 <= j < n.len() implies lookup(m, (#[trigger] n[j]).0) is Some by {
        lemma_position_is(n, n[j].0, j);
    }
}

/// Putting a well-formed value under a key keeps entries well-formed.
proof fn lemma_upsert_well_formed(entries: Seq<(Seq<char>, Json)>, key: Seq<char>, value: Json)
    requires
        well_formed(Json::Object(entries)),
        well_formed(value),
    ensures
        well_formed(Json::Object(upsert(entries, key, value))),
{
    let after = upsert(entries, key, value);
    lemma_upsert(entries, key, value, key);
    lemma_position(entries, key);
    assert forall|i: int| 0 <= i < after.len() implies well_formed((#[trigger] after[i]).1) by {
        if i < entries.len() && i != position(entries, key) {
            assert(well_formed(entries[i].1));
        }
    }
}

/// The node under a key of well-formed entries is well-formed.
proof fn lemma_node_well_formed(entries: Seq<(Seq<char>, Json)>, key: Seq<char>)
    requires
        well_formed(Json::Object(entries)),
    ensures
        well_formed(node(entries, key)),
{
    lemma_position(entries, key);
    if position(entries, key) < entries.len() {
        assert(well_formed(entries[position(entries, key)].1));
    }
}

/// Inserting a well-formed value keeps entries well-formed.
proof fn lemma_placed_well_formed(
    entries: Seq<(Seq<char>, Json)>,
    path: Seq<Seq<char>>,
    value: Json,
)
    requires
        path.len() >= 1,
        open_path(entries, path),
        well_formed(Json::Object(entries)),
        well_formed(value),
    ensures
        well_formed(Json::Object(placed(entries, path, value))),
    decreases path.len(),
{
    if path.len() == 1 {
        lemma_upsert_well_formed(entries, path[0], value);
    } else {
        let inner = node(entries, path[0])->Object_0;
        let rest = path.drop_first();
        lemma_node_well_formed(entries, path[0]);
        lemma_placed_well_formed(inner, rest, value);
        lemma_upsert_well_formed(entries, path[0], Json::Object(placed(inner, rest, value)));
    }
}

/// The rests of two paths that begin alike and part, part.
proof fn lemma_rests_part(p: Seq<Seq<char>>, q: Seq<Seq<char>>)
    requires
        part(p, q),
        p[0] == q[0],
    ensures
        p.len() > 1,
        q.len() > 1,
        part(p.drop_first(), q.drop_first()),
{
    let i = choose|i: int| 0 <= i < p.len() && i < q.len() && #[trigger] p[i] != #[trigger] q[i];
    assert(p.drop_first()[i - 1] != q.drop_first()[i - 1]);
}

/// Inserting at a path leaves every path open that parts from it.
proof fn lemma_placed_stays_open(
    entries: Seq<(Seq<char>, Json)>,
    path: Seq<Seq<char>>,
    value: Json,
    other: Seq<Seq<char>>,
)
    requires
        path.len() >= 1,
        other.len() >= 1,
        open_path(entries, path),
        open_path(entries, other),
        part(path, other),
    ensures
        open_path(placed(entries, path, value), other),
    decreases path.len(),
{
    let here = if path.len() == 1 {
        value
    } else {
        Json::Object(placed(node(entries, path[0])->Object_0, path.drop_first(), value))
    };
    lemma_upsert(entries, path[0], here, other[0]);
    if path[0] == other[0] {
        lemma_rests_part(path, other);
        lemma_upsert(entries, path[0], here, path[0]);
        lemma_placed_stays_open(
            node(entries, path[0])->Object_0,
            path.drop_first(),
            value,
            other.drop_first(),
        );
    }
}

/// What is found at a path in objects that are alike is alike.
proof fn lemma_alike_finds(
    m: Seq<(Seq<char>, Json)>,
    n: Seq<(Seq<char>, Json)>,
    path: Seq<Seq<char>>,
)
    requires
        path.len() >= 1,
        alike(Json::Object(m), Json::Object(n)),
    ensures
        found(m, path) is Some <==> found(n, path) is Some,
        found(m, path) is Some ==> alike(found(m, path)->0, found(n, path)->0),
    decreases path.len(),
{
    reveal_with_fuel(alike, 2);
    let key = path[0];
    lemma_position(m, key);
    lemma_position(n, key);
    if position(m, key) < m.len() {
        assert(m[position(m, key)].0 == key);
        assert(alike(lookup(m, key)->0, lookup(n, key)->0));
        if path.len() > 1 {
            if let Json::Object(inner) = lookup(m, key)->0 {
                lemma_alike_finds(inner, lookup(n, key)->0->Object_0, path.drop_first());
            }
        }
    } else if position(n, key) < n.len() {
        assert(n[position(n, key)].0 == key);
    }
}

/// Law: two insertions at paths that part can be made in either order. Both orders can be made,
/// both find each value at its path, the results are alike, and so is what they find at every
/// path.
pub proof fn law_insertions_commute(
    entries: Seq<(Seq<char>, Json)>,
    p: Seq<Seq<char>>,
    v: Json,
    q: Seq<Seq<char>>,
    w: Json,
)
    requires
        p.len() >= 1,
        q.len() >= 1,
        part(p, q),
        open_path(entries, p),
        open_path(entries, q),
        well_formed(Json::Object(entries)),
        well_formed(v),
        well_formed(w),
    ensures
        open_path(placed(entries, p, v), q),
        open_path(placed(entries, q, w), p),
        found(placed(placed(entries, p, v), q, w), p) == Some(v),
        found(placed(placed(entries, p, v), q, w), q) == Some(w),
        found(placed(placed(entries, q, w), p, v), p) == Some(v),
        found(placed(placed(entries, q, w), p, v), q) == Some(w),
        alike(
            Json::Object(placed(placed(entries, p, v), q, w)),
            Json::Object(placed(placed(entries, q, w), p, v)),
        ),
        forall|path: Seq<Seq<char>>|
            #![trigger found(placed(placed(entries, p, v), q, w), path)]
            path.len() >= 1 ==> {
                let here = found(placed(placed(entries, p, v), q, w), path);
                let there = found(placed(placed(entries, q, w), p, v), path);
                &&& here is Some <==> there is Some
                &&& here is Some ==> alike(here->0, there->0)
            },
    decreases p.len(),
{
    lemma_part_symmetric(p, q);
    lemma_placed_stays_open(entries, p, v, q);
    lemma_placed_stays_open(entries, q, w, p);
    let one = placed(entries, p, v);
    let two = placed(entries, q, w);
    let a = placed(one, q, w);
    let b = placed(two, p, v);
    law_insert_then_find(entries, p, v);
    law_insert_then_find(entries, q, w);
    law_insert_then_find(one, q, w);
    law_insert_then_find(two, p, v);
    law_insert_keeps_others(one, q, w, p);
    law_insert_keeps_others(two, p, v, q);
    lemma_placed_well_formed(entries, p, v);
    lemma_placed_well_formed(entries, q, w);
    lemma_placed_well_formed(one, q, w);
    lemma_placed_well_formed(two, p, v);
    if p[0] == q[0] {
        lemma_rests_part(p, q);
        let inner = node(entries, p[0])->Object_0;
        let pr = p.drop_first();
        let qr = q.drop_first();
        lemma_node_well_formed(entries, p[0]);
        law_insertions_commute(inner, pr, v, qr, w);
        let x = Json::Object(placed(inner, pr, v));
        let y = Json::Object(placed(inner, qr, w));
        let xa = Json::Object(placed(placed(inner, pr, v), qr, w));
        let yb = Json::Object(placed(placed(inner, qr, w), pr, v));
        lemma_upsert(entries, p[0], x, p[0]);
        lemma_upsert(entries, p[0], y, p[0]);
        lemma_upsert_twice(entries, p[0], x, xa);
        lemma_upsert_twice(entries, p[0], y, yb);
        assert(a == upsert(entries, p[0], xa));
        assert(b == upsert(entries, p[0], yb));
        assert forall|k: Seq<char>| lookup(a, k) is Some <==> #[trigger] lookup(b, k) is Some by {
            lemma_upsert(entries, p[0], xa, k);
            lemma_upsert(entries, p[0], yb, k);
        }
        assert forall|k: Seq<char>| lookup(a, k) is Some implies alike(
            lookup(a, k)->0,
            (#[trigger] lookup(b, k))->0,
        ) by {
            lemma_upsert(entries, p[0], xa, k);
            lemma_upsert(entries, p[0], yb, k);
            if k != p[0] {
                lemma_node_well_formed(entries, k);
                lemma_like_itself(lookup(entries, k)->0);
            }
        }
        lemma_alike_by_keys(a, b);
    } else {
        let x = if p.len() == 1 {
            v
        } else {
            Json::Object(placed(node(entries, p[0])->Object_0, p.drop_first(), v))
        };
        let y = if q.len() == 1 {
            w
        } else {
            Json::Object(placed(node(entries, q[0])->Object_0, q.drop_first(), w))
        };
        lemma_upsert(entries, p[0], x, q[0]);
        lemma_upsert(entries, q[0], y, p[0]);
        assert(a == upsert(upsert(entries, p[0], x), q[0], y));
        assert(b == upsert(upsert(entries, q[0], y), p[0], x));
        assert forall|k: Seq<char>| lookup(a, k) == #[trigger] lookup(b, k) by {
            lemma_upsert(entries, p[0], x, k);
            lemma_upsert(entries, q[0], y, k);
            lemma_upsert(one, q[0], y, k);
            lemma_upsert(two, p[0], x, k);
        }
        assert forall|k: Seq<char>| lookup(a, k) is Some implies alike(
            lookup(a, k)->0,
            (#[trigger] lookup(b, k))->0,
        ) by {
            lemma_node_well_formed(a, k);
            lemma_like_itself(lookup(a, k)->0);
        }
        lemma_alike_by_keys(a, b);
    }
    assert forall|path: Seq<Seq<char>>| #![trigger found(a, path)] path.len() >= 1 implies {
        let here = found(a, path);
        let there = found(b, path);
        &&& here is Some <==> there is Some
        &&& here is Some ==> alike(here->0, there->0)
    } by {
        lemma_alike_finds(a, b, path);
    }
}

/// Paths that part do so either way round.
proof fn lemma_part_symmetric(p: Seq<Seq<char>>, q: Seq<Seq<char>>)
    requires
        part(p, q),
    ensures
        part(q, p),
{
    let i = choose|i: int| 0 <= i < p.len() && i < q.len() && #[trigger] p[i] != #[trigger] q[i];
    assert(q[i] != p[i]);
}

// ─── Merging ─────────────────────────────────────────────────────────────────

/// `b` merged into `a`: two objects entry by entry, and `b` in place of anything else.
pub open spec fn merged(a: Json, b: Json) -> Json
    decreases b,
{
    match (a, b) {
        (Json::Object(m), Json::Object(n)) => Json::Object(merged_entries(m, n)),
        _ => b,
    }
}

/// The entries `n` merged one after the other into the entries `m`.
pub open spec fn merged_entries(
    m: Seq<(Seq<char>, Json)>,
    n: Seq<(Seq<char>, Json)>,
) -> Seq<(Seq<char>, Json)>
    decreases n,
{
    if n.len() == 0 {
        m
    } else {
        let before = merged_entries(m, n.drop_last());
        let key = n.last().0;
        let there = match lookup(before, key) {
            Some(v) => v,
            None => Json::Null,
        };
        upsert(before, key, merged(there, n.last().1))
    }
}

/// Deep-merge JSON value `b` into `a`. Objects are merged recursively;
/// scalars in `b` overwrite those in `a`.
pub fn merge_json(a: &mut Value, b: Value)
    ensures
        json_of(*final(a)) == merged(json_of(*old(a)), json_of(b)),
    decreases json_of(b), 1int,
{
    match into_object(b) {
        Ok(bm) => {
            match as_object_mut(a) {
                Some(am) => {
                    merge_map(am, bm);
                },
                None => {
                    *a = object(bm);
                },
            }
        },
        Err(bv) => {
            *a = bv;
        },
    }
}

/// Merge the entries of `bm` one after the other into `am`.
fn merge_map(am: &mut serde_json::Map<String, Value>, bm: serde_json::Map<String, Value>)
    ensures
        entries_of(*final(am)) == merged_entries(entries_of(*old(am)), entries_of(bm)),
    decreases Json::Object(entries_of(bm)), 0int,
{
    let ghost m = entries_of(*am);
    let ghost n = entries_of(bm);
    let entries = into_entries(bm);
    for e in it: entries
        invariant
            it.seq() == entries@,
            n == fields(entries@),
            n == entries_of(bm),
            entries_of(*am) == merged_entries(m, n.take(it.index() as int)),
    {
        let ghost at = it.index() as int;
        proof {
            assert(n.take(at + 1).drop_last() =~= n.take(at));
            assert(n.take(at + 1).last() == n[at]);
            let whole = Json::Object(n);
            assert(decreases_to!(whole => whole->Object_0));
            assert(decreases_to!(n => n[at]));
            assert(decreases_to!(n[at] => n[at].1));
            assert(json_of(e.1) == n[at].1);
        }
        merge_json(entry_or_insert(am, e.0, null()), e.1);
    }
    assert(n.take(n.len() as int) =~= n);
}

/// Law: after a merge each key holds what `n` has under it, merged into what `m` had there, and
/// what `m` had where `n` has nothing.
pub proof fn law_merge_lookup(
    m: Seq<(Seq<char>, Json)>,
    n: Seq<(Seq<char>, Json)>,
    key: Seq<char>,
)
    requires
        distinct_keys(n),
    ensures
        lookup(merged_entries(m, n), key) == (match (lookup(m, key), lookup(n, key)) {
            (there, None) => there,
            (None, Some(v)) => Some(v),
            (Some(u), Some(v)) => Some(merged(u, v)),
        }),
    decreases n.len(),
{
    if n.len() > 0 {
        let front = n.drop_last();
        let k = n.last().0;
        assert(distinct_keys(front)) by {
            assert forall|i: int, j: int| 0 <= i < j < front.len() implies #[trigger] front[i].0
                != #[trigger] front[j].0 by {
                assert(n[i].0 != n[j].0);
            }
        }
        law_merge_lookup(m, front, key);
        let before = merged_entries(m, front);
        let there = match lookup(before, k) {
            Some(v) => v,
            None => Json::Null,
        };
        lemma_upsert(before, k, merged(there, n.last().1), key);
        if key == k {
            assert forall|i: int| 0 <= i < front.len() implies (#[trigger] front[i]).0 != k by {
                assert(n[i].0 != n[n.len() - 1].0);
            }
            lemma_position_none(front, k);
            lemma_position_is(n, k, n.len() - 1);
        } else {
            lemma_lookup_front(n, key);
        }
    } else {
        lemma_position_none(n, key);
    }
}

/// Where the last entry is under another key, the value under a key is that of the others.
proof fn lemma_lookup_front(n: Seq<(Seq<char>, Json)>, key: Seq<char>)
    requires
        n.len() > 0,
        n.last().0 != key,
    ensures
        lookup(n, key) == lookup(n.drop_last(), key),
{
    let front = n.drop_last();
    lemma_position(front, key);
    let p = position(front, key);
    assert forall|i: int| 0 <= i < p && i < n.len() implies (#[trigger] n[i]).0 != key by {
        if i < front.len() {
            assert(front[i].0 != key);
        }
    }
    if p < front.len() {
        lemma_position_is(n, key, p);
    } else {
        lemma_position_none(n, key);
    }
}

/// Law: every value of `n` that is not an object is found in the merge, at the same path.
pub proof fn law_merge_takes_values(
    m: Seq<(Seq<char>, Json)>,
    n: Seq<(Seq<char>, Json)>,
    path: Seq<Seq<char>>,
)
    requires
        path.len() >= 1,
        well_formed(Json::Object(n)),
        found(n, path) is Some,
        !(found(n, path)->0 is Object),
    ensures
        found(merged_entries(m, n), path) == found(n, path),
    decreases path.len(),
{
    law_merge_lookup(m, n, path[0]);
    lemma_position(n, path[0]);
    if path.len() > 1 {
        let inner = lookup(n, path[0])->0->Object_0;
        assert(well_formed(n[position(n, path[0])].1));
        if let Some(Json::Object(there)) = lookup(m, path[0]) {
            law_merge_takes_values(there, inner, path.drop_first());
        }
    }
}

/// A path leaves the tree: it goes through objects to a key that is not there.
pub open spec fn leaves(entries: Seq<(Seq<char>, Json)>, path: Seq<Seq<char>>) -> bool
    decreases path.len(),
{
    path.len() > 0 && match lookup(entries, path[0]) {
        None => true,
        Some(Json::Object(inner)) => leaves(inner, path.drop_first()),
        Some(_) => false,
    }
}

/// Law: at every path that leaves `n` the merge holds what `m` held.
pub proof fn law_merge_keeps_the_rest(
    m: Seq<(Seq<char>, Json)>,
    n: Seq<(Seq<char>, Json)>,
    path: Seq<Seq<char>>,
)
    requires
        well_formed(Json::Object(n)),
        leaves(n, path),
    ensures
        found(merged_entries(m, n), path) == found(m, path),
    decreases path.len(),
{
    law_merge_lookup(m, n, path[0]);
    lemma_position(n, path[0]);
    if let Some(Json::Object(inner)) = lookup(n, path[0]) {
        let rest = path.drop_first();
        assert(well_formed(n[position(n, path[0])].1));
        if let Some(Json::Object(there)) = lookup(m, path[0]) {
            law_merge_keeps_the_rest(there, inner, rest);
        } else {
            lemma_leaves_finds_nothing(inner, rest);
        }
    }
}

/// Nothing is found at a path that leaves the tree.
proof fn lemma_leaves_finds_nothing(entries: Seq<(Seq<char>, Json)>, path: Seq<Seq<char>>)
    requires
        leaves(entries, path),
    ensures
        found(entries, path) is None,
    decreases path.len(),
{
    if let Some(Json::Object(inner)) = lookup(entries, path[0]) {
        lemma_leaves_finds_nothing(inner, path.drop_first());
    }
}

/// Law: a merge moves no key of the target, and repeats none.
pub proof fn law_merge_keeps_keys(m: Seq<(Seq<char>, Json)>, n: Seq<(Seq<char>, Json)>)
    ensures
        merged_entries(m, n).len() >= m.len(),
        forall|i: int|
            0 <= i < m.len() ==> (#[trigger] merged_entries(m, n)[i]).0 == m[i].0,
        distinct_keys(m) ==> distinct_keys(merged_entries(m, n)),
    decreases n.len(),
{
    if n.len() > 0 {
        let front = n.drop_last();
        law_merge_keeps_keys(m, front);
        let before = merged_entries(m, front);
        let k = n.last().0;
        let there = match lookup(before, k) {
            Some(v) => v,
            None => Json::Null,
        };
        lemma_upsert(before, k, merged(there, n.last().1), k);
        lemma_position(before, k);
        assert forall|i: int| 0 <= i < m.len() implies (#[trigger] merged_entries(m, n)[i]).0
            == m[i].0 by {
            assert(before[i].0 == m[i].0);
        }
    }
}

/// Where the target has every key of `n`, a merge adds none.
proof fn lemma_merge_adds_none(m: Seq<(Seq<char>, Json)>, n: Seq<(Seq<char>, Json)>)
    requires
        forall|i: int| 0 <= i < n.len() ==> lookup(m, (#[trigger] n[i]).0) is Some,
    ensures
        merged_entries(m, n).len() == m.len(),
    decreases n.len(),
{
    if n.len() > 0 {
        let front = n.drop_last();
        assert forall|i: int| 0 <= i < front.len() implies lookup(m, (#[trigger] front[i]).0)
            is Some by {
            assert(n[i] == front[i]);
        }
        lemma_merge_adds_none(m, front);
        law_merge_keeps_keys(m, front);
        let before = merged_entries(m, front);
        let k = n[n.len() - 1].0;
        lemma_position(m, k);
        let p = position(m, k);
        assert(before[p].0 == k);
        lemma_position(before, k);
    }
}

/// Entries with the same distinct keys in the same order, and the same value under each, are the
/// same.
proof fn lemma_same_entries(s: Seq<(Seq<char>, Json)>, t: Seq<(Seq<char>, Json)>)
    requires
        s.len() == t.len(),
        distinct_keys(s),
        forall|i: int| 0 <= i < s.len() ==> (#[trigger] s[i]).0 == t[i].0,
        forall|i: int| 0 <= i < s.len() ==> lookup(s, (#[trigger] s[i]).0) == lookup(t, s[i].0),
    ensures
        s == t,
{
    assert forall|i: int| 0 <= i < s.len() implies s[i] == t[i] by {
        assert forall|j: int| 0 <= j < i implies (#[trigger] t[j]).0 != s[i].0 by {
            assert(s[j].0 != s[i].0);
        }
        lemma_position_is(s, s[i].0, i);
        lemma_position_is(t, s[i].0, i);
    }
    assert(s =~= t);
}

/// Law: a value merged into itself is unchanged.
pub proof fn law_merge_self(v: Json)
    requires
        well_formed(v),
    ensures
        merged(v, v) == v,
    decreases v,
{
    if let Json::Object(n) = v {
        law_merge_keeps_keys(n, n);
        assert forall|i: int| 0 <= i < n.len() implies lookup(n, (#[trigger] n[i]).0) == Some(
            n[i].1,
        ) by {
            lemma_position_is(n, n[i].0, i);
        }
        lemma_merge_adds_none(n, n);
        let after = merged_entries(n, n);
        assert forall|i: int| 0 <= i < n.len() implies lookup(n, (#[trigger] n[i]).0) == lookup(
            after,
            n[i].0,
        ) by {
            law_merge_lookup(n, n, n[i].0);
            assert(well_formed(n[i].1));
            law_merge_self(n[i].1);
        }
        lemma_same_entries(n, after);
    }
}

/// Law: merging the same value in a second time changes nothing.
pub proof fn law_merge_idempotent(a: Json, b: Json)
    requires
        well_formed(a),
        well_formed(b),
    ensures
        merged(merged(a, b), b) == merged(a, b),
    decreases b,
{
    match (a, b) {
        (Json::Object(m), Json::Object(n)) => {
            let once = merged_entries(m, n);
            let twice = merged_entries(once, n);
            law_merge_keeps_keys(m, n);
            law_merge_keeps_keys(once, n);
            assert forall|i: int| 0 <= i < n.len() implies lookup(once, (#[trigger] n[i]).0)
                is Some by {
                lemma_position_is(n, n[i].0, i);
                law_merge_lookup(m, n, n[i].0);
            }
            lemma_merge_adds_none(once, n);
            assert forall|i: int| 0 <= i < once.len() implies lookup(once, (#[trigger] once[i]).0)
                == lookup(twice, once[i].0) by {
                let k = once[i].0;
                law_merge_lookup(m, n, k);
                law_merge_lookup(once, n, k);
                lemma_position(n, k);
                let p = position(n, k);
                if p < n.len() {
                    let v = n[p].1;
                    assert(well_formed(v));
                    lemma_position(m, k);
                    let q = position(m, k);
                    if q < m.len() {
                        assert(well_formed(m[q].1));
                        law_merge_idempotent(m[q].1, v);
                    } else {
                        law_merge_self(v);
                    }
                }
            }
            lemma_same_entries(once, twice);
        },
        _ => {
            law_merge_self(b);
        },
    }
}

// ─── Laws of single steps ────────────────────────────────────────────────────

/// Law: a path of one key leads to what stands under the key, and a longer one goes on in the
/// object that stands under its first key.
pub proof fn law_found_by_keys(
    entries: Seq<(Seq<char>, Json)>,
    key: Seq<char>,
    rest: Seq<Seq<char>>,
)
    requires
        rest.len() >= 1,
    ensures
        found(entries, seq![key]) == lookup(entries, key),
        lookup(entries, key) is None ==> found(entries, seq![key] + rest) is None,
        lookup(entries, key) matches Some(v) && !(v is Object) ==> found(entries, seq![key] + rest)
            is None,
        forall|inner: Seq<(Seq<char>, Json)>|
            lookup(entries, key) == Some(Json::Object(inner)) ==> found(entries, seq![key] + rest)
                == #[trigger] found(inner, rest),
        open_path(entries, seq![key]),
        lookup(entries, key) is None ==> open_path(entries, seq![key] + rest),
        lookup(entries, key) matches Some(v) && !(v is Object) ==> !open_path(
            entries,
            seq![key] + rest,
        ),
        forall|inner: Seq<(Seq<char>, Json)>|
            lookup(entries, key) == Some(Json::Object(inner)) ==> open_path(
                entries,
                seq![key] + rest,
            ) == #[trigger] open_path(inner, rest),
{
    let path = seq![key] + rest;
    assert(path.drop_first() =~= rest);
    assert(path[0] == key);
    lemma_empty_is_open(rest);
}

/// Law: a value that is no object takes the place of whatever was there, null included, and so
/// does an object where there was none.
pub proof fn law_merge_replaces(a: Json, b: Json)
    ensures
        !(b is Object) ==> merged(a, b) == b,
        !(a is Object) ==> merged(a, b) == b,
        a is Object && b is Object ==> merged(a, b) is Object,
{
}

} // verus!
