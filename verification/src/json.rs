//! JSON values of `serde_json`: what they hold, and what its operations do to them.
//!
//! `serde_json` is built with its feature `preserve_order`, so an object keeps its entries in
//! the order in which their keys came first.

use vstd::prelude::*;
use vstd::string::*;

use serde_json::Value;

use crate::text::{decimal, texts};

verus! {

/// Declares `serde_json::Value`; what a value holds is known through `json_of` alone.
#[verifier::external_type_specification]
#[verifier::external_body]
pub struct ExValue(serde_json::Value);

/// Declares `serde_json::Map`; what a value holds is known through `entries_of` alone.
#[verifier::external_type_specification]
#[verifier::external_body]
#[verifier::reject_recursive_types(K)]
#[verifier::reject_recursive_types(V)]
pub struct ExMap<K, V>(serde_json::Map<K, V>);

/// Declares `serde_json::Error`; nothing is known of what is inside a value.
#[verifier::external_type_specification]
#[verifier::external_body]
pub struct ExJsonError(serde_json::Error);

/// What a JSON value holds. A number is known by the text that it is written as; an object by
/// its entries, in order.
pub enum Json {
    Null,
    Bool(bool),
    Number(Seq<char>),
    Text(Seq<char>),
    Array(Seq<Json>),
    Object(Seq<(Seq<char>, Json)>),
}

/// What a `serde_json::Value` holds.
pub uninterp spec fn json_of(v: Value) -> Json;

/// The entries of a `serde_json::Map`, in order.
pub uninterp spec fn entries_of(m: serde_json::Map<String, Value>) -> Seq<(Seq<char>, Json)>;

/// What the values of a list hold, in order.
pub open spec fn jsons(list: Seq<Value>) -> Seq<Json> {
    list.map_values(|v: Value| json_of(v))
}

/// A list of keys and values as entries.
pub open spec fn fields(list: Seq<(String, Value)>) -> Seq<(Seq<char>, Json)> {
    list.map_values(|f: (String, Value)| (f.0@, json_of(f.1)))
}

// ─── Entries ─────────────────────────────────────────────────────────────────

/// Where the first entry under `key` stands; the number of entries where there is none.
pub open spec fn position(entries: Seq<(Seq<char>, Json)>, key: Seq<char>) -> int
    decreases entries.len(),
{
    if entries.len() == 0 || entries[0].0 == key {
        0
    } else {
        1 + position(entries.drop_first(), key)
    }
}

/// The value under `key`.
pub open spec fn lookup(entries: Seq<(Seq<char>, Json)>, key: Seq<char>) -> Option<Json> {
    if position(entries, key) < entries.len() {
        Some(entries[position(entries, key)].1)
    } else {
        None
    }
}

/// The entries with `value` under `key`: in the key's place where it has one, else at the end.
pub open spec fn upsert(entries: Seq<(Seq<char>, Json)>, key: Seq<char>, value: Json) -> Seq<
    (Seq<char>, Json),
> {
    if position(entries, key) < entries.len() {
        entries.update(position(entries, key), (key, value))
    } else {
        entries.push((key, value))
    }
}

/// No two entries have the same key.
pub open spec fn distinct_keys(entries: Seq<(Seq<char>, Json)>) -> bool {
    forall|i: int, j: int|
        0 <= i < j < entries.len() ==> #[trigger] entries[i].0 != #[trigger] entries[j].0
}

/// In every object of the value no two entries have the same key.
pub open spec fn well_formed(v: Json) -> bool
    decreases v,
{
    match v {
        Json::Array(items) => forall|i: int|
            0 <= i < items.len() ==> well_formed(#[trigger] items[i]),
        Json::Object(entries) => {
            &&& distinct_keys(entries)
            &&& forall|i: int| 0 <= i < entries.len() ==> well_formed((#[trigger] entries[i]).1)
        },
        _ => true,
    }
}

/// `position` finds the first entry under the key.
pub proof fn lemma_position(entries: Seq<(Seq<char>, Json)>, key: Seq<char>)
    ensures
        0 <= position(entries, key) <= entries.len(),
        position(entries, key) < entries.len() ==> entries[position(entries, key)].0 == key,
        forall|i: int|
            0 <= i < position(entries, key) && i < entries.len() ==> (#[trigger] entries[i]).0
                != key,
    decreases entries.len(),
{
    if entries.len() > 0 && entries[0].0 != key {
        let rest = entries.drop_first();
        lemma_position(rest, key);
        assert forall|i: int|
            0 <= i < position(entries, key) && i < entries.len() implies (#[trigger] entries[i]).0
            != key by {
            if i > 0 {
                assert(rest[i - 1] == entries[i]);
            }
        }
    }
}

/// Where an entry under the key is the first, `position` is its place.
pub proof fn lemma_position_is(entries: Seq<(Seq<char>, Json)>, key: Seq<char>, at: int)
    requires
        0 <= at < entries.len(),
        entries[at].0 == key,
        forall|i: int| 0 <= i < at ==> (#[trigger] entries[i]).0 != key,
    ensures
        position(entries, key) == at,
        lookup(entries, key) == Some(entries[at].1),
{
    lemma_position(entries, key);
    let p = position(entries, key);
    if p < at {
        assert(entries[p].0 == key);
    }
}

/// Where no entry is under the key, there is no value under it.
pub proof fn lemma_position_none(entries: Seq<(Seq<char>, Json)>, key: Seq<char>)
    requires
        forall|i: int| 0 <= i < entries.len() ==> (#[trigger] entries[i]).0 != key,
    ensures
        position(entries, key) == entries.len(),
        lookup(entries, key) is None,
{
    lemma_position(entries, key);
}

/// What is put under a key is found there, and under every other key what was there before.
pub proof fn lemma_upsert(
    entries: Seq<(Seq<char>, Json)>,
    key: Seq<char>,
    value: Json,
    other: Seq<char>,
)
    ensures
        lookup(upsert(entries, key, value), key) == Some(value),
        other != key ==> lookup(upsert(entries, key, value), other) == lookup(entries, other),
        distinct_keys(entries) ==> distinct_keys(upsert(entries, key, value)),
{
    let after = upsert(entries, key, value);
    lemma_position(entries, key);
    let p = position(entries, key);
    lemma_position_is(after, key, p);
    if other != key {
        lemma_position(entries, other);
        let q = position(entries, other);
        if q < entries.len() {
            lemma_position_is(after, other, q);
        } else {
            lemma_position_none(after, other);
        }
    }
}

// ─── Trusted: making values ──────────────────────────────────────────────────

/// Trusted: the constructor `Value::Null`.
#[verifier::external_body]
pub(crate) fn null() -> (r: Value)
    ensures
        json_of(r) == Json::Null,
{
    Value::Null
}

/// Trusted: the constructor `Value::Bool`.
#[verifier::external_body]
pub(crate) fn boolean(b: bool) -> (r: Value)
    ensures
        json_of(r) == Json::Bool(b),
{
    Value::Bool(b)
}

/// Trusted: the constructor `Value::String`.
#[verifier::external_body]
pub(crate) fn string(s: String) -> (r: Value)
    ensures
        json_of(r) == Json::Text(s@),
{
    Value::String(s)
}

/// Trusted: `Value::from` of an `i64` is the number that is written as the integer in decimal.
#[verifier::external_body]
pub(crate) fn integer(n: i64) -> (r: Value)
    ensures
        json_of(r) == Json::Number(decimal(n as int)),
{
    Value::from(n)
}

/// Trusted: the constructor `Value::Array`.
#[verifier::external_body]
pub(crate) fn array(items: Vec<Value>) -> (r: Value)
    ensures
        json_of(r) == Json::Array(jsons(items@)),
{
    Value::Array(items)
}

/// Trusted: the constructor `Value::Object`.
#[verifier::external_body]
pub(crate) fn object(m: serde_json::Map<String, Value>) -> (r: Value)
    ensures
        json_of(r) == Json::Object(entries_of(m)),
{
    Value::Object(m)
}

/// Trusted: `Value::clone` gives a value that holds the same.
#[verifier::external_body]
pub(crate) fn duplicate(v: &Value) -> (r: Value)
    ensures
        json_of(r) == json_of(*v),
{
    v.clone()
}

// ─── Trusted: maps ───────────────────────────────────────────────────────────

/// Trusted: `Map::new` has no entries.
#[verifier::external_body]
pub(crate) fn empty_map() -> (r: serde_json::Map<String, Value>)
    ensures
        entries_of(r) == Seq::<(Seq<char>, Json)>::empty(),
{
    serde_json::Map::new()
}

/// Trusted: `Map::insert` puts the value under the key: in the key's place where it has one,
/// else at the end.
#[verifier::external_body]
pub(crate) fn insert(m: &mut serde_json::Map<String, Value>, key: String, value: Value)
    ensures
        entries_of(*final(m)) == upsert(entries_of(*old(m)), key@, json_of(value)),
{
    m.insert(key, value);
}

/// Trusted: `Map::entry` and `Entry::or_insert` give the value under the key to change in place;
/// where the key has none, `default` is put under it first, at the end.
#[verifier::external_body]
pub(crate) fn entry_or_insert(
    m: &mut serde_json::Map<String, Value>,
    key: String,
    default: Value,
) -> (r: &mut Value)
    ensures
        json_of(*r) == (match lookup(entries_of(*old(m)), key@) {
            Some(v) => v,
            None => json_of(default),
        }),
        entries_of(*final(m)) == upsert(entries_of(*old(m)), key@, json_of(*final(r))),
{
    m.entry(key).or_insert(default)
}

/// Trusted: `Map::get` gives the value under the key, and nothing where there is none.
#[verifier::external_body]
pub(crate) fn get<'a>(m: &'a serde_json::Map<String, Value>, key: &str) -> (r: Option<&'a Value>)
    ensures
        r is Some <==> lookup(entries_of(*m), key@) is Some,
        r matches Some(v) ==> lookup(entries_of(*m), key@) == Some(json_of(*v)),
{
    m.get(key)
}

/// Trusted: `Map::into_iter` hands the entries out in order.
#[verifier::external_body]
pub(crate) fn into_entries(m: serde_json::Map<String, Value>) -> (r: Vec<(String, Value)>)
    ensures
        fields(r@) == entries_of(m),
{
    m.into_iter().collect()
}

// ─── Trusted: reading values ─────────────────────────────────────────────────

/// Trusted: `Value::as_object_mut` gives the map of an object to change in place, and nothing
/// for any other value.
#[verifier::external_body]
pub(crate) fn as_object_mut(v: &mut Value) -> (r: Option<&mut serde_json::Map<String, Value>>)
    ensures
        r is Some <==> json_of(*old(v)) is Object,
        r is None ==> *final(v) == *old(v),
        r matches Some(m) ==> {
            &&& json_of(*old(v)) == Json::Object(entries_of(*m))
            &&& json_of(*final(v)) == Json::Object(entries_of(*final(m)))
        },
{
    v.as_object_mut()
}

/// Trusted: `Value::as_object` gives the map of an object, and nothing for any other value.
#[verifier::external_body]
pub(crate) fn as_object(v: &Value) -> (r: Option<&serde_json::Map<String, Value>>)
    ensures
        r is Some <==> json_of(*v) is Object,
        r matches Some(m) ==> json_of(*v) == Json::Object(entries_of(*m)),
{
    v.as_object()
}

/// Trusted: matching a value against `Value::Object` gives its map, or the value back.
#[verifier::external_body]
pub(crate) fn into_object(v: Value) -> (r: Result<serde_json::Map<String, Value>, Value>)
    ensures
        r is Ok <==> json_of(v) is Object,
        r matches Ok(m) ==> json_of(v) == Json::Object(entries_of(m)),
        r matches Err(other) ==> other == v,
{
    match v {
        Value::Object(m) => Ok(m),
        other => Err(other),
    }
}

/// Trusted: `Value::as_str` gives the text of a string, and nothing for any other value.
#[verifier::external_body]
pub(crate) fn as_str(v: &Value) -> (r: Option<&str>)
    ensures
        r is Some <==> json_of(*v) is Text,
        r matches Some(s) ==> json_of(*v) == Json::Text(s@),
{
    v.as_str()
}

/// Trusted: `Value::as_bool` gives the boolean, and nothing for any other value.
#[verifier::external_body]
pub(crate) fn as_bool(v: &Value) -> (r: Option<bool>)
    ensures
        r is Some <==> json_of(*v) is Bool,
        r matches Some(b) ==> json_of(*v) == Json::Bool(b),
{
    v.as_bool()
}

/// Trusted: `Value::as_array` gives the items of an array, and nothing for any other value.
#[verifier::external_body]
pub(crate) fn as_array(v: &Value) -> (r: Option<&Vec<Value>>)
    ensures
        r is Some <==> json_of(*v) is Array,
        r matches Some(items) ==> json_of(*v) == Json::Array(jsons(items@)),
{
    v.as_array()
}

/// The text of the floating-point number nearest to a number: what `Value::as_f64` reads it as.
pub uninterp spec fn floating(number: Seq<char>) -> Seq<char>;

/// Trusted: `Value::as_f64` reads any number as floating point, and nothing else; the result is
/// handed on as a JSON number.
#[verifier::external_body]
pub(crate) fn as_floating(v: &Value) -> (r: Option<Value>)
    ensures
        r is Some <==> json_of(*v) is Number,
        r matches Some(x) ==> json_of(x) == Json::Number(floating(json_of(*v)->Number_0)),
{
    v.as_f64().map(Value::from)
}

/// What stands under a key of an object; null where nothing does.
pub open spec fn member(v: Json, key: Seq<char>) -> Json {
    match v {
        Json::Object(entries) => match lookup(entries, key) {
            Some(found) => found,
            None => Json::Null,
        },
        _ => Json::Null,
    }
}

/// The item of an array at a place; null where there is none.
pub open spec fn item(v: Json, at: int) -> Json {
    match v {
        Json::Array(items) => if 0 <= at < items.len() {
            items[at]
        } else {
            Json::Null
        },
        _ => Json::Null,
    }
}

/// Trusted: indexing a value by a string gives what stands under the key of an object, and null
/// where nothing does.
#[verifier::external_body]
pub(crate) fn get_member<'a>(v: &'a Value, key: &str) -> (r: &'a Value)
    ensures
        json_of(*r) == member(json_of(*v), key@),
{
    &v[key]
}

/// Trusted: indexing a value by a number gives the item of an array, and null where there is
/// none.
#[verifier::external_body]
pub(crate) fn get_item(v: &Value, at: usize) -> (r: &Value)
    ensures
        json_of(*r) == item(json_of(*v), at as int),
{
    &v[at]
}

// ─── Trusted: text ───────────────────────────────────────────────────────────

/// The value that `serde_json::from_str` reads a text as; nothing where it fails.
pub uninterp spec fn parsed(s: Seq<char>) -> Option<Json>;

/// Trusted: `serde_json::from_str` into a `Value` is a function of the text alone. No object that
/// it reads has a key twice.
#[verifier::external_body]
pub(crate) fn parse(s: &str) -> (r: Result<Value, serde_json::Error>)
    ensures
        r is Ok <==> parsed(s@) is Some,
        r matches Ok(v) ==> parsed(s@) == Some(json_of(v)),
        r matches Ok(v) ==> well_formed(json_of(v)),
{
    serde_json::from_str(s)
}

/// The text that `serde_json::to_string` writes a value as.
pub uninterp spec fn written(v: Json) -> Seq<char>;

/// A value without fractions and exponents in its numbers, nested less than `depth` deep.
pub open spec fn plain(v: Json, depth: nat) -> bool
    decreases v,
{
    match v {
        Json::Number(t) => forall|i: int|
            0 <= i < t.len() ==> (#[trigger] t[i]) != '.' && t[i] != 'e' && t[i] != 'E',
        Json::Array(items) => depth > 1 && forall|i: int|
            0 <= i < items.len() ==> plain(#[trigger] items[i], (depth - 1) as nat),
        Json::Object(entries) => depth > 1 && forall|i: int|
            0 <= i < entries.len() ==> plain((#[trigger] entries[i]).1, (depth - 1) as nat),
        _ => true,
    }
}

/// Trusted: `serde_json::to_string` of a `Value` does not fail, and its text is a function of
/// what the value holds. Reading the text of a plain value gives the value back: the parser
/// follows up to 127 levels of nesting, and integers and strings are written exactly. Nothing is
/// claimed of reading back a number with a fraction, which the parser may round.
#[verifier::external_body]
pub(crate) fn to_text(v: &Value) -> (r: Result<String, serde_json::Error>)
    ensures
        r is Ok,
        r matches Ok(s) ==> s@ == written(json_of(*v)),
        r matches Ok(s) ==> (plain(json_of(*v), 128) ==> parsed(s@) == Some(json_of(*v))),
{
    serde_json::to_string(v)
}

// ─── Objects from lists of fields ────────────────────────────────────────────

/// The object with the given entries.
pub(crate) fn object_of(list: Vec<(String, Value)>) -> (r: Value)
    requires
        distinct_keys(fields(list@)),
    ensures
        json_of(r) == Json::Object(fields(list@)),
{
    let ghost all = fields(list@);
    let mut m = empty_map();
    for f in it: list
        invariant
            it.seq() == list@,
            all == fields(list@),
            distinct_keys(all),
            entries_of(m) == all.take(it.index() as int),
    {
        let ghost at = it.index() as int;
        insert(&mut m, f.0, f.1);
        proof {
            lemma_position_none(all.take(at), all[at].0);
            assert(all.take(at + 1) =~= all.take(at).push(all[at]));
        }
    }
    assert(all.take(all.len() as int) =~= all);
    object(m)
}

/// A field of an object.
pub(crate) fn field(key: &str, value: Value) -> (r: (String, Value))
    ensures
        r.0@ == key@,
        r.1 == value,
{
    (key.to_string(), value)
}

/// A string value.
pub(crate) fn words(s: &str) -> (r: Value)
    ensures
        json_of(r) == Json::Text(s@),
{
    string(s.to_string())
}

/// The texts of a list as JSON strings.
pub open spec fn text_items(list: Seq<Seq<char>>) -> Seq<Json> {
    list.map_values(|t: Seq<char>| Json::Text(t))
}

/// An array of strings.
pub(crate) fn text_array(list: &Vec<String>) -> (r: Value)
    ensures
        json_of(r) == Json::Array(text_items(texts(list@))),
{
    let mut items: Vec<Value> = Vec::new();
    let mut i: usize = 0;
    while i < list.len()
        invariant
            i <= list.len(),
            jsons(items@) == text_items(texts(list@)).take(i as int),
        decreases list.len() - i,
    {
        let ghost before = items@;
        items.push(words(list[i].as_str()));
        proof {
            let all = text_items(texts(list@));
            assert(jsons(items@) =~= jsons(before).push(all[i as int]));
            assert(all.take(i + 1) =~= all.take(i as int).push(all[i as int]));
        }
        i = i + 1;
    }
    assert(jsons(items@) =~= text_items(texts(list@)));
    array(items)
}

// ─── Laws of lists of values ─────────────────────────────────────────────────

/// Law: a list of texts becomes as many strings, each in its place.
pub proof fn law_text_items(list: Seq<Seq<char>>)
    ensures
        text_items(list).len() == list.len(),
        forall|i: int| 0 <= i < list.len() ==> #[trigger] text_items(list)[i] == Json::Text(list[i]),
{
}

/// Law: what stands under a key is the value of the first entry with the key, and null where there
/// is none or the value is no object; likewise for the places of an array.
pub proof fn law_member_and_item(
    before: Seq<(Seq<char>, Json)>,
    key: Seq<char>,
    value: Json,
    after: Seq<(Seq<char>, Json)>,
    items: Seq<Json>,
    at: int,
)
    requires
        forall|i: int| 0 <= i < before.len() ==> (#[trigger] before[i]).0 != key,
    ensures
        member(Json::Object(before + seq![(key, value)] + after), key) == value,
        member(Json::Object(before), key) == Json::Null,
        member(Json::Array(items), key) == Json::Null,
        member(Json::Null, key) == Json::Null,
        0 <= at < items.len() ==> item(Json::Array(items), at) == items[at],
        at >= items.len() ==> item(Json::Array(items), at) == Json::Null,
        item(Json::Object(before), at) == Json::Null,
        item(Json::Null, at) == Json::Null,
{
    let all = before + seq![(key, value)] + after;
    assert forall|i: int| 0 <= i < before.len() implies (#[trigger] all[i]).0 != key by {
        assert(all[i] == before[i]);
    }
    lemma_position_is(all, key, before.len() as int);
    lemma_position_none(before, key);
}

/// Law: what a list of values, or of keys and values, holds is what each of them holds, in its
/// place.
pub proof fn law_lists_item_by_item(values: Seq<Value>, named: Seq<(String, Value)>)
    ensures
        jsons(values).len() == values.len(),
        forall|i: int| 0 <= i < values.len() ==> #[trigger] jsons(values)[i] == json_of(values[i]),
        fields(named).len() == named.len(),
        forall|i: int|
            0 <= i < named.len() ==> (#[trigger] fields(named)[i]).0 == named[i].0@ && fields(
                named,
            )[i].1 == json_of(named[i].1),
{
}

} // verus!
