//! JSON documents, built with `serde_json` and described by a mathematical model.
//!
//! The library hands out and takes in `serde_json::Value`s. The verifier cannot
//! look inside one, so whatever is made of a value or read from it goes
//! through one of the small functions below. Each of them calls into
//! `serde_json` and states what comes back in terms of the document that a
//! value stands for. Those statements are believed, not proved.

use crate::names::{distinct_names, has_name};
use crate::text::signed_decimal;
use vstd::prelude::*;

verus! {

/// The document that a `serde_json::Value` stands for.
#[verifier::ext_equal]
pub enum JsonModel {
    Null,
    Bool(bool),
    /// A number that is an integer.
    Number(int),
    /// A number that is not held as an integer, by the numeral that
    /// `serde_json` writes for it.
    Fraction(Seq<char>),
    String(Seq<char>),
    Array(Seq<JsonModel>),
    Object(Map<Seq<char>, JsonModel>),
}

/// `serde_json::Value`, made known to the verifier as a type without parts.
#[verifier::external_type_specification]
#[verifier::external_body]
pub struct ExValue(serde_json::Value);

/// `serde_json::Map`, made known to the verifier as a type without parts.
#[verifier::external_type_specification]
#[verifier::external_body]
#[verifier::reject_recursive_types(K)]
#[verifier::reject_recursive_types(V)]
pub struct ExMap<K, V>(serde_json::Map<K, V>);

/// The document held by a `serde_json::Value`.
pub uninterp spec fn json_of(value: serde_json::Value) -> JsonModel;

/// The members held by a `serde_json::Map`, by key.
pub uninterp spec fn members_of(members: serde_json::Map<String, serde_json::Value>) -> Map<
    Seq<char>,
    JsonModel,
>;

/// No members at all.
pub open spec fn no_members() -> Map<Seq<char>, JsonModel> {
    Map::empty()
}

/// The documents held by a sequence of values, in order.
pub open spec fn documents_of(values: Seq<serde_json::Value>) -> Seq<JsonModel> {
    values.map_values(|v: serde_json::Value| json_of(v))
}

/// The object with the single member `key`.
pub open spec fn single(key: Seq<char>, value: JsonModel) -> JsonModel {
    JsonModel::Object(no_members().insert(key, value))
}

/// The members listed in `entries`, a later entry replacing an earlier one of
/// the same key.
pub open spec fn members_from(entries: Seq<(Seq<char>, JsonModel)>) -> Map<Seq<char>, JsonModel>
    decreases entries.len(),
{
    if entries.len() == 0 {
        no_members()
    } else {
        members_from(entries.drop_last()).insert(entries.last().0, entries.last().1)
    }
}

/// Listing one entry more adds one member.
pub proof fn lemma_members_step(entries: Seq<(Seq<char>, JsonModel)>, i: int)
    requires
        0 <= i < entries.len(),
    ensures
        members_from(entries.take(i + 1)) == members_from(entries.take(i)).insert(
            entries[i].0,
            entries[i].1,
        ),
{
    assert(entries.take(i + 1).drop_last() =~= entries.take(i));
}

/// `serde_json::Value::String`: the JSON string with the characters of `s`.
#[verifier::external_body]
pub(crate) fn json_string(s: &str) -> (value: serde_json::Value)
    ensures
        json_of(value) == JsonModel::String(s@),
{
    serde_json::Value::String(s.to_owned())
}

/// Among entries with distinct keys, every entry is a member.
pub proof fn lemma_members_of_distinct(entries: Seq<(Seq<char>, JsonModel)>, i: int)
    requires
        distinct_names(entries),
        0 <= i < entries.len(),
    ensures
        members_from(entries).contains_key(entries[i].0),
        members_from(entries)[entries[i].0] == entries[i].1,
    decreases entries.len(),
{
    let earlier = entries.drop_last();
    if i < entries.len() - 1 {
        lemma_members_of_distinct(earlier, i);
    }
}

/// The keys of the members are the keys of the entries.
pub proof fn lemma_members_keys(entries: Seq<(Seq<char>, JsonModel)>, key: Seq<char>)
    ensures
        members_from(entries).contains_key(key) <==> has_name(entries, key),
    decreases entries.len(),
{
    if entries.len() > 0 {
        let earlier = entries.drop_last();
        let last = entries.len() - 1;
        lemma_members_keys(earlier, key);
        if has_name(earlier, key) {
            let k = choose|k: int| 0 <= k < earlier.len() && #[trigger] earlier[k].0 == key;
            assert(entries[k].0 == key);
        }
        if has_name(entries, key) && entries[last].0 != key {
            let k = choose|k: int| 0 <= k < entries.len() && #[trigger] entries[k].0 == key;
            assert(earlier[k].0 == key);
        }
        if entries[last].0 == key {
            assert(has_name(entries, key));
        }
    }
}

/// `serde_json::Value::Null`: the JSON literal `null`.
#[verifier::external_body]
pub(crate) fn json_null() -> (value: serde_json::Value)
    ensures
        json_of(value) == JsonModel::Null,
{
    serde_json::Value::Null
}

/// `serde_json::Value::Bool`: the JSON literal `true` or `false`.
#[verifier::external_body]
pub(crate) fn json_bool(b: bool) -> (value: serde_json::Value)
    ensures
        json_of(value) == JsonModel::Bool(b),
{
    serde_json::Value::Bool(b)
}

/// `serde_json::Value::Number` made by `From<u64>`: the JSON number `n`.
#[verifier::external_body]
pub(crate) fn json_unsigned(n: u64) -> (value: serde_json::Value)
    ensures
        json_of(value) == JsonModel::Number(n as int),
{
    serde_json::Value::Number(n.into())
}

/// `serde_json::Value::Number` made by `From<i64>`: the JSON number `n`.
#[verifier::external_body]
pub(crate) fn json_signed(n: i64) -> (value: serde_json::Value)
    ensures
        json_of(value) == JsonModel::Number(n as int),
{
    serde_json::Value::Number(n.into())
}

/// `serde_json::Value::Array`: the JSON array of the given values, in order.
#[verifier::external_body]
pub(crate) fn json_array(items: Vec<serde_json::Value>) -> (value: serde_json::Value)
    ensures
        json_of(value) == JsonModel::Array(documents_of(items@)),
{
    serde_json::Value::Array(items)
}

/// `serde_json::Map::new`: a map without members.
#[verifier::external_body]
pub(crate) fn members_new() -> (members: serde_json::Map<String, serde_json::Value>)
    ensures
        members_of(members) == no_members(),
{
    serde_json::Map::new()
}

/// `serde_json::Map::insert`: afterwards `key` maps to `value`, replacing any
/// earlier member of that key; the other members are unchanged.
#[verifier::external_body]
pub(crate) fn members_insert(
    members: &mut serde_json::Map<String, serde_json::Value>,
    key: String,
    value: serde_json::Value,
)
    ensures
        members_of(*final(members)) == members_of(*old(members)).insert(key@, json_of(value)),
{
    members.insert(key, value);
}

/// `serde_json::Value::Object`: the JSON object with the given members.
#[verifier::external_body]
pub(crate) fn json_object(members: serde_json::Map<String, serde_json::Value>) -> (value:
    serde_json::Value)
    ensures
        json_of(value) == JsonModel::Object(members_of(members)),
{
    serde_json::Value::Object(members)
}

/// `serde_json::Value::is_null`: whether the value is the JSON literal `null`.
#[verifier::external_body]
pub(crate) fn json_is_null(value: &serde_json::Value) -> (null: bool)
    ensures
        null == (json_of(*value) is Null),
{
    value.is_null()
}

/// `serde_json::Value::is_number`: whether the value is a JSON number.
#[verifier::external_body]
pub(crate) fn json_is_number(value: &serde_json::Value) -> (number: bool)
    ensures
        number == (json_of(*value) is Number || json_of(*value) is Fraction),
{
    value.is_number()
}

/// `serde_json::Value::as_bool`: the boolean, where the value is one.
#[verifier::external_body]
pub(crate) fn json_as_bool(value: &serde_json::Value) -> (found: Option<bool>)
    ensures
        found == match json_of(*value) {
            JsonModel::Bool(b) => Some(b),
            _ => None,
        },
{
    value.as_bool()
}

/// `serde_json::Value::as_i64`: the integer, where the value is an integer
/// that fits 64 bits with a sign.
#[verifier::external_body]
pub(crate) fn json_as_i64(value: &serde_json::Value) -> (found: Option<i64>)
    ensures
        found == match json_of(*value) {
            JsonModel::Number(n) => if i64::MIN <= n <= i64::MAX {
                Some(n as i64)
            } else {
                None
            },
            _ => None,
        },
{
    value.as_i64()
}

/// `serde_json::Value::as_str`: the text, where the value is a string.
#[verifier::external_body]
pub(crate) fn json_as_str(value: &serde_json::Value) -> (found: Option<&str>)
    ensures
        match found {
            Some(s) => json_of(*value) == JsonModel::String(s@),
            None => !(json_of(*value) is String),
        },
{
    value.as_str()
}

/// `serde_json::Value::as_array`: the elements, where the value is an array.
#[verifier::external_body]
pub(crate) fn json_as_array(value: &serde_json::Value) -> (found: Option<&Vec<serde_json::Value>>)
    ensures
        match found {
            Some(items) => json_of(*value) == JsonModel::Array(documents_of(items@)),
            None => !(json_of(*value) is Array),
        },
{
    value.as_array()
}

/// `serde_json::Value::as_object`: the members, where the value is an object.
#[verifier::external_body]
pub(crate) fn json_as_object(value: &serde_json::Value) -> (found: Option<
    &serde_json::Map<String, serde_json::Value>,
>)
    ensures
        match found {
            Some(members) => json_of(*value) == JsonModel::Object(members_of(*members)),
            None => !(json_of(*value) is Object),
        },
{
    value.as_object()
}

/// `entries` lists the members of `members`, each once: every entry is a
/// member, every member is listed, and no key is listed twice. Nothing is
/// said of the order.
pub open spec fn lists_members(
    entries: Seq<(String, &serde_json::Value)>,
    members: Map<Seq<char>, JsonModel>,
) -> bool {
    &&& forall|i: int|
        0 <= i < entries.len() ==> members.contains_key((#[trigger] entries[i]).0@) && members[entries[i].0@]
            == json_of(*entries[i].1)
    &&& forall|k: Seq<char>|
        members.contains_key(k) ==> exists|i: int|
            0 <= i < entries.len() && (#[trigger] entries[i]).0@ == k
    &&& forall|i: int, j: int|
        0 <= i < entries.len() && 0 <= j < entries.len() && i != j ==> (#[trigger] entries[i]).0@
            != (#[trigger] entries[j]).0@
}

/// `serde_json::Map::iter`: the members, each key with its value.
#[verifier::external_body]
pub(crate) fn members_list(members: &serde_json::Map<String, serde_json::Value>) -> (entries: Vec<
    (String, &serde_json::Value),
>)
    ensures
        lists_members(entries@, members_of(*members)),
{
    members.iter().map(|(key, value)| (key.clone(), value)).collect()
}

/// The document that `serde_json::from_str` reads from a text; `None` where
/// the text is not JSON.
pub uninterp spec fn parsed(text: Seq<char>) -> Option<JsonModel>;

/// `serde_json::from_str`: the value that the text denotes, where the text
/// is JSON. What is read depends on the text alone.
#[verifier::external_body]
pub(crate) fn parse_json(text: &str) -> (found: Option<serde_json::Value>)
    ensures
        match found {
            Some(value) => parsed(text@) == Some(json_of(value)),
            None => parsed(text@) is None,
        },
{
    serde_json::from_str::<serde_json::Value>(text).ok()
}

/// The text that `serde_json::to_string` writes for a value; `None` where it
/// fails.
pub uninterp spec fn rendered(value: serde_json::Value) -> Option<Seq<char>>;

/// `serde_json::to_string`: the value written as JSON text. What is written
/// depends on the value alone. A number is written as its numeral: an
/// integer in decimal digits, with a minus sign where it is negative.
#[verifier::external_body]
pub(crate) fn render_json(value: &serde_json::Value) -> (text: Option<String>)
    ensures
        crate::text::text_of(text) == rendered(*value),
        json_of(*value) matches JsonModel::Number(n) ==> crate::text::text_of(text) == Some(
            signed_decimal(n),
        ),
        json_of(*value) matches JsonModel::Fraction(numeral) ==> crate::text::text_of(text) == Some(
            numeral,
        ),
{
    serde_json::to_string(value).ok()
}

/// The object `{ key: value }`.
pub(crate) fn json_single(key: &str, value: serde_json::Value) -> (object: serde_json::Value)
    ensures
        json_of(object) == single(key@, json_of(value)),
{
    let mut members = members_new();
    members_insert(&mut members, String::from_str(key), value);
    json_object(members)
}

/// Adds the member `key` with the string `text` as its value.
pub(crate) fn insert_string(
    members: &mut serde_json::Map<String, serde_json::Value>,
    key: &str,
    text: &str,
)
    ensures
        members_of(*final(members)) == members_of(*old(members)).insert(
            key@,
            JsonModel::String(text@),
        ),
{
    members_insert(members, String::from_str(key), json_string(text));
}

/// The JSON array of the given strings, in order.
pub(crate) fn json_strings(items: &Vec<String>) -> (value: serde_json::Value)
    ensures
        json_of(value) == JsonModel::Array(
            items@.map_values(|s: String| JsonModel::String(s@)),
        ),
{
    let mut values: Vec<serde_json::Value> = Vec::new();
    let mut i: usize = 0;
    while i < items.len()
        invariant
            i <= items.len(),
            values.len() == i,
            forall|k: int| 0 <= k < i ==> json_of(#[trigger] values@[k]) == JsonModel::String(items@[k]@),
        decreases items.len() - i,
    {
        values.push(json_string(items[i].as_str()));
        i += 1;
    }
    assert(documents_of(values@) =~= items@.map_values(|s: String| JsonModel::String(s@)));
    json_array(values)
}

} // verus!
