//! JSON documents.
//!
//! A `serde_json::Value` is opaque here. What it holds is the tree `json_of`, and each of the
//! operations below says over that tree what it does.

use vstd::prelude::*;
use crate::text::digits;

verus! {

/// A JSON value of `serde_json`.
#[verifier::external_type_specification]
#[verifier::external_body]
pub struct ExValue(serde_json::Value);

/// A JSON document as a tree of plain values.
pub enum Json {
    Null,
    Bool(bool),
    /// A number, as the text that `serde_json` writes for it.
    Number(Seq<char>),
    Text(Seq<char>),
    List(Seq<Json>),
    Object(Map<Seq<char>, Json>),
}

/// The tree that a JSON value holds.
pub uninterp spec fn json_of(v: serde_json::Value) -> Json;

/// The entries of a JSON object of `serde_json`.
#[verifier::external_type_specification]
#[verifier::external_body]
#[verifier::reject_recursive_types(K)]
#[verifier::reject_recursive_types(V)]
pub struct ExMap<K, V>(serde_json::Map<K, V>);

/// The keys that a map holds, and the trees of the values under them.
pub uninterp spec fn map_of(m: serde_json::Map<String, serde_json::Value>) -> Map<Seq<char>, Json>;

/// What `serde_json::from_str` makes of a text: the tree of the value that it reads, or the text
/// of its error.
pub uninterp spec fn json_parse(s: Seq<char>) -> Result<Json, Seq<char>>;

/// The compact text that `serde_json` writes for a value that holds this tree.
pub uninterp spec fn json_text(j: Json) -> Seq<char>;

/// The value under `key`, where the document is an object that has that key.
pub open spec fn member(j: Json, key: Seq<char>) -> Option<Json> {
    match j {
        Json::Object(m) => if m.contains_key(key) {
            Some(m[key])
        } else {
            None
        },
        _ => None,
    }
}

/// The item at position `i`, where the document is a list that has one there.
pub open spec fn element(j: Json, i: int) -> Option<Json> {
    match j {
        Json::List(l) => if 0 <= i < l.len() {
            Some(l[i])
        } else {
            None
        },
        _ => None,
    }
}

/// The text, where the document is one.
pub open spec fn text_in(j: Json) -> Option<Seq<char>> {
    match j {
        Json::Text(s) => Some(s),
        _ => None,
    }
}

/// The items, where the document is a list.
pub open spec fn items_in(j: Json) -> Option<Seq<Json>> {
    match j {
        Json::List(l) => Some(l),
        _ => None,
    }
}

/// The trees of a list of JSON values.
pub open spec fn trees(v: Seq<serde_json::Value>) -> Seq<Json> {
    Seq::new(v.len(), |i: int| json_of(v[i]))
}

/// `serde_json::from_str` into a `Value`, and the `Display` text of its error. What comes back is
/// a function of the text. Of single texts the contract says only that "0.3" is read as the
/// number that is written "0.3".
#[verifier::external_body]
pub(crate) fn parse(s: &str) -> (r: Result<serde_json::Value, String>)
    ensures
        match r {
            Ok(v) => json_parse(s@) == Ok::<Json, Seq<char>>(json_of(v)),
            Err(e) => json_parse(s@) == Err::<Json, Seq<char>>(e@),
        },
        s@ == "0.3"@ ==> r is Ok && json_of(r->Ok_0) == Json::Number(s@),
{
    serde_json::from_str::<serde_json::Value>(s).map_err(|e| e.to_string())
}

/// `Display` of `serde_json::Value`: the compact JSON text, a function of the tree (an object's
/// keys are written in their own order, whatever order they came in).
#[verifier::external_body]
pub(crate) fn render(v: &serde_json::Value) -> (r: String)
    ensures
        r@ == json_text(json_of(*v)),
{
    v.to_string()
}

/// `serde_json::Value::get` with a key: the value under that key of an object, and nothing of
/// any other document.
#[verifier::external_body]
pub(crate) fn get<'a>(v: &'a serde_json::Value, key: &str) -> (r: Option<&'a serde_json::Value>)
    ensures
        match r {
            Some(x) => member(json_of(*v), key@) == Some(json_of(*x)),
            None => member(json_of(*v), key@) is None,
        },
{
    v.get(key)
}

/// `serde_json::Value::get` with a position: the item there of a list, and nothing of any other
/// document.
#[verifier::external_body]
pub(crate) fn nth<'a>(v: &'a serde_json::Value, i: usize) -> (r: Option<&'a serde_json::Value>)
    ensures
        match r {
            Some(x) => element(json_of(*v), i as int) == Some(json_of(*x)),
            None => element(json_of(*v), i as int) is None,
        },
{
    v.get(i)
}

/// `serde_json::Value::as_str`: the text of a text, and nothing of any other document.
#[verifier::external_body]
pub(crate) fn as_text<'a>(v: &'a serde_json::Value) -> (r: Option<&'a str>)
    ensures
        match r {
            Some(s) => text_in(json_of(*v)) == Some(s@),
            None => text_in(json_of(*v)) is None,
        },
{
    v.as_str()
}

/// `serde_json::Value::as_array`: the items of a list, and nothing of any other document.
#[verifier::external_body]
pub(crate) fn as_list<'a>(v: &'a serde_json::Value) -> (r: Option<&'a Vec<serde_json::Value>>)
    ensures
        match r {
            Some(l) => items_in(json_of(*v)) == Some(trees(l@)),
            None => items_in(json_of(*v)) is None,
        },
{
    v.as_array()
}

/// `Clone` of `serde_json::Value`: a value that holds the same tree.
pub assume_specification[ <serde_json::Value as Clone>::clone ](v: &serde_json::Value) -> (r:
    serde_json::Value)
    ensures
        json_of(r) == json_of(*v),
;

/// `From<String>` for `serde_json::Value`: the text as a document.
#[verifier::external_body]
pub(crate) fn text(s: String) -> (r: serde_json::Value)
    ensures
        json_of(r) == Json::Text(s@),
{
    serde_json::Value::from(s)
}

/// `From<u64>` for `serde_json::Value`: the number, which is written in decimal digits.
#[verifier::external_body]
pub(crate) fn number(n: u64) -> (r: serde_json::Value)
    ensures
        json_of(r) == Json::Number(digits(n as nat)),
{
    serde_json::Value::from(n)
}

/// `From<bool>` for `serde_json::Value`: true or false as a document.
#[verifier::external_body]
pub(crate) fn boolean(b: bool) -> (r: serde_json::Value)
    ensures
        json_of(r) == Json::Bool(b),
{
    serde_json::Value::from(b)
}

/// `From<Vec<Value>>` for `serde_json::Value`: the list of these items, in this order.
#[verifier::external_body]
pub(crate) fn list(items: Vec<serde_json::Value>) -> (r: serde_json::Value)
    ensures
        json_of(r) == Json::List(trees(items@)),
{
    serde_json::Value::from(items)
}

/// The object without entries.
pub open spec fn empty_object() -> Map<Seq<char>, Json> {
    Map::empty()
}

/// `serde_json::Map::new`: a map without entries.
#[verifier::external_body]
pub(crate) fn fields() -> (r: serde_json::Map<String, serde_json::Value>)
    ensures
        map_of(r) == empty_object(),
{
    serde_json::Map::new()
}

/// `serde_json::Map::insert`: the entry is added, in place of one with the same key. The value that
/// it takes the place of is dropped.
#[verifier::external_body]
pub(crate) fn put(
    entries: &mut serde_json::Map<String, serde_json::Value>,
    key: &str,
    v: serde_json::Value,
)
    ensures
        map_of(*final(entries)) == map_of(*old(entries)).insert(key@, json_of(v)),
{
    let _ = entries.insert(key.to_string(), v);
}

/// `From<Map<String, Value>>` for `serde_json::Value`: the object with these entries.
#[verifier::external_body]
pub(crate) fn object(entries: serde_json::Map<String, serde_json::Value>) -> (r: serde_json::Value)
    ensures
        json_of(r) == Json::Object(map_of(entries)),
{
    serde_json::Value::from(entries)
}

/// A text literal as a document.
pub(crate) fn literal(s: &str) -> (r: serde_json::Value)
    ensures
        json_of(r) == Json::Text(s@),
{
    text(s.to_string())
}

} // verus!
