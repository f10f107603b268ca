//! JSON documents, read and written through `serde_json`.
//!
//! A `serde_json::Value` is opaque to the verifier; `JsonTree` is its
//! mathematical model: objects are finite maps from keys to trees, which is
//! what `serde_json` keeps (its `Map` is ordered by key, so a document's text
//! depends on the key–value map alone).

use vstd::prelude::*;
use crate::text::is_blank;

verus! {

/// `serde_json::Value`, a JSON document; opaque here, modelled by `json_tree`.
#[verifier::external_type_specification]
#[verifier::external_body]
pub struct ExJsonValue(serde_json::Value);

/// `serde_json::Number`, a JSON number; carried through unread.
#[verifier::external_type_specification]
#[verifier::external_body]
pub struct ExJsonNumber(serde_json::Number);

/// `serde_json::Error`, why a text is not JSON or could not be written.
#[verifier::external_type_specification]
#[verifier::external_body]
pub struct ExJsonError(serde_json::Error);

/// `serde_json::Map`, the members of a JSON object; opaque here, modelled by
/// `json_entries`.
#[verifier::external_type_specification]
#[verifier::external_body]
#[verifier::reject_recursive_types(K)]
#[verifier::reject_recursive_types(V)]
pub struct ExJsonMap<K, V>(serde_json::Map<K, V>);

/// The model of a JSON value.
pub enum JsonTree {
    Null,
    Bool(bool),
    Number(serde_json::Number),
    Str(Seq<char>),
    Array(Seq<JsonTree>),
    Object(Map<Seq<char>, JsonTree>),
}

/// The tree that a `serde_json::Value` holds.
pub uninterp spec fn json_tree(v: serde_json::Value) -> JsonTree;

/// The key–value map that a `serde_json::Map` holds.
pub uninterp spec fn json_entries(m: serde_json::Map<String, serde_json::Value>) -> Map<
    Seq<char>,
    JsonTree,
>;

/// The document that `serde_json::from_str` reads from a text, if the text
/// is JSON.
pub uninterp spec fn json_parse(text: Seq<char>) -> Option<JsonTree>;

/// The text that `serde_json::to_string_pretty` writes for a document, if it
/// writes one.
pub uninterp spec fn json_pretty(tree: JsonTree) -> Option<Seq<char>>;

/// `tree` holds no number, and no more than `levels` arrays and objects
/// nest in it.
pub open spec fn readable_within(tree: JsonTree, levels: nat) -> bool
    decreases levels,
{
    match tree {
        JsonTree::Number(_) => false,
        JsonTree::Array(items) => levels > 0 && forall|i: int|
            0 <= i < items.len() ==> readable_within(#[trigger] items[i], (levels - 1) as nat),
        JsonTree::Object(m) => levels > 0 && forall|k: Seq<char>|
            #[trigger] m.contains_key(k) ==> readable_within(m[k], (levels - 1) as nat),
        _ => true,
    }
}

/// A document that `serde_json` reads back exactly from the text it prints:
/// it holds no number (a printed float need not read back bit for bit), and
/// no more than 127 arrays and objects nest in it (`from_str` refuses
/// deeper nesting).
pub open spec fn readable(tree: JsonTree) -> bool {
    readable_within(tree, 127)
}

/// The members of an empty object.
pub open spec fn no_members() -> Map<Seq<char>, JsonTree> {
    Map::empty()
}

/// The member `key` of `tree`, where `tree` is an object that has one
/// (`serde_json::Value::get` with a string key).
pub open spec fn member(tree: JsonTree, key: Seq<char>) -> Option<JsonTree> {
    match tree {
        JsonTree::Object(m) => if m.contains_key(key) {
            Some(m[key])
        } else {
            None
        },
        _ => None,
    }
}

/// The text of `tree` pretty-printed, or the empty text where it cannot be
/// (`to_string_pretty(..).unwrap_or_default()`).
pub open spec fn pretty_or_empty(tree: JsonTree) -> Seq<char> {
    match json_pretty(tree) {
        Some(s) => s,
        None => Seq::empty(),
    }
}

/// `serde_json::from_str::<Value>`: the document that `text` holds, or the
/// error that it is not JSON.  The document is the one `json_parse` names
/// for the text.
#[verifier::external_body]
pub(crate) fn parse_value(text: &str) -> (r: Result<serde_json::Value, serde_json::Error>)
    ensures
        match r {
            Ok(v) => json_parse(text@) == Some(json_tree(v)),
            Err(_) => json_parse(text@) is None,
        },
{
    serde_json::from_str::<serde_json::Value>(text)
}

/// `serde_json::to_string_pretty` on a `Value`: the text of `v`, indented
/// by two spaces, as `json_pretty` names it for the document.  Writing a
/// `Value` into memory does not fail (its keys are strings, and its writer
/// is a `Vec`); the text is not blank; and `from_str` reads the text, or the
/// text followed by a line break, back as the same document where the
/// document is `readable`.  Nothing is said of the text of other documents.
#[verifier::external_body]
pub(crate) fn pretty_text(v: &serde_json::Value) -> (r: Result<String, serde_json::Error>)
    ensures
        r is Ok,
        match r {
            Ok(s) => json_pretty(json_tree(*v)) == Some(s@),
            Err(_) => json_pretty(json_tree(*v)) is None,
        },
        r matches Ok(s) ==> !is_blank(s@),
        r matches Ok(s) ==> (readable(json_tree(*v)) ==> json_parse(s@) == Some(json_tree(*v))
            && json_parse(s@ + "\n"@) == Some(json_tree(*v))),
{
    serde_json::to_string_pretty(v)
}

/// `serde_json::Value::get` with a string key: the member `key` of an
/// object, and nothing for any other value.
#[verifier::external_body]
pub(crate) fn get_member<'a>(v: &'a serde_json::Value, key: &str) -> (r: Option<&'a serde_json::Value>)
    ensures
        match member(json_tree(*v), key@) {
            Some(t) => r matches Some(c) && json_tree(*c) == t,
            None => r is None,
        },
{
    v.get(key)
}

/// `serde_json::Value::as_str`: the text of a string value, and nothing for
/// any other value.
#[verifier::external_body]
pub(crate) fn as_text<'a>(v: &'a serde_json::Value) -> (r: Option<&'a str>)
    ensures
        match json_tree(*v) {
            JsonTree::Str(s) => r matches Some(t) && t@ == s,
            _ => r is None,
        },
{
    v.as_str()
}

/// `serde_json::Map::new`: an empty map.
#[verifier::external_body]
pub(crate) fn new_map() -> (r: serde_json::Map<String, serde_json::Value>)
    ensures
        json_entries(r) == no_members(),
{
    serde_json::Map::new()
}

/// `serde_json::Map::insert`: sets `key` to `value`, giving back the value
/// that `key` had, if any.
#[verifier::external_body]
pub(crate) fn insert_member(
    m: &mut serde_json::Map<String, serde_json::Value>,
    key: String,
    value: serde_json::Value,
) -> (r: Option<serde_json::Value>)
    ensures
        json_entries(*final(m)) == json_entries(*old(m)).insert(key@, json_tree(value)),
        r is Some <==> json_entries(*old(m)).contains_key(key@),
        r matches Some(o) ==> json_tree(o) == json_entries(*old(m))[key@],
{
    m.insert(key, value)
}

/// `serde_json::Value::Object`: the object value of a map.
#[verifier::external_body]
pub(crate) fn object_value(m: serde_json::Map<String, serde_json::Value>) -> (v: serde_json::Value)
    ensures
        json_tree(v) == JsonTree::Object(json_entries(m)),
{
    serde_json::Value::Object(m)
}

/// Matching on `serde_json::Value::Object`: the map of an object value, or
/// the value itself back where it is not an object.
#[verifier::external_body]
pub(crate) fn into_object(v: serde_json::Value) -> (r: Result<
    serde_json::Map<String, serde_json::Value>,
    serde_json::Value,
>)
    ensures
        match r {
            Ok(m) => json_tree(v) == JsonTree::Object(json_entries(m)),
            Err(w) => w == v && !(json_tree(v) is Object),
        },
{
    match v {
        serde_json::Value::Object(m) => Ok(m),
        other => Err(other),
    }
}

/// `serde_json::Value::String`: the string value of a text.
#[verifier::external_body]
pub(crate) fn string_value(s: String) -> (v: serde_json::Value)
    ensures
        json_tree(v) == JsonTree::Str(s@),
{
    serde_json::Value::String(s)
}

/// `serde_json::Value::Bool`: the boolean value of `b`.
#[verifier::external_body]
pub(crate) fn bool_value(b: bool) -> (v: serde_json::Value)
    ensures
        json_tree(v) == JsonTree::Bool(b),
{
    serde_json::Value::Bool(b)
}

/// The text of `v` pretty-printed, or the empty text where it cannot be.
pub fn pretty_or_default(v: &serde_json::Value) -> (s: String)
    ensures
        s@ == pretty_or_empty(json_tree(*v)),
        json_pretty(json_tree(*v)) == Some(s@),
        !is_blank(s@),
        readable(json_tree(*v)) ==> json_parse(s@ + "\n"@) == Some(json_tree(*v)),
{
    match pretty_text(v) {
        Ok(s) => s,
        Err(_) => String::new(),
    }
}

/// Sets `key` (a literal) to `value` in `m`.
pub fn set_member(m: &mut serde_json::Map<String, serde_json::Value>, key: &str, value: serde_json::Value)
    ensures
        json_entries(*final(m)) == json_entries(*old(m)).insert(key@, json_tree(value)),
{
    let _ = insert_member(m, String::from_str(key), value);
}

/// Sets `key` to the string value `text` in `m`.
pub fn set_text_member(m: &mut serde_json::Map<String, serde_json::Value>, key: &str, text: &str)
    ensures
        json_entries(*final(m)) == json_entries(*old(m)).insert(key@, JsonTree::Str(text@)),
{
    set_member(m, key, string_value(String::from_str(text)));
}

} // verus!
