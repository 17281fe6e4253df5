//! JSON bodies of hook reports, read with `serde_json`.

use serde_json::Value;
use vstd::prelude::*;

verus! {

/// `serde_json::Value`: any JSON value.
#[verifier::external_type_specification]
#[verifier::external_body]
pub struct ExValue(serde_json::Value);

/// `serde_json::Error`: why a text is not JSON.
#[verifier::external_type_specification]
#[verifier::external_body]
pub struct ExJsonError(serde_json::Error);

/// The members of a JSON object: each key with the text of its value, or with
/// `None` where the value is not a string. A value that is no object has no
/// members.
pub uninterp spec fn object_members(v: Value) -> Map<Seq<char>, Option<Seq<char>>>;

/// Whether a JSON value is an object.
pub uninterp spec fn is_object(v: Value) -> bool;

/// The text of a JSON value that is a string; `None` of any other value.
pub uninterp spec fn string_text(v: Value) -> Option<Seq<char>>;

/// The members of the JSON value that a body writes; `None` of a body that is
/// not one JSON value.
pub uninterp spec fn parsed_members(body: Seq<u8>) -> Option<Map<Seq<char>, Option<Seq<char>>>>;

/// Calls `serde_json::from_slice` for a `Value`: the parse succeeds or fails by
/// the bytes alone, and so do the members of what it gives.
#[verifier::external_body]
fn parse_json(body: &[u8]) -> (parsed: Result<Value, serde_json::Error>)
    ensures
        match parsed {
            Ok(v) => parsed_members(body@) == Some(object_members(v)),
            Err(_) => parsed_members(body@) is None,
        },
{
    serde_json::from_slice(body)
}

/// The members of an object that has none.
pub open spec fn no_members() -> Map<Seq<char>, Option<Seq<char>>> {
    Map::empty()
}

/// Makes the object without members, with `serde_json::Map::new`.
#[verifier::external_body]
pub(crate) fn empty_object() -> (v: Value)
    ensures
        is_object(v),
        object_members(v) == no_members(),
{
    Value::Object(serde_json::Map::new())
}

/// Calls `serde_json::Value::get` with a string: the member of that key, where
/// the value is an object that has it.
#[verifier::external_body]
fn member<'a>(v: &'a Value, key: &str) -> (m: Option<&'a Value>)
    ensures
        match m {
            Some(m) => object_members(*v).contains_key(key@) && object_members(*v)[key@]
                == string_text(*m),
            None => !object_members(*v).contains_key(key@),
        },
{
    v.get(key)
}

/// `serde_json::Value::as_str`: the text of a string, nothing of any other value.
pub assume_specification[ serde_json::Value::as_str ](v: &Value) -> (s: Option<&str>)
    ensures
        match s {
            Some(t) => string_text(*v) == Some(t@),
            None => string_text(*v) is None,
        },
;

/// The text of a member, empty where there is none or it is not a string.
pub open spec fn field_text(members: Map<Seq<char>, Option<Seq<char>>>, key: Seq<char>) -> Seq<
    char,
> {
    if members.contains_key(key) && members[key] is Some {
        members[key]->0
    } else {
        Seq::empty()
    }
}

/// The text field `key` of a report, empty where it is missing or no string.
pub fn str_field<'a>(payload: &'a Value, key: &str) -> (s: &'a str)
    ensures
        s@ == field_text(object_members(*payload), key@),
{
    proof {
        reveal_strlit("");
        assert(""@ =~= Seq::<char>::empty());
    }
    match member(payload, key) {
        Some(m) => match m.as_str() {
            Some(s) => s,
            None => "",
        },
        None => "",
    }
}

/// The members that a body is read as: those of its JSON, none where it is not
/// JSON.
pub open spec fn body_members(body: Seq<u8>) -> Map<Seq<char>, Option<Seq<char>>> {
    match parsed_members(body) {
        Some(m) => m,
        None => no_members(),
    }
}

/// Reads a body as JSON. A body that is not JSON counts as the empty object.
pub fn parse_body(body: &[u8]) -> (payload: Value)
    ensures
        object_members(payload) == body_members(body@),
{
    match parse_json(body) {
        Ok(v) => v,
        Err(_) => empty_object(),
    }
}

} // verus!
