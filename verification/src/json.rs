//! JSON values, as `serde_json` parses them and hands out their parts.

use serde_json::Value;
use vstd::prelude::*;

verus! {

/// `serde_json::Value`, carried through as an opaque value.
#[verifier::external_type_specification]
#[verifier::external_body]
pub struct ExValue(serde_json::Value);

/// The mathematical value of a JSON value. What a number holds is not
/// modelled: nothing here reads one.
pub enum Json {
    Null,
    Bool(bool),
    Number,
    Text(Seq<char>),
    Array(Seq<Json>),
    Object(Map<Seq<char>, Json>),
}

impl Json {
    /// The member of an object under `key`; `None` where there is none or the
    /// value is no object.
    pub open spec fn member(self, key: Seq<char>) -> Option<Json> {
        match self {
            Json::Object(members) => if members.contains_key(key) {
                Some(members[key])
            } else {
                None
            },
            _ => None,
        }
    }

    /// The text of a string; `None` for every other value.
    pub open spec fn text(self) -> Option<Seq<char>> {
        match self {
            Json::Text(text) => Some(text),
            _ => None,
        }
    }

    /// The flag of a boolean; `None` for every other value.
    pub open spec fn flag(self) -> Option<bool> {
        match self {
            Json::Bool(flag) => Some(flag),
            _ => None,
        }
    }

    /// The items of an array; `None` for every other value.
    pub open spec fn items(self) -> Option<Seq<Json>> {
        match self {
            Json::Array(items) => Some(items),
            _ => None,
        }
    }
}

/// What a `serde_json::Value` holds.
pub uninterp spec fn json_of(value: serde_json::Value) -> Json;

/// What `serde_json` parses a text into; `None` where the text is not one
/// JSON value.
pub uninterp spec fn json_document(text: Seq<char>) -> Option<Json>;

/// The values of a list of `serde_json` values.
pub open spec fn json_items(values: Seq<serde_json::Value>) -> Seq<Json> {
    values.map_values(|v: serde_json::Value| json_of(v))
}

/// `serde_json::from_str` at the type `Value`: parses `text`, which has to be
/// one JSON value with nothing but blanks around it.
#[verifier::external_body]
pub(crate) fn parse_json(text: &str) -> (value: Option<serde_json::Value>)
    ensures
        match value {
            Some(v) => json_document(text@) == Some(json_of(v)),
            None => json_document(text@) is None,
        },
{
    serde_json::from_str::<Value>(text).ok()
}

/// `Value::get` with a text as index: the member of an object under `key`.
#[verifier::external_body]
pub(crate) fn json_member<'a>(value: &'a serde_json::Value, key: &str) -> (member: Option<
    &'a serde_json::Value,
>)
    ensures
        match member {
            Some(m) => json_of(*value).member(key@) == Some(json_of(*m)),
            None => json_of(*value).member(key@) is None,
        },
{
    value.get(key)
}

/// `Value::as_str`: the text of a string.
#[verifier::external_body]
pub(crate) fn json_text<'a>(value: &'a serde_json::Value) -> (text: Option<&'a str>)
    ensures
        match text {
            Some(t) => json_of(*value).text() == Some(t@),
            None => json_of(*value).text() is None,
        },
{
    value.as_str()
}

/// `Value::as_bool`: the flag of a boolean.
#[verifier::external_body]
pub(crate) fn json_flag(value: &serde_json::Value) -> (flag: Option<bool>)
    ensures
        flag == json_of(*value).flag(),
{
    value.as_bool()
}

/// `Value::as_array`: the items of an array.
#[verifier::external_body]
pub(crate) fn json_array<'a>(value: &'a serde_json::Value) -> (items: Option<
    &'a Vec<serde_json::Value>,
>)
    ensures
        match items {
            Some(list) => json_of(*value).items() == Some(json_items(list@)),
            None => json_of(*value).items() is None,
        },
{
    value.as_array()
}

/// `Value::is_null`: whether the value is `null`.
#[verifier::external_body]
pub(crate) fn json_is_null(value: &serde_json::Value) -> (null: bool)
    ensures
        null == (json_of(*value) is Null),
{
    value.is_null()
}

} // verus!
