//! The JSON that `serde_json` reads and writes for this crate, and what is relied on of it.

use serde_json::Error as JsonError;
use vstd::prelude::*;

verus! {

/// A failure of `serde_json`, carried through unopened.
#[verifier::external_type_specification]
#[verifier::external_body]
pub struct ExJsonError(JsonError);

/// A lower-case hexadecimal digit.
pub open spec fn hex_digit(d: int) -> char {
    if d < 10 {
        (48 + d) as char
    } else {
        (87 + d) as char
    }
}

/// How one character appears inside a JSON string.
pub open spec fn escaped_char(c: char) -> Seq<char> {
    if c == '"' {
        seq!['\\', '"']
    } else if c == '\\' {
        seq!['\\', '\\']
    } else if c == '\u{8}' {
        seq!['\\', 'b']
    } else if c == '\t' {
        seq!['\\', 't']
    } else if c == '\n' {
        seq!['\\', 'n']
    } else if c == '\u{c}' {
        seq!['\\', 'f']
    } else if c == '\r' {
        seq!['\\', 'r']
    } else if (c as int) < 32 {
        seq!['\\', 'u', '0', '0', hex_digit(c as int / 16), hex_digit(c as int % 16)]
    } else {
        seq![c]
    }
}

/// How a text appears inside a JSON string.
pub open spec fn escaped(text: Seq<char>) -> Seq<char>
    decreases text.len(),
{
    if text.len() == 0 {
        seq![]
    } else {
        escaped_char(text[0]) + escaped(text.drop_first())
    }
}

/// A text as a JSON string, quotes included.
pub open spec fn json_string(text: Seq<char>) -> Seq<char> {
    seq!['"'] + escaped(text) + seq!['"']
}

/// `serde_json::to_string` on a string slice: the text in quotes, with quotes, backslashes and
/// control characters escaped and every other character as it is. It only fails where the type
/// that is serialised or the writer does, and neither a string nor a vector of bytes ever does.
#[verifier::external_body]
pub(crate) fn quote(text: &str) -> (quoted: Result<String, JsonError>)
    ensures
        quoted is Ok,
        quoted->Ok_0@ == json_string(text@),
{
    serde_json::to_string(text)
}

/// `serde_json`'s dynamic value, carried through unopened.
#[verifier::external_type_specification]
#[verifier::external_body]
pub struct ExJsonValue(serde_json::Value);

/// `serde_json`'s object, carried through unopened.
#[verifier::external_type_specification]
#[verifier::external_body]
#[verifier::reject_recursive_types(K)]
#[verifier::reject_recursive_types(V)]
pub struct ExJsonMap<K, V>(serde_json::Map<K, V>);

/// A JSON value.
pub ghost enum Json {
    /// `null`.
    Null,
    /// `true` or `false`.
    Bool(bool),
    /// An integer.
    Number(int),
    /// A number that is not kept as an integer, by the bits of its double.
    Float(u64),
    /// A string.
    Text(Seq<char>),
    /// An array.
    Array(Seq<Json>),
    /// An object. The order of its members is not part of it: without the feature that keeps
    /// insertion order, `serde_json` sorts them by key.
    Object(Map<Seq<char>, Json>),
}

/// What a dynamic value holds.
pub uninterp spec fn json_value(value: serde_json::Value) -> Json;

/// The members of an object.
pub uninterp spec fn json_object(object: serde_json::Map<String, serde_json::Value>) -> Map<
    Seq<char>,
    Json,
>;

/// The compact text of a value, as `serde_json` writes it.
pub uninterp spec fn json_text(value: Json) -> Seq<char>;

/// The object without members.
pub open spec fn no_members() -> Map<Seq<char>, Json> {
    Map::empty()
}

/// What each value of a sequence holds.
pub open spec fn json_values(values: Seq<serde_json::Value>) -> Seq<Json> {
    values.map_values(|value: serde_json::Value| json_value(value))
}

/// A member of an object, if it has one under that key.
pub open spec fn member_of(object: Map<Seq<char>, Json>, key: Seq<char>) -> Option<Json> {
    if object.contains_key(key) {
        Some(object[key])
    } else {
        None
    }
}

/// The text that a value is, if it is one.
pub open spec fn text_of(value: Json) -> Option<Seq<char>> {
    match value {
        Json::Text(text) => Some(text),
        _ => None,
    }
}

/// The unsigned 64-bit integer that a value is, if it is one.
pub open spec fn unsigned_of(value: Json) -> Option<u64> {
    match value {
        Json::Number(n) => if 0 <= n <= u64::MAX {
            Some(n as u64)
        } else {
            None
        },
        _ => None,
    }
}

/// `serde_json::Map::new`: an object without members.
#[verifier::external_body]
pub(crate) fn new_object() -> (object: serde_json::Map<String, serde_json::Value>)
    ensures
        json_object(object) == no_members(),
{
    serde_json::Map::new()
}

/// `serde_json::Map::insert`: sets the member under that key, in place of an earlier one.
#[verifier::external_body]
pub(crate) fn insert_member(
    object: &mut serde_json::Map<String, serde_json::Value>,
    key: String,
    value: serde_json::Value,
)
    ensures
        json_object(*final(object)) == json_object(*old(object)).insert(key@, json_value(value)),
{
    object.insert(key, value);
}

/// `serde_json::Map::remove`: takes the member out, if there is one under that key.
#[verifier::external_body]
pub(crate) fn remove_member(
    object: &mut serde_json::Map<String, serde_json::Value>,
    key: &str,
) -> (value: Option<serde_json::Value>)
    ensures
        json_object(*final(object)) == json_object(*old(object)).remove(key@),
        match value {
            Some(found) => member_of(json_object(*old(object)), key@) == Some(json_value(found)),
            None => member_of(json_object(*old(object)), key@) is None,
        },
{
    object.remove(key)
}

/// `serde_json::Map::get`: the member under that key.
#[verifier::external_body]
pub(crate) fn member<'a>(
    object: &'a serde_json::Map<String, serde_json::Value>,
    key: &str,
) -> (value: Option<&'a serde_json::Value>)
    ensures
        match value {
            Some(found) => member_of(json_object(*object), key@) == Some(json_value(*found)),
            None => member_of(json_object(*object), key@) is None,
        },
{
    object.get(key)
}

/// `serde_json::Map::is_empty`: whether there is no member.
#[verifier::external_body]
pub(crate) fn has_no_members(object: &serde_json::Map<String, serde_json::Value>) -> (empty: bool)
    ensures
        empty == (json_object(*object) == no_members()),
{
    object.is_empty()
}

/// `serde_json::Map::clone`: an object with the same members.
#[verifier::external_body]
pub(crate) fn copy_object(object: &serde_json::Map<String, serde_json::Value>) -> (copy:
    serde_json::Map<String, serde_json::Value>)
    ensures
        json_object(copy) == json_object(*object),
{
    object.clone()
}

/// `serde_json::Value::String`: a text as a value.
#[verifier::external_body]
pub(crate) fn text_value(text: String) -> (value: serde_json::Value)
    ensures
        json_value(value) == Json::Text(text@),
{
    serde_json::Value::String(text)
}

/// `serde_json::Value::Bool`: a truth value as a value.
#[verifier::external_body]
pub(crate) fn bool_value(flag: bool) -> (value: serde_json::Value)
    ensures
        json_value(value) == Json::Bool(flag),
{
    serde_json::Value::Bool(flag)
}

/// `serde_json::Value::from` on `i64`: that integer as a value.
#[verifier::external_body]
pub(crate) fn signed_value(n: i64) -> (value: serde_json::Value)
    ensures
        json_value(value) == Json::Number(n as int),
{
    serde_json::Value::from(n)
}

/// `serde_json::Value::from` on `u64`: that integer as a value.
#[verifier::external_body]
pub(crate) fn unsigned_value(n: u64) -> (value: serde_json::Value)
    ensures
        json_value(value) == Json::Number(n as int),
{
    serde_json::Value::from(n)
}

/// `serde_json::Value::Array`: these values as one.
#[verifier::external_body]
pub(crate) fn array_value(values: Vec<serde_json::Value>) -> (value: serde_json::Value)
    ensures
        json_value(value) == Json::Array(json_values(values@)),
{
    serde_json::Value::Array(values)
}

/// `serde_json::Value::Object`: an object as a value.
#[verifier::external_body]
pub(crate) fn object_value(object: serde_json::Map<String, serde_json::Value>) -> (value:
    serde_json::Value)
    ensures
        json_value(value) == Json::Object(json_object(object)),
{
    serde_json::Value::Object(object)
}

/// `serde_json::Value::as_str`: the text, if the value is one.
#[verifier::external_body]
pub(crate) fn value_text(value: &serde_json::Value) -> (text: Option<&str>)
    ensures
        match text {
            Some(found) => text_of(json_value(*value)) == Some(found@),
            None => text_of(json_value(*value)) is None,
        },
{
    value.as_str()
}

/// `serde_json::Value::as_u64`: the integer, if the value is one that fits.
#[verifier::external_body]
pub(crate) fn value_unsigned(value: &serde_json::Value) -> (n: Option<u64>)
    ensures
        n == unsigned_of(json_value(*value)),
{
    value.as_u64()
}

/// `serde_json::to_string` on a dynamic value: its compact text, which depends on nothing but what
/// the value holds. It only fails where the value or the writer does: every key is a string, and
/// neither a dynamic value nor a vector of bytes ever fails.
#[verifier::external_body]
pub(crate) fn render(value: &serde_json::Value) -> (text: Result<String, JsonError>)
    ensures
        text is Ok,
        text->Ok_0@ == json_text(json_value(*value)),
{
    serde_json::to_string(value)
}

}
