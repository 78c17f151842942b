//! JSON documents: the mathematical model of a parsed document and the
//! accessors through which the rest of the library reads one.
//!
//! Parsing itself is `serde_json`'s work. A parsed document is carried as an
//! opaque `serde_json::Value`; what it holds is named by [`json_content`],
//! and every accessor below states its result over that name.

use vstd::prelude::*;
use serde_json::Error as JsonError;
use crate::hexfmt::hex_digit;
use crate::text::text_views;

verus! {

/// A JSON number: the digits it is written with once parsed, and its
/// value where it is a non-negative integer that fits 64 bits. Two numbers
/// are the same exactly when they are written the same.
pub struct JsonNumber {
    /// The number as `serde_json` writes it.
    pub text: Seq<char>,
    /// The value of a non-negative integer, `None` for a negative or
    /// fractional number.
    pub unsigned: Option<u64>,
}

/// The mathematical content of a JSON document.
pub enum JsonModel {
    /// The literal `null`.
    Null,
    /// `true` or `false`.
    Bool(bool),
    /// A number.
    Number(JsonNumber),
    /// A string.
    Str(Seq<char>),
    /// An array, in document order.
    Array(Seq<JsonModel>),
    /// An object: each key occurs once.
    Object(Map<Seq<char>, JsonModel>),
}

/// `serde_json::Value`, a parsed document: carried as an opaque value.
#[verifier::external_type_specification]
#[verifier::external_body]
pub struct ExJsonValue(serde_json::Value);

/// `serde_json::Error`, the failure of parsing or rendering: carried as an
/// opaque value.
#[verifier::external_type_specification]
#[verifier::external_body]
pub struct ExJsonError(JsonError);

/// What a parsed document holds.
pub uninterp spec fn json_content(v: serde_json::Value) -> JsonModel;

/// The document that a text denotes, or `None` where the text is not
/// well-formed JSON.
pub uninterp spec fn json_document(text: Seq<char>) -> Option<JsonModel>;

/// The contents of a sequence of parsed documents, item by item.
pub open spec fn json_contents(items: Seq<serde_json::Value>) -> Seq<JsonModel> {
    items.map_values(|item: serde_json::Value| json_content(item))
}

/// Calls `serde_json::from_str` at type `serde_json::Value`: the parsed
/// document where the text is well-formed JSON, the parser's error where
/// it is not. The outcome depends on the text alone.
#[verifier::external_body]
pub(crate) fn parse_json(text: &str) -> (r: Result<serde_json::Value, JsonError>)
    ensures
        match r {
            Ok(v) => json_document(text@) == Some(json_content(v)),
            Err(_) => json_document(text@) is None,
        },
{
    serde_json::from_str::<serde_json::Value>(text)
}

/// Calls `serde::de::Error::custom` on `serde_json::Error`: a parse error
/// that carries the given message. Nothing is claimed of the error value.
#[verifier::external_body]
pub(crate) fn json_error(message: &str) -> JsonError {
    <JsonError as serde::de::Error>::custom(message)
}

/// Calls `serde_json::Value::is_null`: whether the value is `null`.
#[verifier::external_body]
pub(crate) fn value_is_null(v: &serde_json::Value) -> (r: bool)
    ensures
        r == (json_content(*v) is Null),
{
    v.is_null()
}

/// Calls `serde_json::Value::as_bool`: the boolean of a `Bool`, nothing
/// for any other kind of value.
#[verifier::external_body]
pub(crate) fn value_as_bool(v: &serde_json::Value) -> (r: Option<bool>)
    ensures
        match r {
            Some(b) => json_content(*v) == JsonModel::Bool(b),
            None => !(json_content(*v) is Bool),
        },
{
    v.as_bool()
}

/// Calls `serde_json::Value::as_u64`: the value of a number that is held
/// as a non-negative integer, nothing for a negative or fractional number
/// or for any other kind of value.
#[verifier::external_body]
pub(crate) fn value_as_u64(v: &serde_json::Value) -> (r: Option<u64>)
    ensures
        r == json_content(*v).unsigned(),
{
    v.as_u64()
}

/// Calls `serde_json::Value::as_str`: the text of a string, nothing for any
/// other kind of value.
#[verifier::external_body]
pub(crate) fn value_as_str(v: &serde_json::Value) -> (r: Option<&str>)
    ensures
        match r {
            Some(s) => json_content(*v) == JsonModel::Str(s@),
            None => !(json_content(*v) is Str),
        },
{
    v.as_str()
}

/// Calls `serde_json::Value::as_array`: the items of an array, in order,
/// nothing for any other kind of value.
#[verifier::external_body]
pub(crate) fn value_as_array(v: &serde_json::Value) -> (r: Option<&Vec<serde_json::Value>>)
    ensures
        match r {
            Some(items) => json_content(*v) == JsonModel::Array(json_contents(items@)),
            None => !(json_content(*v) is Array),
        },
{
    v.as_array()
}

/// Calls `serde_json::Value::get` with a string key: the member of an
/// object under that key, nothing where the value is no object or the
/// object has no such key.
#[verifier::external_body]
pub(crate) fn value_get<'a>(v: &'a serde_json::Value, key: &str) -> (r: Option<&'a serde_json::Value>)
    ensures
        match r {
            Some(member) => json_content(*v) matches JsonModel::Object(members)
                && members.contains_key(key@) && members[key@] == json_content(*member),
            None => !(json_content(*v) matches JsonModel::Object(members)
                && members.contains_key(key@)),
        },
{
    v.get(key)
}

/// Calls `serde_json::Value::as_object` and `serde_json::Map::keys`: the
/// keys of an object, each once, nothing for any other kind of value. The
/// order of the keys is left open.
#[verifier::external_body]
pub(crate) fn value_object_keys(v: &serde_json::Value) -> (r: Option<Vec<String>>)
    ensures
        match r {
            Some(keys) => json_content(*v) matches JsonModel::Object(members)
                && text_views(keys@).no_duplicates()
                && members.dom().finite()
                && (forall|k: Seq<char>| members.contains_key(k) <==> text_views(keys@).contains(k)),
            None => !(json_content(*v) is Object),
        },
{
    v.as_object().map(|members| members.keys().cloned().collect())
}

/// The compact JSON text of a parsed document, or `None` where rendering
/// it fails.
pub uninterp spec fn json_text(v: serde_json::Value) -> Option<Seq<char>>;

/// How one character stands inside a JSON string literal: the quote, the
/// backslash and the control characters are escaped, the five common
/// controls by their letter and the others by four hexadecimal digits;
/// every other character stands for itself.
pub open spec fn json_escape(c: char) -> Seq<char> {
    if c == '"' {
        seq!['\\', '"']
    } else if c == '\\' {
        seq!['\\', '\\']
    } else if c == '\u{8}' {
        seq!['\\', 'b']
    } else if c == '\t' {
        seq!['\\', 't']
    } else if c == '\n' {
        seq!['\\', 'n']
    } else if c == '\u{c}' {
        seq!['\\', 'f']
    } else if c == '\r' {
        seq!['\\', 'r']
    } else if (c as u32) < 0x20 {
        seq!['\\', 'u', '0', '0', hex_digit(c as u32 as int / 16), hex_digit(c as u32 as int % 16)]
    } else {
        seq![c]
    }
}

/// The characters of a text as they stand inside a JSON string literal.
pub open spec fn json_escaped(text: Seq<char>) -> Seq<char>
    decreases text.len(),
{
    if text.len() == 0 {
        Seq::empty()
    } else {
        json_escaped(text.drop_last()) + json_escape(text.last())
    }
}

/// The JSON string literal for a text: the escaped text in double quotes.
pub open spec fn json_string_literal(text: Seq<char>) -> Seq<char> {
    seq!['"'] + json_escaped(text) + seq!['"']
}

/// Calls `serde_json::to_string` on a `serde_json::Value`: the compact
/// text of the document, or the serializer's error. The outcome depends on
/// the document alone.
#[verifier::external_body]
pub(crate) fn json_to_string(v: &serde_json::Value) -> (r: Result<String, JsonError>)
    ensures
        match r {
            Ok(text) => json_text(*v) == Some(text@),
            Err(_) => json_text(*v) is None,
        },
{
    serde_json::to_string(v)
}

/// Builds a `serde_json::Value::String` and renders it with its
/// `Display`, which writes compact JSON: the text in double quotes, with
/// `"`, `\` and the characters below U+0020 escaped as `serde_json`'s
/// escape table has them, and every other character unchanged.
#[verifier::external_body]
pub(crate) fn json_quote(text: &str) -> (literal: String)
    ensures
        literal@ == json_string_literal(text@),
{
    serde_json::Value::String(text.to_owned()).to_string()
}

/// Calls `serde_json::Value::is_object`: whether the value is an object.
#[verifier::external_body]
pub(crate) fn value_is_object(v: &serde_json::Value) -> (r: bool)
    ensures
        r == (json_content(*v) is Object),
{
    v.is_object()
}

impl JsonModel {
    /// The value of a number that is a non-negative integer within 64
    /// bits; `None` for any other number and any other kind of document.
    pub open spec fn unsigned(self) -> Option<u64> {
        match self {
            JsonModel::Number(number) => number.unsigned,
            _ => None,
        }
    }

    /// The member of an object under a key; `None` where the document is
    /// no object or has no such member.
    pub open spec fn field(self, key: Seq<char>) -> Option<JsonModel> {
        match self {
            JsonModel::Object(members) => if members.contains_key(key) {
                Some(members[key])
            } else {
                None
            },
            _ => None,
        }
    }
}

/// The member of an object under a key, if the value is an object that has
/// one.
pub(crate) fn get_field<'a>(v: &'a serde_json::Value, key: &str) -> (r: Option<&'a serde_json::Value>)
    ensures
        match r {
            Some(member) => json_content(*v).field(key@) == Some(json_content(*member)),
            None => json_content(*v).field(key@) is None,
        },
{
    value_get(v, key)
}

} // verus!
