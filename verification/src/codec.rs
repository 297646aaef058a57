//! Records as JSON text, through `serde_json`.

use vstd::prelude::*;
use serde_json::Value;
use crate::json::{unique_keys, Json, JsonView};

verus! {

/// A `serde_json` tree, as the decoder makes it and the encoder takes it.
#[verifier::external_type_specification]
#[verifier::external_body]
pub struct ExValue(serde_json::Value);

/// What `serde_json::from_slice` makes of `bytes`: the value they spell, or
/// the text of the error that it reports.
pub uninterp spec fn json_decoding(bytes: Seq<u8>) -> Result<JsonView, Seq<char>>;

/// What `serde_json::to_string` makes of `value`: its text, or the text of
/// the error that it reports.
pub uninterp spec fn json_encoding(value: JsonView) -> Result<Seq<char>, Seq<char>>;

/// What `serde_json`'s reader of streams finds first in `bytes`.
pub uninterp spec fn json_first(bytes: Seq<u8>) -> FirstView;

/// What `serde_json::Number` displays as: the decimal text of the number.
pub uninterp spec fn number_text(number: serde_json::Number) -> Seq<char>;

/// What stands first in a stream of JSON values.
#[derive(Debug, PartialEq)]
pub enum First {
    /// Nothing but white space.
    Nothing,
    /// This value, which ends after so many bytes.
    Value(Json, usize),
    /// The start of a value, which the bytes end in the middle of. These are
    /// the decoder's words.
    Incomplete(String),
    /// No value. These are the decoder's words.
    Invalid(String),
}

/// What [`First`] is, with strings as character sequences.
pub enum FirstView {
    Nothing,
    Value(JsonView, usize),
    Incomplete(Seq<char>),
    Invalid(Seq<char>),
}

impl View for First {
    type V = FirstView;

    open spec fn view(&self) -> FirstView {
        match self {
            First::Nothing => FirstView::Nothing,
            First::Value(value, used) => FirstView::Value(value@, *used),
            First::Incomplete(words) => FirstView::Incomplete(words@),
            First::Invalid(words) => FirstView::Invalid(words@),
        }
    }
}

/// Why bytes were no record.
#[derive(Debug, PartialEq)]
pub struct DecodeError {
    /// The decoder's own words.
    pub message: String,
}

/// Why a record could not be written as text.
#[derive(Debug, PartialEq)]
pub struct EncodeError {
    /// The encoder's own words.
    pub message: String,
}

/// Changes a `serde_json::Value` into a [`Json`], variant for variant. A
/// number becomes `Int` where it is an `i64`, else `UInt` where it is a
/// `u64`, else it is kept as it is under `Float`.
#[verifier::external_body]
fn from_value(value: Value) -> Json {
    match value {
        Value::Null => Json::Null,
        Value::Bool(b) => Json::Bool(b),
        Value::Number(n) => match (n.as_i64(), n.as_u64()) {
            (Some(i), _) => Json::Int(i),
            (None, Some(u)) => Json::UInt(u),
            (None, None) => Json::Float(n),
        },
        Value::String(s) => Json::Str(s),
        Value::Array(items) => Json::Array(items.into_iter().map(from_value).collect()),
        Value::Object(map) => Json::Object(
            map.into_iter().map(|(k, v)| (k, from_value(v))).collect(),
        ),
    }
}

/// Changes a [`Json`] into a `serde_json::Value`, variant for variant.
#[verifier::external_body]
fn to_value(json: &Json) -> Value {
    match json {
        Json::Null => Value::Null,
        Json::Bool(b) => Value::Bool(*b),
        Json::Int(i) => Value::from(*i),
        Json::UInt(u) => Value::from(*u),
        Json::Float(n) => Value::Number(n.clone()),
        Json::Str(s) => Value::String(s.clone()),
        Json::Array(items) => Value::Array(items.iter().map(to_value).collect()),
        Json::Object(fields) => Value::Object(
            fields.iter().map(|(k, v)| (k.clone(), to_value(v))).collect(),
        ),
    }
}

/// Calls `serde_json::from_slice` on `bytes`. The contract names what comes
/// back and claims that the same bytes always give the same result, and
/// that a mapping in it has each of its keys once, as the map that
/// `serde_json` reads it into has.
#[verifier::external_body]
pub(crate) fn parse(bytes: &[u8]) -> (parsed: Result<Json, String>)
    ensures
        match parsed {
            Ok(value) => json_decoding(bytes@) == Ok::<JsonView, Seq<char>>(value@)
                && unique_keys(value@),
            Err(message) => json_decoding(bytes@) == Err::<JsonView, Seq<char>>(message@),
        },
{
    match serde_json::from_slice::<Value>(bytes) {
        Ok(value) => Ok(from_value(value)),
        Err(error) => Err(error.to_string()),
    }
}

/// Calls `serde_json::to_string` on `value`. The contract names what comes
/// back and claims only that equal values always give the same result.
#[verifier::external_body]
pub(crate) fn print(value: &Json) -> (printed: Result<String, String>)
    ensures
        match printed {
            Ok(text) => json_encoding(value@) == Ok::<Seq<char>, Seq<char>>(text@),
            Err(message) => json_encoding(value@) == Err::<Seq<char>, Seq<char>>(message@),
        },
{
    match serde_json::to_string(&to_value(value)) {
        Ok(text) => Ok(text),
        Err(error) => Err(error.to_string()),
    }
}

/// Makes a `serde_json` reader of streams over `bytes` and calls `next` on
/// it once, then `byte_offset`. The contract names what comes back and
/// claims that the same bytes always give the same result, and of a value
/// that it took at least one of the bytes and no more than there are, and
/// that a mapping in it has each of its keys once.
#[verifier::external_body]
pub(crate) fn read_first(bytes: &[u8]) -> (first: First)
    ensures
        first@ == json_first(bytes@),
        first matches First::Value(value, used) ==> 0 < used <= bytes.len() && unique_keys(
            value@,
        ),
{
    let mut stream = serde_json::Deserializer::from_slice(bytes).into_iter::<Value>();
    match stream.next() {
        None => First::Nothing,
        Some(Ok(value)) => First::Value(from_value(value), stream.byte_offset()),
        Some(Err(error)) if error.is_eof() => First::Incomplete(error.to_string()),
        Some(Err(error)) => First::Invalid(error.to_string()),
    }
}

/// Calls `to_string` on a `serde_json::Number`, which writes the number in
/// decimal.
#[verifier::external_body]
pub(crate) fn number_to_string(number: &serde_json::Number) -> (text: String)
    ensures
        text@ == number_text(*number),
{
    number.to_string()
}

/// The record that `bytes` spell as JSON. Every mapping in it has each of
/// its keys once.
pub fn decode(bytes: &[u8]) -> (decoded: Result<Json, DecodeError>)
    ensures
        match decoded {
            Ok(value) => json_decoding(bytes@) == Ok::<JsonView, Seq<char>>(value@)
                && unique_keys(value@),
            Err(error) => json_decoding(bytes@) == Err::<JsonView, Seq<char>>(error.message@),
        },
{
    match parse(bytes) {
        Ok(value) => Ok(value),
        Err(message) => Err(DecodeError { message }),
    }
}

/// The JSON text of `value`.
pub fn encode(value: &Json) -> (encoded: Result<String, EncodeError>)
    ensures
        match encoded {
            Ok(text) => json_encoding(value@) == Ok::<Seq<char>, Seq<char>>(text@),
            Err(error) => json_encoding(value@) == Err::<Seq<char>, Seq<char>>(error.message@),
        },
{
    match print(value) {
        Ok(text) => Ok(text),
        Err(message) => Err(EncodeError { message }),
    }
}

} // verus!
