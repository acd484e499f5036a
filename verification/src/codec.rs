//! Calls into the JSON and BEVE crates, on dynamically typed values.

use serde_json::Value;
use vstd::prelude::*;

verus! {

/// A dynamically typed JSON value, `serde_json::Value`.
#[verifier::external_type_specification]
#[verifier::external_body]
pub struct ExJsonValue(serde_json::Value);

/// The outcome of a parse, with the error text as characters.
pub open spec fn parse_outcome(r: Result<Value, String>) -> Result<Value, Seq<char>> {
    match r {
        Ok(v) => Ok(v),
        Err(m) => Err(m@),
    }
}

/// The outcome of a serialization, with the bytes and the error text as
/// sequences.
pub open spec fn write_outcome(r: Result<Vec<u8>, String>) -> Result<Seq<u8>, Seq<char>> {
    match r {
        Ok(b) => Ok(b@),
        Err(m) => Err(m@),
    }
}

/// What `serde_json::from_slice` makes of `bytes`: a value, or the text of its
/// error.
pub uninterp spec fn json_parsed(bytes: Seq<u8>) -> Result<Value, Seq<char>>;

/// What `serde_json::to_vec` makes of `value`: JSON text, or the text of its
/// error.
pub uninterp spec fn json_written(value: Value) -> Result<Seq<u8>, Seq<char>>;

/// What `beve::from_slice` makes of `bytes`: a value, or the text of its error.
pub uninterp spec fn beve_parsed(bytes: Seq<u8>) -> Result<Value, Seq<char>>;

/// What `beve::to_vec` makes of `value`: BEVE bytes, or the text of its error.
pub uninterp spec fn beve_written(value: Value) -> Result<Seq<u8>, Seq<char>>;

/// `serde_json::from_slice` on a dynamically typed value. The outcome depends
/// on the bytes alone. That it reads back what `serde_json::to_vec` wrote is not
/// said: it refuses values that nest too deep, and a fraction may be off in its
/// last digit.
#[verifier::external_body]
pub(crate) fn parse_json(bytes: &[u8]) -> (r: Result<Value, String>)
    ensures
        parse_outcome(r) == json_parsed(bytes@),
{
    serde_json::from_slice(bytes).map_err(|e| e.to_string())
}

/// `serde_json::to_vec` on a dynamically typed value. The outcome depends on
/// the value alone.
#[verifier::external_body]
pub(crate) fn write_json(value: &Value) -> (r: Result<Vec<u8>, String>)
    ensures
        write_outcome(r) == json_written(*value),
{
    serde_json::to_vec(value).map_err(|e| e.to_string())
}

/// `beve::from_slice` on a dynamically typed value. The outcome depends on the
/// bytes alone. It sets no limit to how deep values nest: the stack does.
#[verifier::external_body]
pub(crate) fn parse_beve(bytes: &[u8]) -> (r: Result<Value, String>)
    ensures
        parse_outcome(r) == beve_parsed(bytes@),
{
    beve::from_slice(bytes).map_err(|e| e.to_string())
}

/// `beve::to_vec` on a dynamically typed value. The outcome depends on the
/// value alone.
#[verifier::external_body]
pub(crate) fn write_beve(value: &Value) -> (r: Result<Vec<u8>, String>)
    ensures
        write_outcome(r) == beve_written(*value),
{
    beve::to_vec(value).map_err(|e| e.to_string())
}

} // verus!
