//! What the library reads of a JSON document, through `serde_json::Value`.
//!
//! A `Value` is opaque to the verifier. Each accessor below makes one call
//! into `serde_json` and states its result over a name of the value's
//! contents; nothing here is proved, and the decoding rules elsewhere are
//! proved from these statements alone.

use serde_json::Value;
use vstd::prelude::*;

verus! {

/// `serde_json::Value`, a JSON document or a part of one. It is carried as it
/// is: nothing is known of what it holds but through the accessors below.
#[verifier::external_type_specification]
#[verifier::external_body]
pub struct ExValue(Value);

/// What `Value::get` returns for a string index: the member of the object `v`
/// under `key`; nothing where `v` is no object or has no such key.
pub uninterp spec fn json_member(v: Value, key: Seq<char>) -> Option<Value>;

/// What `Value::as_str` returns: the text of `v` where `v` is a JSON string.
pub uninterp spec fn json_text(v: Value) -> Option<Seq<char>>;

/// What `Value::as_array` returns: the elements of `v` where `v` is a JSON
/// array.
pub uninterp spec fn json_items(v: Value) -> Option<Seq<Value>>;

/// What `Value::as_i64` returns: the integer that `v` holds where `v` is a
/// JSON number written as an integer that an `i64` can hold.
pub uninterp spec fn json_integer(v: Value) -> Option<i64>;

/// The bit pattern of what `Value::as_f64` returns: the double that stands for
/// `v` where `v` is a JSON number.
pub uninterp spec fn json_double(v: Value) -> Option<u64>;

/// `serde_json::Value::get` with a string index. Trusted: the result is the
/// member that `json_member` names, borrowed from `v`.
#[verifier::external_body]
pub(crate) fn member<'a>(v: &'a Value, key: &str) -> (r: Option<&'a Value>)
    ensures
        match r {
            Some(m) => json_member(*v, key@) == Some(*m),
            None => json_member(*v, key@) is None,
        },
{
    v.get(key)
}

/// `serde_json::Value::as_str`. Trusted: the result is the text that
/// `json_text` names.
#[verifier::external_body]
pub(crate) fn text<'a>(v: &'a Value) -> (r: Option<&'a str>)
    ensures
        match r {
            Some(t) => json_text(*v) == Some(t@),
            None => json_text(*v) is None,
        },
{
    v.as_str()
}

/// `serde_json::Value::as_array`. Trusted: the result holds the elements that
/// `json_items` names, in their order.
#[verifier::external_body]
pub(crate) fn items<'a>(v: &'a Value) -> (r: Option<&'a Vec<Value>>)
    ensures
        match r {
            Some(a) => json_items(*v) == Some(a@),
            None => json_items(*v) is None,
        },
{
    v.as_array()
}

/// `serde_json::Value::as_i64`. Trusted: the result is the integer that
/// `json_integer` names.
#[verifier::external_body]
pub(crate) fn integer(v: &Value) -> (r: Option<i64>)
    ensures
        r == json_integer(*v),
{
    v.as_i64()
}

/// `serde_json::Value::as_f64`, the double handed on as its bit pattern.
/// Trusted: the result is the pattern that `json_double` names.
#[verifier::external_body]
pub(crate) fn double_bits(v: &Value) -> (r: Option<u64>)
    ensures
        r == json_double(*v),
{
    match v.as_f64() {
        Some(x) => Some(x.to_bits()),
        None => None,
    }
}

} // verus!
