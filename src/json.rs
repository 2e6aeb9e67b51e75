//! The calls into serde_json that the bridge makes. JSON values that the bridge
//! only carries (parameters, results, errors) stay serde_json values throughout.
use vstd::prelude::*;

verus! {

#[verifier::external_type_specification]
#[verifier::external_body]
pub struct ExValue(serde_json::Value);

#[verifier::external_type_specification]
#[verifier::external_body]
pub struct ExJsonError(serde_json::Error);

/// Relies on serde_json's derived `Clone` for `Value`: the copy equals the value copied.
pub assume_specification[ <serde_json::Value as Clone>::clone ](v: &serde_json::Value) -> (r: serde_json::Value)
    ensures
        r == *v,
;

/// The value that serde_json parses a text into, if it accepts the text as JSON.
pub uninterp spec fn parsed(text: Seq<char>) -> Option<serde_json::Value>;

/// The compact JSON text that serde_json writes for a value.
pub uninterp spec fn json_of(v: serde_json::Value) -> Seq<char>;

/// The member of an object under a key; none for a missing key or a non-object.
pub uninterp spec fn member_of(v: serde_json::Value, key: Seq<char>) -> Option<serde_json::Value>;

/// Whether a value is JSON's null.
pub uninterp spec fn null_of(v: serde_json::Value) -> bool;

/// The integer of a number that fits in `i64`; none for any other value.
pub uninterp spec fn i64_of(v: serde_json::Value) -> Option<i64>;

/// The characters of a JSON string; none for any other value.
pub uninterp spec fn string_of(v: serde_json::Value) -> Option<Seq<char>>;

/// The elements of a JSON array; none for any other value.
pub uninterp spec fn array_of(v: serde_json::Value) -> Option<Seq<serde_json::Value>>;

/// Relies on serde_json::from_str: it parses a text into a JSON value, and what it
/// yields depends on the text alone.
#[verifier::external_body]
pub(crate) fn parse_json(text: &str) -> (r: Result<serde_json::Value, serde_json::Error>)
    ensures
        r is Ok <==> parsed(text@) is Some,
        r matches Ok(v) ==> parsed(text@) == Some(v),
{
    serde_json::from_str::<serde_json::Value>(text)
}

/// Relies on serde_json::to_string: the compact JSON text of a value. Serializing a
/// `Value` into memory does not fail: its keys are strings.
#[verifier::external_body]
pub(crate) fn json_text(v: &serde_json::Value) -> (r: Result<String, serde_json::Error>)
    ensures
        r is Ok,
        r matches Ok(t) ==> t@ == json_of(*v),
{
    serde_json::to_string(v)
}

/// Relies on serde_json::Value::get: the member of an object under a key.
#[verifier::external_body]
pub(crate) fn member(v: &serde_json::Value, key: &str) -> (r: Option<serde_json::Value>)
    ensures
        r == member_of(*v, key@),
{
    v.get(key).cloned()
}

/// Relies on serde_json::Value::is_null.
#[verifier::external_body]
pub(crate) fn is_null(v: &serde_json::Value) -> (r: bool)
    ensures
        r == null_of(*v),
{
    v.is_null()
}

/// Relies on serde_json::Value::as_i64: the integer of a number that fits in `i64`.
#[verifier::external_body]
pub(crate) fn as_i64(v: &serde_json::Value) -> (r: Option<i64>)
    ensures
        r == i64_of(*v),
{
    v.as_i64()
}

/// Tells serde_json's string variant apart from the others; any other value comes
/// back unchanged.
#[verifier::external_body]
pub(crate) fn into_string(v: serde_json::Value) -> (r: Result<String, serde_json::Value>)
    ensures
        r is Ok <==> string_of(v) is Some,
        r matches Ok(s) ==> string_of(v) == Some(s@),
        r matches Err(w) ==> w == v,
{
    match v {
        serde_json::Value::String(s) => Ok(s),
        other => Err(other),
    }
}

/// Tells serde_json's array variant apart from the others; any other value comes
/// back unchanged.
#[verifier::external_body]
pub(crate) fn into_array(v: serde_json::Value) -> (r: Result<Vec<serde_json::Value>, serde_json::Value>)
    ensures
        r is Ok <==> array_of(v) is Some,
        r matches Ok(a) ==> array_of(v) == Some(a@),
        r matches Err(w) ==> w == v,
{
    match v {
        serde_json::Value::Array(a) => Ok(a),
        other => Err(other),
    }
}

} // verus!
