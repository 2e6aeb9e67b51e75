//! Inbound envelopes: `{ id, method, params }` as a page's script posts them.
use vstd::prelude::*;
use crate::json::{
    array_of, as_i64, i64_of, into_array, into_string, is_null, member, member_of, null_of, parse_json,
    parsed, string_of,
};

verus! {

/// The correlation id of a call: an integer, any other JSON value, or none.
#[derive(Clone, Debug, PartialEq)]
pub enum CallId {
    Absent,
    Int(i64),
    Other(serde_json::Value),
}

/// The parameters of a call, as they were posted.
#[derive(Clone, Debug, PartialEq)]
pub enum Params {
    Absent,
    List(Vec<serde_json::Value>),
    Single(serde_json::Value),
}

/// A decoded inbound call or notification.
#[derive(Clone, Debug, PartialEq)]
pub struct Envelope {
    pub id: CallId,
    pub method: String,
    pub params: Params,
}

/// Why an inbound text is not an envelope.
#[derive(Clone, Copy, Debug, PartialEq, Eq, Structural)]
pub enum DecodeError {
    /// The text is not JSON.
    Malformed,
    /// The JSON has no `method` member holding a string.
    MissingMethod,
}

/// The id that an `id` member gives: a null or missing one is absent, an integer
/// that fits in `i64` is kept as such, and any other value is carried as it is.
pub open spec fn id_from(m: Option<serde_json::Value>) -> CallId {
    match m {
        None => CallId::Absent,
        Some(w) => if null_of(w) {
            CallId::Absent
        } else {
            match i64_of(w) {
                Some(n) => CallId::Int(n),
                None => CallId::Other(w),
            }
        },
    }
}

/// `p` is what a `params` member gives: a null or missing one is absent, an array is
/// the list of its elements, and any other value is a single parameter.
pub open spec fn params_from(m: Option<serde_json::Value>, p: Params) -> bool {
    match m {
        None => p is Absent,
        Some(w) => if null_of(w) {
            p is Absent
        } else {
            match array_of(w) {
                Some(a) => p matches Params::List(l) && l@ == a,
                None => p == Params::Single(w),
            }
        },
    }
}

/// The method of the JSON that a text holds: its `method` member, if that is a string.
pub open spec fn method_of(text: Seq<char>) -> Option<Seq<char>> {
    match parsed(text) {
        Some(v) => match member_of(v, "method"@) {
            Some(m) => string_of(m),
            None => None,
        },
        None => None,
    }
}

/// Why a text is no envelope, if it is none.
pub open spec fn decode_error(text: Seq<char>) -> Option<DecodeError> {
    if parsed(text) is None {
        Some(DecodeError::Malformed)
    } else if method_of(text) is None {
        Some(DecodeError::MissingMethod)
    } else {
        None
    }
}

/// `env` is the envelope that a text holds.
pub open spec fn decodes_to(text: Seq<char>, env: Envelope) -> bool {
    &&& parsed(text) is Some
    &&& method_of(text) == Some(env.method@)
    &&& env.id == id_from(member_of(parsed(text)->Some_0, "id"@))
    &&& params_from(member_of(parsed(text)->Some_0, "params"@), env.params)
}

/// Reads the `id` member.
pub fn call_id_of(v: Option<serde_json::Value>) -> (r: CallId)
    ensures
        r == id_from(v),
{
    match v {
        None => CallId::Absent,
        Some(v) => {
            if is_null(&v) {
                CallId::Absent
            } else {
                match as_i64(&v) {
                    Some(n) => CallId::Int(n),
                    None => CallId::Other(v),
                }
            }
        },
    }
}

/// Reads the `params` member.
pub fn params_of(v: Option<serde_json::Value>) -> (r: Params)
    ensures
        params_from(v, r),
{
    match v {
        None => Params::Absent,
        Some(v) => {
            if is_null(&v) {
                Params::Absent
            } else {
                match into_array(v) {
                    Ok(a) => Params::List(a),
                    Err(w) => Params::Single(w),
                }
            }
        },
    }
}

/// Decodes the text that a page posted: JSON with a string `method` member, and
/// optional `id` and `params` members.
pub fn decode(text: &str) -> (r: Result<Envelope, DecodeError>)
    ensures
        r is Err <==> decode_error(text@) is Some,
        r matches Err(e) ==> decode_error(text@) == Some(e),
        r matches Ok(env) ==> decodes_to(text@, env),
{
    match parse_json(text) {
        Err(_) => Err(DecodeError::Malformed),
        Ok(v) => {
            proof {
                reveal_strlit("method");
                reveal_strlit("id");
                reveal_strlit("params");
            }
            match member(&v, "method") {
                None => Err(DecodeError::MissingMethod),
                Some(m) => {
                    match into_string(m) {
                        Err(_) => Err(DecodeError::MissingMethod),
                        Ok(method) => Ok(Envelope {
                            id: call_id_of(member(&v, "id")),
                            method,
                            params: params_of(member(&v, "params")),
                        }),
                    }
                },
            }
        },
    }
}

} // verus!
