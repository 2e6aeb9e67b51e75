//! Reply scripts: JavaScript statements that settle a page's pending call.
use vstd::prelude::*;
use vstd::string::StringExecFns;
use crate::decimal::{int_text, is_number_char, lemma_int_text_chars, lemma_int_text_injective, signed_text};
use crate::envelope::CallId;
use crate::js_literal::{escaped, js_string_literal, lemma_literal_round_trip, literal_text};
use crate::json::{json_of, json_text};

verus! {

/// The acknowledgement with which a registered callback's success resolves its slot.
pub const ACK: &'static str = "RPC call success";

/// The page's promise slot of a call to a registered callback.
pub open spec fn slot(id: int) -> Seq<char> {
    "window._rpc["@ + int_text(id) + "]"@
}

/// The statement that clears a slot once it is settled.
pub open spec fn clear_slot(id: int) -> Seq<char> {
    slot(id) + " = undefined"@
}

/// The text before a failure description in the message of a rejected call.
pub const FAILURE_PREFIX: &'static str = "RPC call fail with error ";

/// A statement that calls `call` on a slot with one double-quoted string literal of
/// body `body`, followed by the statement that clears the slot.
pub open spec fn settle_form(id: int, call: Seq<char>, body: Seq<char>) -> Seq<char> {
    slot(id) + call + "("@ + seq!['"'] + body + seq!['"'] + "); "@ + clear_slot(id)
}

/// The method by which a callback's outcome settles its slot.
pub open spec fn settle_call(outcome: Result<(), Seq<char>>) -> Seq<char> {
    match outcome {
        Ok(()) => ".resolve"@,
        Err(_) => ".reject"@,
    }
}

/// The message that settles a slot: the acknowledgement on success, else the failure
/// description after its prefix.
pub open spec fn settle_message(outcome: Result<(), Seq<char>>) -> Seq<char> {
    match outcome {
        Ok(()) => ACK@,
        Err(failure) => FAILURE_PREFIX@ + failure,
    }
}

/// The reply to a call of a registered callback: its slot is resolved with the
/// acknowledgement, or rejected with the failure message, written as an escaped
/// string literal; then the slot is cleared.
pub open spec fn callback_script(id: int, outcome: Result<(), Seq<char>>) -> Seq<char> {
    settle_form(id, settle_call(outcome), escaped(settle_message(outcome)))
}

/// The view of a callback's outcome: its failure description as characters.
pub open spec fn outcome_view(outcome: Result<(), String>) -> Result<(), Seq<char>> {
    match outcome {
        Ok(()) => Ok(()),
        Err(e) => Err(e@),
    }
}

proof fn lemma_slot_exclusive(a: int, b: int, s: Seq<char>)
    requires
        a != b,
        slot(a).is_prefix_of(s),
    ensures
        !slot(b).is_prefix_of(s),
{
    reveal_strlit("window._rpc[");
    reveal_strlit("]");
    let p = "window._rpc["@;
    let ta = int_text(a);
    let tb = int_text(b);
    let sa = slot(a);
    let sb = slot(b);
    lemma_int_text_chars(a);
    lemma_int_text_chars(b);
    assert(p.len() == 12);
    assert(sa.len() == 13 + ta.len());
    assert(sb.len() == 13 + tb.len());
    assert forall|i: int| 0 <= i < ta.len() implies sa[12 + i] == #[trigger] ta[i] by {
        assert((p + ta)[12 + i] == ta[i]);
    }
    assert forall|i: int| 0 <= i < tb.len() implies sb[12 + i] == #[trigger] tb[i] by {
        assert((p + tb)[12 + i] == tb[i]);
    }
    assert(sa[12 + ta.len() as int] == ']');
    assert(sb[12 + tb.len() as int] == ']');
    if sb.is_prefix_of(s) {
        assert forall|i: int| 0 <= i < sa.len() implies sa[i] == #[trigger] s[i] by {
            assert(sa[i] == s.subrange(0, sa.len() as int)[i]);
        }
        assert forall|i: int| 0 <= i < sb.len() implies sb[i] == #[trigger] s[i] by {
            assert(sb[i] == s.subrange(0, sb.len() as int)[i]);
        }
        if ta.len() == tb.len() {
            assert forall|i: int| 0 <= i < ta.len() implies ta[i] == tb[i] by {
                assert(sa[12 + i] == s[12 + i]);
                assert(sb[12 + i] == s[12 + i]);
            }
            assert(ta =~= tb);
            lemma_int_text_injective(a, b);
        } else if ta.len() < tb.len() {
            let k: int = 12 + ta.len() as int;
            assert(sa[k] == s[k]);
            assert(sb[k] == s[k]);
            assert(is_number_char(tb[ta.len() as int]));
        } else {
            let k: int = 12 + tb.len() as int;
            assert(sa[k] == s[k]);
            assert(sb[k] == s[k]);
            assert(is_number_char(ta[tb.len() as int]));
        }
    }
}

/// Replies to two calls with distinct call numbers never mix. A reply is one call
/// on its own slot, whose one argument is a well-formed string literal, followed by
/// the clearing of its own slot: text of the other call's slot can stand only inside
/// that literal, so the reply settles no other slot. It begins with its own slot, not
/// with the other call's, and differs from every reply to the other call.
pub proof fn distinct_calls_get_distinct_replies(
    a: int,
    b: int,
    outcome_a: Result<(), Seq<char>>,
    outcome_b: Result<(), Seq<char>>,
)
    requires
        a != b,
    ensures
        exists|call: Seq<char>, body: Seq<char>|
            (call == ".resolve"@ || call == ".reject"@) && literal_text(body) is Some
                && callback_script(a, outcome_a) == settle_form(a, call, body),
        slot(a).is_prefix_of(callback_script(a, outcome_a)),
        !slot(b).is_prefix_of(callback_script(a, outcome_a)),
        clear_slot(a).is_suffix_of(callback_script(a, outcome_a)),
        callback_script(a, outcome_a) != callback_script(b, outcome_b),
{
    let sa = callback_script(a, outcome_a);
    let sb = callback_script(b, outcome_b);
    let body_a = escaped(settle_message(outcome_a));
    let body_b = escaped(settle_message(outcome_b));
    lemma_literal_round_trip(settle_message(outcome_a));
    assert(settle_call(outcome_a) == ".resolve"@ || settle_call(outcome_a) == ".reject"@);
    let rest_a = settle_call(outcome_a) + "("@ + seq!['"'] + body_a + seq!['"'] + "); "@
        + clear_slot(a);
    let rest_b = settle_call(outcome_b) + "("@ + seq!['"'] + body_b + seq!['"'] + "); "@
        + clear_slot(b);
    assert(sa =~= slot(a) + rest_a);
    assert(sb =~= slot(b) + rest_b);
    assert(slot(a) =~= sa.subrange(0, slot(a).len() as int));
    assert(slot(b) =~= sb.subrange(0, slot(b).len() as int));
    let head_a = sa.subrange(0, sa.len() - clear_slot(a).len());
    assert(sa =~= head_a + clear_slot(a));
    assert(clear_slot(a) =~= sa.subrange(sa.len() - clear_slot(a).len(), sa.len() as int));
    lemma_slot_exclusive(a, b, sa);
}

fn append_slot(s: &mut String, id_text: &String)
    ensures
        final(s)@ == old(s)@ + "window._rpc["@ + id_text@ + "]"@,
{
    s.append("window._rpc[");
    s.append(id_text.as_str());
    s.append("]");
}

/// The statement that settles the slot of call `id` with the outcome of its callback.
pub fn callback_reply(id: i32, outcome: &Result<(), String>) -> (r: String)
    ensures
        r@ == callback_script(id as int, outcome_view(*outcome)),
{
    let id_text = signed_text(id as i64);
    let message = match outcome {
        Ok(()) => String::from_str(ACK),
        Err(e) => String::from_str(FAILURE_PREFIX).concat(e.as_str()),
    };
    let literal = js_string_literal(message.as_str());
    let mut s = String::new();
    append_slot(&mut s, &id_text);
    match outcome {
        Ok(()) => s.append(".resolve"),
        Err(_) => s.append(".reject"),
    }
    s.append("(");
    s.append(literal.as_str());
    s.append("); ");
    append_slot(&mut s, &id_text);
    s.append(" = undefined");
    proof {
        reveal_strlit("");
    }
    assert(s@ =~= callback_script(id as int, outcome_view(*outcome)));
    s
}

/// A reply of the RPC handler: a result, an error, or neither (an acknowledgement).
#[derive(Clone, Debug, PartialEq)]
pub struct RpcResponse {
    pub id: CallId,
    pub result: Option<serde_json::Value>,
    pub error: Option<serde_json::Value>,
}

impl RpcResponse {
    /// A successful reply to call `id`.
    pub fn new_result(id: CallId, result: Option<serde_json::Value>) -> (r: Self)
        ensures
            r == (RpcResponse { id, result, error: None }),
    {
        RpcResponse { id, result, error: None }
    }

    /// A failed reply to call `id`.
    pub fn new_error(id: CallId, error: Option<serde_json::Value>) -> (r: Self)
        ensures
            r == (RpcResponse { id, result: None, error }),
    {
        RpcResponse { id, result: None, error }
    }
}

/// How an RPC reply settles the page's call.
#[derive(Clone, Copy, Debug, PartialEq, Eq, Structural)]
pub enum Settlement {
    Resolve,
    Reject,
}

/// A response with an error rejects; any other resolves.
pub open spec fn settlement_of(resp: RpcResponse) -> Settlement {
    if resp.error is Some {
        Settlement::Reject
    } else {
        Settlement::Resolve
    }
}

/// The statement that settles an RPC call, given the texts of its id and payload.
pub open spec fn rpc_script(how: Settlement, id_text: Seq<char>, payload: Seq<char>) -> Seq<char> {
    "window.external.rpc."@ + (match how {
        Settlement::Resolve => "_result("@,
        Settlement::Reject => "_error("@,
    }) + id_text + ", "@ + payload + ")"@
}

/// The statement that settles an RPC call, from the texts of its id and payload.
pub fn rpc_reply(how: Settlement, id_text: &str, payload: &str) -> (r: String)
    ensures
        r@ == rpc_script(how, id_text@, payload@),
{
    let mut s = String::from_str("window.external.rpc.");
    match how {
        Settlement::Resolve => s.append("_result("),
        Settlement::Reject => s.append("_error("),
    }
    s.append(id_text);
    s.append(", ");
    s.append(payload);
    s.append(")");
    assert(s@ =~= rpc_script(how, id_text@, payload@));
    s
}

/// The text of a present id: an integer in decimal, any other value as its JSON.
pub open spec fn id_json(id: CallId) -> Seq<char> {
    match id {
        CallId::Int(n) => int_text(n as int),
        CallId::Other(w) => json_of(w),
        CallId::Absent => Seq::empty(),
    }
}

/// The JSON text of a payload; `null` for none.
pub open spec fn payload_json(p: Option<serde_json::Value>) -> Seq<char> {
    match p {
        Some(w) => json_of(w),
        None => "null"@,
    }
}

/// The statement that answers an RPC response with an id: an error rejects with the
/// error's JSON; otherwise it resolves with the result's JSON, or `null` for none.
pub open spec fn response_script(resp: RpcResponse) -> Seq<char> {
    rpc_script(
        settlement_of(resp),
        id_json(resp.id),
        if resp.error is Some {
            payload_json(resp.error)
        } else {
            payload_json(resp.result)
        },
    )
}

/// The JSON text of a payload; `null` for none, or where serde_json cannot encode it.
fn payload_text(v: &Option<serde_json::Value>) -> (r: String)
    ensures
        r@ == payload_json(*v),
{
    match v {
        None => String::from_str("null"),
        Some(v) => match json_text(v) {
            Ok(t) => t,
            Err(_) => String::from_str("null"),
        },
    }
}

/// The text of a present id.
fn id_text(id: &CallId) -> (r: String)
    requires
        !(id is Absent),
    ensures
        r@ == id_json(*id),
{
    match id {
        CallId::Int(n) => signed_text(*n),
        CallId::Other(v) => match json_text(v) {
            Ok(t) => t,
            Err(_) => String::from_str("null"),
        },
        CallId::Absent => String::new(),
    }
}

/// The statement that answers an RPC response. A response without an id gets none.
pub fn encode_response(resp: &RpcResponse) -> (r: Option<String>)
    ensures
        r is None <==> resp.id is Absent,
        r matches Some(s) ==> s@ == response_script(*resp),
{
    if let CallId::Absent = resp.id {
        return None;
    }
    let idt = id_text(&resp.id);
    let (how, p) = if resp.error.is_some() {
        (Settlement::Reject, payload_text(&resp.error))
    } else {
        (Settlement::Resolve, payload_text(&resp.result))
    };
    let s = rpc_reply(how, idt.as_str(), p.as_str());
    Some(s)
}

} // verus!
