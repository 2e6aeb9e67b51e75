//! The dispatcher: where a decoded envelope goes.
use vstd::prelude::*;
use vstd::arithmetic::div_mod::lemma_fundamental_div_mod_converse;
use vstd::string::StringExecFns;
use crate::envelope::{decode, decode_error, decodes_to, CallId, DecodeError, Envelope, Params};
use crate::registry::CallbackRegistry;
use crate::js_literal::{escaped, lemma_literal_round_trip, literal_text};
use crate::reply::{callback_script, settle_form, settlement_of, RpcResponse, Settlement, ACK, FAILURE_PREFIX};

verus! {

/// The reserved control method with which a page starts a native window drag.
pub const DRAG_METHOD: &'static str = "__WRY_BEGIN_WINDOW_DRAG__";

/// The reserved method of the generic RPC channel.
pub const RPC_CHANNEL: &'static str = "__rpc__";

/// Where an envelope goes, without its payload.
#[derive(Clone, Copy, Debug, PartialEq, Eq, Structural)]
pub enum RouteKind {
    Drag,
    Rpc,
    Callback,
    NotFound,
}

/// The routing rule. The drag control method is taken first. The RPC handler, where
/// a window has one, takes its reserved channel and every name that no callback is
/// registered under. A registered name goes to its callback; any other is not found.
pub open spec fn route_kind(method: Seq<char>, has_rpc: bool, registered: bool) -> RouteKind {
    if method == DRAG_METHOD@ {
        RouteKind::Drag
    } else if has_rpc && (method == RPC_CHANNEL@ || !registered) {
        RouteKind::Rpc
    } else if registered {
        RouteKind::Callback
    } else {
        RouteKind::NotFound
    }
}

/// An envelope with its destination.
#[derive(Clone, Debug, PartialEq)]
pub enum Route {
    /// Start a native window drag; the parameters hold its two coordinates.
    Drag(Params),
    /// Hand the whole envelope to the window's RPC handler.
    Rpc(Envelope),
    /// Invoke the callback registered under `name` with call number `id`.
    Callback { id: i32, name: String, params: Vec<serde_json::Value> },
    /// No handler takes the method: the envelope is dropped and gets no reply.
    NotFound(String),
}

pub open spec fn kind_of(r: Route) -> RouteKind {
    match r {
        Route::Drag(_) => RouteKind::Drag,
        Route::Rpc(_) => RouteKind::Rpc,
        Route::Callback { .. } => RouteKind::Callback,
        Route::NotFound(_) => RouteKind::NotFound,
    }
}

/// The low 32 bits of an integer, read as a signed 32-bit integer.
pub open spec fn wrap_i32(n: int) -> int {
    let m = n % 4294967296;
    if m >= 2147483648 {
        m - 4294967296
    } else {
        m
    }
}

/// The call number of a registered callback's call: an integer id cut to its low
/// 32 bits, as a cast to `i32` does, and 0 for any other id or none.
pub open spec fn narrow_id(id: CallId) -> i32 {
    match id {
        CallId::Int(n) => wrap_i32(n as int) as i32,
        _ => 0,
    }
}

/// The ordered parameters of a call: an array's elements, a single value alone, or
/// none.
pub open spec fn param_seq(p: Params) -> Seq<serde_json::Value> {
    match p {
        Params::Absent => Seq::empty(),
        Params::List(a) => a@,
        Params::Single(v) => seq![v],
    }
}

/// `r` is where the routing rule sends `env`, posted by window `window`, when the
/// registered keys are `registered`.
pub open spec fn routes_to(
    env: Envelope,
    window: i64,
    has_rpc: bool,
    registered: Set<(i64, Seq<char>)>,
    r: Route,
) -> bool {
    &&& kind_of(r) == route_kind(env.method@, has_rpc, registered.contains((window, env.method@)))
    &&& r matches Route::Drag(p) ==> p == env.params
    &&& r matches Route::Rpc(e) ==> e == env
    &&& r matches Route::Callback { id, name, params } ==> id == narrow_id(env.id) && name@
        == env.method@ && params@ == param_seq(env.params)
    &&& r matches Route::NotFound(m) ==> m@ == env.method@
}

/// The call number of an id.
pub fn call_number(id: &CallId) -> (r: i32)
    ensures
        r == narrow_id(*id),
{
    match id {
        CallId::Int(n) => {
            let n: i64 = *n;
            let m: u64 = if n >= 0 {
                let u: u64 = n as u64;
                proof {
                    lemma_fundamental_div_mod_converse(
                        n as int,
                        4294967296,
                        (u / 4294967296) as int,
                        (u % 4294967296) as int,
                    );
                }
                u % 4294967296
            } else {
                let p: u64 = (-(n + 1)) as u64;
                let q: u64 = p % 4294967296;
                proof {
                    lemma_fundamental_div_mod_converse(
                        n as int,
                        4294967296,
                        -((p / 4294967296) as int) - 1,
                        4294967295 - q as int,
                    );
                }
                4294967295 - q
            };
            assert(m as int == (n as int) % 4294967296);
            if m >= 2147483648 {
                (m as i64 - 4294967296) as i32
            } else {
                m as i32
            }
        },
        _ => 0,
    }
}

/// The ordered parameters of a call.
pub fn param_list(p: Params) -> (r: Vec<serde_json::Value>)
    ensures
        r@ == param_seq(p),
{
    match p {
        Params::Absent => Vec::new(),
        Params::List(a) => a,
        Params::Single(v) => {
            let mut a = Vec::new();
            a.push(v);
            a
        },
    }
}

/// Routes an envelope that window `window` posted, by the routing rule.
pub fn route<H>(env: Envelope, window: i64, has_rpc: bool, registry: &CallbackRegistry<H>) -> (r:
    Route)
    requires
        registry.wf(),
    ensures
        routes_to(env, window, has_rpc, registry.view().dom(), r),
{
    let registered = registry.is_registered(window, &env.method);
    if env.method == String::from_str(DRAG_METHOD) {
        Route::Drag(env.params)
    } else if has_rpc && (env.method == String::from_str(RPC_CHANNEL) || !registered) {
        Route::Rpc(env)
    } else if registered {
        let id: i32 = call_number(&env.id);
        Route::Callback { id, name: env.method, params: param_list(env.params) }
    } else {
        Route::NotFound(env.method)
    }
}

/// Decodes and routes the text that window `window` posted. A text that is not an
/// envelope is dropped with its decode error, and so gets no reply.
pub fn on_message<H>(text: &str, window: i64, has_rpc: bool, registry: &CallbackRegistry<H>) -> (r:
    Result<Route, DecodeError>)
    requires
        registry.wf(),
    ensures
        r is Err <==> decode_error(text@) is Some,
        r matches Err(e) ==> decode_error(text@) == Some(e),
        r matches Ok(rt) ==> exists|env: Envelope|
            decodes_to(text@, env) && routes_to(env, window, has_rpc, registry.view().dom(), rt),
{
    match decode(text) {
        Err(e) => Err(e),
        Ok(env) => {
            let ghost g = env;
            let rt = route(env, window, has_rpc, registry);
            assert(decodes_to(text@, g) && routes_to(g, window, has_rpc, registry.view().dom(), rt));
            Ok(rt)
        },
    }
}

/// The reserved drag method never reaches a registered callback or the RPC handler,
/// whatever is registered under its name and whether an RPC handler is installed:
/// the envelope is routed to the drag with its own parameters.
pub proof fn drag_method_is_never_dispatched(
    env: Envelope,
    window: i64,
    has_rpc: bool,
    registered: Set<(i64, Seq<char>)>,
    r: Route,
)
    requires
        env.method@ == DRAG_METHOD@,
        routes_to(env, window, has_rpc, registered, r),
    ensures
        r == Route::Drag(env.params),
{
}

/// A call routed to a registered callback, with an integer id that fits in `i32`,
/// whose callback succeeds, is answered by a statement that resolves exactly that
/// id's slot with a string literal that reads as the acknowledgement, and then clears
/// the slot.
pub proof fn callback_success_resolves_its_slot(
    env: Envelope,
    window: i64,
    has_rpc: bool,
    registered: Set<(i64, Seq<char>)>,
    r: Route,
    n: i64,
)
    requires
        env.id == CallId::Int(n),
        i32::MIN <= n <= i32::MAX,
        routes_to(env, window, has_rpc, registered, r),
        r is Callback,
    ensures
        r->Callback_id == n,
        callback_script(r->Callback_id as int, Ok(())) == settle_form(
            n as int,
            ".resolve"@,
            escaped(ACK@),
        ),
        literal_text(escaped(ACK@)) == Some(ACK@),
{
    lemma_literal_round_trip(ACK@);
}

/// A call routed to a registered callback, with an integer id that fits in `i32`,
/// whose callback fails, is answered by a statement that rejects exactly that id's
/// slot with a string literal that reads as the failure prefix followed by the whole
/// description, whatever characters it holds, and then clears the slot.
/// Likewise an RPC response that carries an error rejects its call.
pub proof fn failure_rejects_its_slot(
    env: Envelope,
    window: i64,
    has_rpc: bool,
    registered: Set<(i64, Seq<char>)>,
    r: Route,
    n: i64,
    failure: Seq<char>,
    resp: RpcResponse,
)
    requires
        env.id == CallId::Int(n),
        i32::MIN <= n <= i32::MAX,
        routes_to(env, window, has_rpc, registered, r),
        r is Callback,
        resp.error is Some,
    ensures
        r->Callback_id == n,
        callback_script(r->Callback_id as int, Err(failure)) == settle_form(
            n as int,
            ".reject"@,
            escaped(FAILURE_PREFIX@ + failure),
        ),
        literal_text(escaped(FAILURE_PREFIX@ + failure)) == Some(FAILURE_PREFIX@ + failure),
        settlement_of(resp) == Settlement::Reject,
{
    lemma_literal_round_trip(FAILURE_PREFIX@ + failure);
}

/// A bare parameter value of a call routed to a registered callback becomes its one
/// and only parameter.
pub proof fn bare_params_become_one_parameter(
    env: Envelope,
    window: i64,
    has_rpc: bool,
    registered: Set<(i64, Seq<char>)>,
    r: Route,
    v: serde_json::Value,
)
    requires
        env.params == Params::Single(v),
        routes_to(env, window, has_rpc, registered, r),
        r is Callback,
    ensures
        r->Callback_params@ == seq![v],
{
}

} // verus!
