use serde_json::Value;
use wry_bridge::decimal::{signed_text, unsigned_text};
use wry_bridge::envelope::{decode, CallId, DecodeError, Envelope, Params};
use wry_bridge::js_literal::js_string_literal;
use wry_bridge::registry::CallbackRegistry;
use wry_bridge::reply::{callback_reply, encode_response, rpc_reply, RpcResponse, Settlement};
use wry_bridge::route::{call_number, on_message, param_list, route, Route, DRAG_METHOD};

fn json(text: &str) -> Value {
    serde_json::from_str(text).unwrap()
}

fn registry_with(window: i64, names: &[&str]) -> CallbackRegistry<u32> {
    let mut r = CallbackRegistry::new();
    for (i, n) in names.iter().enumerate() {
        r.register(window, n.to_string(), i as u32);
    }
    r
}

// The handler of the demonstration page: it greets and acknowledges.
fn demo_handler(mut req: Envelope) -> Option<RpcResponse> {
    let id = req.id.clone();
    let params = match std::mem::replace(&mut req.params, Params::Absent) {
        Params::List(a) => a,
        _ => return None,
    };
    if req.method == "fullscreen" {
        if params.iter().all(|p| p.is_boolean()) {
            return Some(RpcResponse::new_result(id, None));
        }
        None
    } else if req.method == "send-parameters" {
        let result = params
            .first()
            .and_then(|p| p.get("message"))
            .and_then(|m| m.as_str())
            .map(|m| Value::String(format!("Hello, {}!", m)));
        Some(RpcResponse::new_result(id, result))
    } else {
        None
    }
}

#[test]
fn decimal_texts() {
    assert_eq!(unsigned_text(0), "0");
    assert_eq!(unsigned_text(1234567890), "1234567890");
    assert_eq!(signed_text(-42), "-42");
    assert_eq!(signed_text(i64::MIN), "-9223372036854775808");
    assert_eq!(signed_text(i64::MAX), "9223372036854775807");
}

#[test]
fn decode_full_envelope() {
    let env = decode(r#"{"id": 5, "method": "hello", "params": [1, "two"]}"#).unwrap();
    assert_eq!(env.id, CallId::Int(5));
    assert_eq!(env.method, "hello");
    assert_eq!(env.params, Params::List(vec![json("1"), json("\"two\"")]));
}

#[test]
fn decode_absent_and_null_members() {
    let env = decode(r#"{"method": "m"}"#).unwrap();
    assert_eq!(env.id, CallId::Absent);
    assert_eq!(env.params, Params::Absent);
    let env = decode(r#"{"method": "m", "id": null, "params": null}"#).unwrap();
    assert_eq!(env.id, CallId::Absent);
    assert_eq!(env.params, Params::Absent);
}

#[test]
fn decode_non_integer_id_is_carried() {
    let env = decode(r#"{"method": "m", "id": "abc"}"#).unwrap();
    assert_eq!(env.id, CallId::Other(json("\"abc\"")));
    let env = decode(r#"{"method": "m", "id": 1.5}"#).unwrap();
    assert_eq!(env.id, CallId::Other(json("1.5")));
}

#[test]
fn decode_malformed_text() {
    assert_eq!(decode("{not json"), Err(DecodeError::Malformed));
    assert_eq!(decode(""), Err(DecodeError::Malformed));
}

#[test]
fn decode_missing_method() {
    assert_eq!(decode(r#"{"id": 1}"#), Err(DecodeError::MissingMethod));
    assert_eq!(decode(r#"{"method": 3}"#), Err(DecodeError::MissingMethod));
    assert_eq!(decode("[1, 2]"), Err(DecodeError::MissingMethod));
}

#[test]
fn malformed_message_is_dropped_without_reply() {
    let reg = registry_with(1, &["hello"]);
    let r = on_message("{\"method\": ", 1, true, &reg);
    assert_eq!(r, Err(DecodeError::Malformed));
}

#[test]
fn call_numbers() {
    assert_eq!(call_number(&CallId::Int(17)), 17);
    assert_eq!(call_number(&CallId::Int(-3)), -3);
    assert_eq!(call_number(&CallId::Int(4294967297)), 1);
    assert_eq!(call_number(&CallId::Absent), 0);
    assert_eq!(call_number(&CallId::Other(json("\"x\""))), 0);
}

#[test]
fn params_are_normalized() {
    assert_eq!(param_list(Params::Absent), Vec::<Value>::new());
    assert_eq!(param_list(Params::List(vec![json("1"), json("2")])), vec![json("1"), json("2")]);
    assert_eq!(param_list(Params::Single(json("{\"a\": 1}"))), vec![json("{\"a\": 1}")]);
}

#[test]
fn bare_object_params_become_one_parameter() {
    let reg = registry_with(2, &["save"]);
    let env = decode(r#"{"id": 9, "method": "save", "params": {"name": "x"}}"#).unwrap();
    match route(env, 2, false, &reg) {
        Route::Callback { id, name, params } => {
            assert_eq!(id, 9);
            assert_eq!(name, "save");
            assert_eq!(params, vec![json(r#"{"name": "x"}"#)]);
        }
        other => panic!("unexpected route {:?}", other),
    }
}

#[test]
fn registry_register_and_lookup() {
    let mut reg: CallbackRegistry<u32> = CallbackRegistry::new();
    assert_eq!(reg.lookup(1, &"a".to_string()), None);
    reg.register(1, "a".to_string(), 10);
    reg.register(2, "a".to_string(), 20);
    assert_eq!(reg.lookup(1, &"a".to_string()), Some(&10));
    assert_eq!(reg.lookup(2, &"a".to_string()), Some(&20));
    assert!(!reg.is_registered(1, &"b".to_string()));
    reg.register(1, "a".to_string(), 11);
    assert_eq!(reg.lookup(1, &"a".to_string()), Some(&11));
    assert_eq!(reg.lookup(2, &"a".to_string()), Some(&20));
}

#[test]
fn registry_remove_window() {
    let mut reg: CallbackRegistry<u32> = CallbackRegistry::new();
    reg.register(1, "a".to_string(), 10);
    reg.register(2, "a".to_string(), 20);
    reg.register(1, "b".to_string(), 30);
    reg.register(3, "c".to_string(), 40);
    reg.remove_window(1);
    assert_eq!(reg.lookup(1, &"a".to_string()), None);
    assert_eq!(reg.lookup(1, &"b".to_string()), None);
    assert_eq!(reg.lookup(2, &"a".to_string()), Some(&20));
    assert_eq!(reg.lookup(3, &"c".to_string()), Some(&40));
    reg.remove_window(7);
    assert_eq!(reg.lookup(2, &"a".to_string()), Some(&20));
    let env = decode(r#"{"id": 1, "method": "a"}"#).unwrap();
    assert_eq!(route(env, 1, false, &reg), Route::NotFound("a".to_string()));
}

#[test]
fn unregistered_name_without_rpc_is_not_found() {
    let reg = registry_with(1, &["a"]);
    let env = decode(r#"{"id": 1, "method": "b"}"#).unwrap();
    assert_eq!(route(env, 1, false, &reg), Route::NotFound("b".to_string()));
    let env = decode(r#"{"id": 1, "method": "a"}"#).unwrap();
    assert_eq!(route(env, 2, false, &reg), Route::NotFound("a".to_string()));
}

#[test]
fn rpc_handler_takes_its_channel_and_unregistered_names() {
    let reg = registry_with(1, &["a", "__rpc__"]);
    let env = decode(r#"{"id": 1, "method": "__rpc__"}"#).unwrap();
    assert_eq!(route(env.clone(), 1, true, &reg), Route::Rpc(env));
    let env = decode(r#"{"id": 1, "method": "b"}"#).unwrap();
    assert_eq!(route(env.clone(), 1, true, &reg), Route::Rpc(env));
    let env = decode(r#"{"id": 1, "method": "a"}"#).unwrap();
    assert!(matches!(route(env, 1, true, &reg), Route::Callback { .. }));
}

#[test]
fn drag_method_is_intercepted() {
    let reg = registry_with(1, &[DRAG_METHOD]);
    let env = decode(r#"{"method": "__WRY_BEGIN_WINDOW_DRAG__", "params": [10.0, 20.0]}"#).unwrap();
    let params = env.params.clone();
    assert_eq!(route(env.clone(), 1, true, &reg), Route::Drag(params.clone()));
    assert_eq!(route(env, 1, false, &reg), Route::Drag(params));
}

#[test]
fn callback_success_reply() {
    assert_eq!(
        callback_reply(7, &Ok(())),
        r#"window._rpc[7].resolve("RPC call success"); window._rpc[7] = undefined"#
    );
}

#[test]
fn callback_failure_reply() {
    assert_eq!(
        callback_reply(-2, &Err("disk full".to_string())),
        r#"window._rpc[-2].reject("RPC call fail with error disk full"); window._rpc[-2] = undefined"#
    );
}

#[test]
fn concurrent_calls_keep_their_slots() {
    let reg = registry_with(1, &["work"]);
    let first = on_message(r#"{"id": 3, "method": "work", "params": [1]}"#, 1, false, &reg).unwrap();
    let second = on_message(r#"{"id": 4, "method": "work", "params": [2]}"#, 1, false, &reg).unwrap();
    let (a, b) = match (first, second) {
        (Route::Callback { id: a, .. }, Route::Callback { id: b, .. }) => (a, b),
        other => panic!("unexpected routes {:?}", other),
    };
    let ra = callback_reply(a, &Ok(()));
    let rb = callback_reply(b, &Err("bad".to_string()));
    assert!(ra.starts_with("window._rpc[3]."));
    assert!(ra.ends_with("window._rpc[3] = undefined"));
    assert!(!ra.contains("window._rpc[4]"));
    assert!(rb.starts_with("window._rpc[4].reject("));
    assert!(rb.ends_with("window._rpc[4] = undefined"));
    assert!(!rb.contains("window._rpc[3]"));
}

#[test]
fn rpc_send_parameters_greets() {
    let reg: CallbackRegistry<u32> = CallbackRegistry::new();
    let text = r#"{"id": 1, "method": "send-parameters", "params": [{"message": "WRY"}]}"#;
    let env = match on_message(text, 1, true, &reg).unwrap() {
        Route::Rpc(env) => env,
        other => panic!("unexpected route {:?}", other),
    };
    let resp = demo_handler(env).unwrap();
    assert_eq!(resp.result, Some(Value::String("Hello, WRY!".to_string())));
    assert_eq!(resp.error, None);
    assert_eq!(
        encode_response(&resp),
        Some(r#"window.external.rpc._result(1, "Hello, WRY!")"#.to_string())
    );
}

#[test]
fn rpc_fullscreen_acknowledges() {
    let reg: CallbackRegistry<u32> = CallbackRegistry::new();
    let text = r#"{"id": 2, "method": "fullscreen", "params": [true]}"#;
    let env = match on_message(text, 1, true, &reg).unwrap() {
        Route::Rpc(env) => env,
        other => panic!("unexpected route {:?}", other),
    };
    let resp = demo_handler(env).unwrap();
    assert_eq!(resp.result, None);
    assert_eq!(resp.error, None);
    assert_eq!(
        encode_response(&resp),
        Some("window.external.rpc._result(2, null)".to_string())
    );
}

#[test]
fn rpc_error_reply() {
    let resp = RpcResponse::new_error(CallId::Int(12), Some(json(r#"{"code": -1}"#)));
    assert_eq!(
        encode_response(&resp),
        Some(r#"window.external.rpc._error(12, {"code":-1})"#.to_string())
    );
    // Neither a result nor an error: acknowledged with a null result.
    let resp = RpcResponse::new_error(CallId::Int(12), None);
    assert_eq!(
        encode_response(&resp),
        Some("window.external.rpc._result(12, null)".to_string())
    );
}

#[test]
fn rpc_reply_with_other_id() {
    let resp = RpcResponse::new_result(CallId::Other(json("\"abc\"")), Some(json("[1,2]")));
    assert_eq!(
        encode_response(&resp),
        Some(r#"window.external.rpc._result("abc", [1,2])"#.to_string())
    );
}

#[test]
fn rpc_response_without_id_gets_no_reply() {
    let resp = RpcResponse::new_result(CallId::Absent, Some(json("1")));
    assert_eq!(encode_response(&resp), None);
}

#[test]
fn rpc_reply_statement() {
    assert_eq!(
        rpc_reply(Settlement::Resolve, "5", "true"),
        "window.external.rpc._result(5, true)"
    );
    assert_eq!(
        rpc_reply(Settlement::Reject, "5", "\"no\""),
        "window.external.rpc._error(5, \"no\")"
    );
}

#[test]
fn string_literals_escape_quotes_backslashes_and_line_breaks() {
    assert_eq!(js_string_literal(""), "\"\"");
    assert_eq!(js_string_literal("plain text"), "\"plain text\"");
    assert_eq!(js_string_literal("a\"b\\c\nd\re"), r#""a\"b\\c\nd\re""#);
    assert_eq!(js_string_literal("héllo ✓"), "\"héllo ✓\"");
}

#[test]
fn failure_text_cannot_settle_another_slot() {
    let reply = callback_reply(3, &Err("\"); window._rpc[4].resolve(\"x".to_string()));
    assert_eq!(
        reply,
        r#"window._rpc[3].reject("RPC call fail with error \"); window._rpc[4].resolve(\"x"); window._rpc[3] = undefined"#
    );
}

#[test]
fn failure_text_with_line_break_and_backslash() {
    let reply = callback_reply(5, &Err("line one\nC:\\dir".to_string()));
    assert_eq!(
        reply,
        r#"window._rpc[5].reject("RPC call fail with error line one\nC:\\dir"); window._rpc[5] = undefined"#
    );
}

#[test]
fn json_without_string_method_is_dropped() {
    let reg = registry_with(1, &["a"]);
    assert_eq!(on_message(r#"{"id": 1, "params": []}"#, 1, true, &reg), Err(DecodeError::MissingMethod));
    assert_eq!(on_message(r#"{"id": 1, "method": null}"#, 1, true, &reg), Err(DecodeError::MissingMethod));
}
