use parity_jsonrpc::error::{Error, ErrorCode};
use parity_jsonrpc::io::IoHandler;
use parity_jsonrpc::json::{JsonNumber, JsonValue};
use parity_jsonrpc::request::{Call, MethodCall, Notification, Request};
use parity_jsonrpc::response::{Failure, Success, SyncOutput, SyncResponse};
use parity_jsonrpc::tcp_server::with_protocol_note;
use parity_jsonrpc::testing::Rpc;
use parity_jsonrpc::types::{Id, Params, Version};

fn from_serde(v: serde_json::Value) -> JsonValue {
    match v {
        serde_json::Value::Null => JsonValue::Null,
        serde_json::Value::Bool(b) => JsonValue::Bool(b),
        serde_json::Value::Number(n) => {
            if let Some(u) = n.as_u64() {
                JsonValue::Number(JsonNumber::PosInt(u))
            } else if let Some(i) = n.as_i64() {
                JsonValue::Number(JsonNumber::NegInt(i))
            } else {
                JsonValue::Number(JsonNumber::Float(n.to_string()))
            }
        },
        serde_json::Value::String(s) => JsonValue::String(s),
        serde_json::Value::Array(a) => JsonValue::Array(a.into_iter().map(from_serde).collect()),
        serde_json::Value::Object(m) => JsonValue::Object(m.into_iter().map(|(k, v)| (k, from_serde(v))).collect()),
    }
}

fn to_serde(v: &JsonValue) -> serde_json::Value {
    match v {
        JsonValue::Null => serde_json::Value::Null,
        JsonValue::Bool(b) => serde_json::Value::Bool(*b),
        JsonValue::Number(JsonNumber::PosInt(u)) => serde_json::Value::from(*u),
        JsonValue::Number(JsonNumber::NegInt(i)) => serde_json::Value::from(*i),
        JsonValue::Number(JsonNumber::Float(f)) => serde_json::from_str(f).unwrap(),
        JsonValue::String(s) => serde_json::Value::String(s.clone()),
        JsonValue::Array(a) => serde_json::Value::Array(a.iter().map(to_serde).collect()),
        JsonValue::Object(m) => {
            let mut map = serde_json::Map::new();
            for (k, v) in m {
                map.insert(k.clone(), to_serde(v));
            }
            serde_json::Value::Object(map)
        },
    }
}

/// Compact JSON text of `v`, members in their order.
fn text(v: &JsonValue) -> String {
    match v {
        JsonValue::Null => "null".to_string(),
        JsonValue::Bool(b) => b.to_string(),
        JsonValue::Number(JsonNumber::PosInt(u)) => u.to_string(),
        JsonValue::Number(JsonNumber::NegInt(i)) => i.to_string(),
        JsonValue::Number(JsonNumber::Float(f)) => f.clone(),
        JsonValue::String(s) => serde_json::to_string(s).unwrap(),
        JsonValue::Array(a) => format!("[{}]", a.iter().map(text).collect::<Vec<_>>().join(",")),
        JsonValue::Object(m) => format!(
            "{{{}}}",
            m.iter()
                .map(|(k, v)| format!("{}:{}", serde_json::to_string(k).unwrap(), text(v)))
                .collect::<Vec<_>>()
                .join(",")
        ),
    }
}

fn parse(s: &str) -> JsonValue {
    from_serde(serde_json::from_str(s).unwrap())
}

fn num(n: u64) -> JsonValue {
    JsonValue::Number(JsonNumber::PosInt(n))
}

#[test]
fn method_call_serialize() {
    let m = MethodCall {
        jsonrpc: Version::V2,
        method: "update".to_owned(),
        params: Some(Params::Array(vec![num(1), num(2)])),
        id: Id::Num(1),
    };

    let serialized = text(&m.to_json());
    assert_eq!(serialized, r#"{"jsonrpc":"2.0","method":"update","params":[1,2],"id":1}"#);
}

#[test]
fn notification_serialize() {
    let n = Notification {
        jsonrpc: Version::V2,
        method: "update".to_owned(),
        params: Some(Params::Array(vec![num(1), num(2)])),
    };

    let serialized = text(&n.to_json());
    assert_eq!(serialized, r#"{"jsonrpc":"2.0","method":"update","params":[1,2]}"#);
}

#[test]
fn call_serialize() {
    let n = Call::Notification(Notification {
        jsonrpc: Version::V2,
        method: "update".to_owned(),
        params: Some(Params::Array(vec![num(1)])),
    });

    let serialized = text(&n.to_json().unwrap());
    assert_eq!(serialized, r#"{"jsonrpc":"2.0","method":"update","params":[1]}"#);
}

#[test]
fn request_serialize_batch() {
    let batch = Request::Batch(vec![
        Call::MethodCall(MethodCall {
            jsonrpc: Version::V2,
            method: "update".to_owned(),
            params: Some(Params::Array(vec![num(1), num(2)])),
            id: Id::Num(1),
        }),
        Call::Notification(Notification {
            jsonrpc: Version::V2,
            method: "update".to_owned(),
            params: Some(Params::Array(vec![num(1)])),
        }),
    ]);

    let serialized = text(&batch.to_json().unwrap());
    assert_eq!(
        serialized,
        r#"[{"jsonrpc":"2.0","method":"update","params":[1,2],"id":1},{"jsonrpc":"2.0","method":"update","params":[1]}]"#
    );
}

#[test]
fn notification_deserialize() {
    let s = r#"{"jsonrpc": "2.0", "method": "update", "params": [1,2]}"#;
    let deserialized = Notification::from_json(parse(s)).unwrap();

    assert_eq!(deserialized, Notification {
        jsonrpc: Version::V2,
        method: "update".to_owned(),
        params: Some(Params::Array(vec![num(1), num(2)])),
    });

    let s = r#"{"jsonrpc": "2.0", "method": "foobar"}"#;
    let deserialized = Notification::from_json(parse(s)).unwrap();

    assert_eq!(deserialized, Notification { jsonrpc: Version::V2, method: "foobar".to_owned(), params: None });

    let s = r#"{"jsonrpc": "2.0", "method": "update", "params": [1,2], "id": 1}"#;
    let deserialized = Notification::from_json(parse(s));
    assert!(deserialized.is_none())
}

#[test]
fn call_deserialize() {
    let s = r#"{"jsonrpc": "2.0", "method": "update", "params": [1]}"#;
    let deserialized = Call::from_json(parse(s));
    assert_eq!(deserialized, Call::Notification(Notification {
        jsonrpc: Version::V2,
        method: "update".to_owned(),
        params: Some(Params::Array(vec![num(1)])),
    }));

    let s = r#"{"jsonrpc": "2.0", "method": "update", "params": [1], "id": 1}"#;
    let deserialized = Call::from_json(parse(s));
    assert_eq!(deserialized, Call::MethodCall(MethodCall {
        jsonrpc: Version::V2,
        method: "update".to_owned(),
        params: Some(Params::Array(vec![num(1)])),
        id: Id::Num(1),
    }));
}

#[test]
fn request_deserialize_batch() {
    let s = r#"[1, {"jsonrpc": "2.0", "method": "update", "params": [1,2], "id": 1},{"jsonrpc": "2.0", "method": "update", "params": [1]}]"#;
    let deserialized = Request::from_json(parse(s));
    assert_eq!(deserialized, Request::Batch(vec![
        Call::Invalid,
        Call::MethodCall(MethodCall {
            jsonrpc: Version::V2,
            method: "update".to_owned(),
            params: Some(Params::Array(vec![num(1), num(2)])),
            id: Id::Num(1),
        }),
        Call::Notification(Notification {
            jsonrpc: Version::V2,
            method: "update".to_owned(),
            params: Some(Params::Array(vec![num(1)])),
        }),
    ]))
}

#[test]
fn success_output_serialize() {
    let so = SyncOutput::Success(Success { jsonrpc: Version::V2, result: num(1), id: Id::Num(1) });

    let serialized = text(&so.to_json());
    assert_eq!(serialized, r#"{"jsonrpc":"2.0","result":1,"id":1}"#);
}

#[test]
fn success_output_deserialize() {
    let dso = r#"{"jsonrpc":"2.0","result":1,"id":1}"#;

    let deserialized = SyncOutput::from_json(parse(dso)).unwrap();
    assert_eq!(deserialized, SyncOutput::Success(Success { jsonrpc: Version::V2, result: num(1), id: Id::Num(1) }));
}

#[test]
fn failure_output_serialize() {
    let fo = SyncOutput::Failure(Failure { jsonrpc: Version::V2, error: Error::parse_error(), id: Id::Num(1) });

    let serialized = text(&fo.to_json());
    assert_eq!(
        serialized,
        r#"{"jsonrpc":"2.0","error":{"code":-32700,"message":"Parse error","data":null},"id":1}"#
    );
}

#[test]
fn failure_output_deserialize() {
    let dfo = r#"{"jsonrpc":"2.0","error":{"code":-32700,"message":"Parse error"},"id":1}"#;

    let deserialized = SyncOutput::from_json(parse(dfo)).unwrap();
    assert_eq!(deserialized, SyncOutput::Failure(Failure {
        jsonrpc: Version::V2,
        error: Error::parse_error(),
        id: Id::Num(1),
    }));
}

#[test]
fn single_response_deserialize() {
    let dsr = r#"{"jsonrpc":"2.0","result":1,"id":1}"#;

    let deserialized = SyncResponse::from_json(parse(dsr)).unwrap();
    assert_eq!(
        deserialized,
        SyncResponse::Single(SyncOutput::Success(Success { jsonrpc: Version::V2, result: num(1), id: Id::Num(1) }))
    );
}

#[test]
fn batch_response_deserialize() {
    let dbr = r#"[{"jsonrpc":"2.0","result":1,"id":1},{"jsonrpc":"2.0","error":{"code":-32700,"message":"Parse error"},"id":1}]"#;

    let deserialized = SyncResponse::from_json(parse(dbr)).unwrap();
    assert_eq!(deserialized, SyncResponse::Batch(vec![
        SyncOutput::Success(Success { jsonrpc: Version::V2, result: num(1), id: Id::Num(1) }),
        SyncOutput::Failure(Failure { jsonrpc: Version::V2, error: Error::parse_error(), id: Id::Num(1) }),
    ]));
}

#[test]
fn test_io_handler() {
    let mut io = IoHandler::new();

    io.add_method("say_hello", |_params: Params| Ok(JsonValue::String("hello".to_string())));

    let request = r#"{"jsonrpc": "2.0", "method": "say_hello", "params": [42, 23], "id": 1}"#;
    let response = r#"{"jsonrpc":"2.0","result":"hello","id":1}"#;

    assert_eq!(io.handle_parsed(Some(parse(request))).map(|r| text(&r)), Some(response.to_string()));
}

#[test]
fn io_handler_answers_unreadable_text_with_parse_error() {
    let io = IoHandler::new();
    let response = io.handle_parsed(None).map(|r| text(&r));
    assert_eq!(
        response,
        Some(r#"{"jsonrpc":"2.0","error":{"code":-32700,"message":"Parse error","data":null},"id":null}"#.to_string())
    );
}

#[test]
fn io_handler_answers_unknown_method_and_invalid_call() {
    let io = IoHandler::new();
    let request = r#"[{"jsonrpc": "2.0", "method": "nope", "id": 7}, 3, {"jsonrpc": "2.0", "method": "n"}]"#;
    let response = io.handle_parsed(Some(parse(request))).map(|r| text(&r));
    assert_eq!(
        response,
        Some(
            r#"[{"jsonrpc":"2.0","error":{"code":-32601,"message":"Method not found","data":null},"id":7},{"jsonrpc":"2.0","error":{"code":-32600,"message":"Invalid request","data":null},"id":null}]"#
                .to_string()
        )
    );
}

#[test]
fn io_handler_gives_no_answer_to_notifications() {
    let mut io = IoHandler::new();
    io.add_notification("ping", |_params: Params| {});
    let request = r#"{"jsonrpc": "2.0", "method": "ping", "params": []}"#;
    assert_eq!(io.handle_parsed(Some(parse(request))), None);
}

fn test_rpc() -> Rpc {
    let mut io = IoHandler::new();
    io.add_method("test_method", |_params: Params| Ok(JsonValue::Array(vec![num(5), num(10)])));
    Rpc::from_handler(io)
}

#[test]
fn should_test_request_is_pretty() {
    // given
    let rpc = test_rpc();

    // when
    let result = rpc.call("test_method", JsonValue::Array(vec![num(5)]));
    assert_eq!(serde_json::to_string_pretty(&to_serde(&result)).unwrap(), "[\n  5,\n  10\n]");
}

#[test]
fn should_test_make_request_compact() {
    // given
    let rpc = test_rpc();

    // when
    let result = rpc.call("test_method", JsonValue::Array(vec![num(5)]));
    assert_eq!(serde_json::to_string(&to_serde(&result)).unwrap(), "[5,10]");
}

#[test]
fn rpc_call_of_unknown_method_gives_its_error() {
    let rpc = test_rpc();
    let result = rpc.call("other", JsonValue::Null);
    assert_eq!(text(&result), r#"{"code":-32601,"message":"Method not found","data":null}"#);
}

#[test]
fn rpc_call_with_unreadable_params_is_invalid() {
    let rpc = test_rpc();
    let result = rpc.call("test_method", num(5));
    assert_eq!(text(&result), r#"{"code":-32600,"message":"Invalid request","data":null}"#);
}

#[test]
fn error_reads_back_from_its_json() {
    let e = Error::invalid_params();
    let j = e.to_json();
    assert_eq!(text(&j), r#"{"code":-32602,"message":"Invalid params","data":null}"#);
    assert_eq!(Error::from_json(j), Some(Error::invalid_params()));
}

#[test]
fn protocol_note_is_added_to_objects_without_version() {
    let noted = with_protocol_note(parse(r#"{"method":"a","id":1}"#)).unwrap();
    assert_eq!(to_serde(&noted), serde_json::from_str::<serde_json::Value>(r#"{"method":"a","id":1,"jsonrpc":"2.0"}"#).unwrap());
    assert!(with_protocol_note(parse(r#"{"jsonrpc":"2.0","id":1}"#)).is_none());
    assert!(with_protocol_note(parse(r#"[1]"#)).is_none());
}

#[test]
fn requests_read_back_from_their_json() {
    let batch = Request::Batch(vec![
        Call::MethodCall(MethodCall {
            jsonrpc: Version::V2,
            method: "m".to_owned(),
            params: Some(Params::Object(vec![("a".to_owned(), num(1))])),
            id: Id::Str("x".to_owned()),
        }),
        Call::Notification(Notification { jsonrpc: Version::V2, method: "n".to_owned(), params: None }),
    ]);
    let again = Request::Batch(vec![
        Call::MethodCall(MethodCall {
            jsonrpc: Version::V2,
            method: "m".to_owned(),
            params: Some(Params::Object(vec![("a".to_owned(), num(1))])),
            id: Id::Str("x".to_owned()),
        }),
        Call::Notification(Notification { jsonrpc: Version::V2, method: "n".to_owned(), params: None }),
    ]);
    assert_eq!(Request::from_json(batch.to_json().unwrap()), again);
}

#[test]
fn empty_params_read_back_as_none() {
    let n = Notification { jsonrpc: Version::V2, method: "n".to_owned(), params: Some(Params::Empty) };
    let read = Notification::from_json(n.to_json()).unwrap();
    assert_eq!(read.params, None);
}

#[test]
fn responses_read_back_from_their_json() {
    let resp = SyncResponse::Batch(vec![
        SyncOutput::Success(Success { jsonrpc: Version::V2, result: JsonValue::Bool(true), id: Id::Num(3) }),
        SyncOutput::Failure(Failure { jsonrpc: Version::V2, error: Error::method_not_found(), id: Id::Null }),
    ]);
    let again = SyncResponse::Batch(vec![
        SyncOutput::Success(Success { jsonrpc: Version::V2, result: JsonValue::Bool(true), id: Id::Num(3) }),
        SyncOutput::Failure(Failure { jsonrpc: Version::V2, error: Error::method_not_found(), id: Id::Null }),
    ]);
    assert_eq!(SyncResponse::from_json(resp.to_json()), Some(again));
}

#[test]
fn session_not_supported_code_does_not_read_back() {
    let e = Error::new(ErrorCode::SessionNotSupported);
    let read = Error::from_json(e.to_json()).unwrap();
    assert_eq!(read.code, ErrorCode::ServerError(-32001));
}

#[test]
fn error_constructors_carry_code_and_message() {
    let cases = vec![
        (Error::parse_error(), -32700, "Parse error"),
        (Error::invalid_request(), -32600, "Invalid request"),
        (Error::method_not_found(), -32601, "Method not found"),
        (Error::invalid_params(), -32602, "Invalid params"),
        (Error::internal_error(), -32603, "Internal error"),
        (Error::new(ErrorCode::SessionNotSupported), -32001, "Subscriptions are not supported"),
        (Error::new(ErrorCode::ServerError(-32099)), -32099, "Server error"),
    ];
    for (e, code, message) in cases {
        assert_eq!(e.code.code(), code);
        assert_eq!(e.message, message);
        assert_eq!(e.code.description(), message);
        assert!(e.data.is_none());
    }
    assert_eq!(ErrorCode::from_code(-32000), ErrorCode::SessionNotSupported);
    assert_eq!(ErrorCode::from_code(5), ErrorCode::ServerError(5));
}
