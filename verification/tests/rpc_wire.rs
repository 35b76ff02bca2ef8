//! Messages between the server and its client.
use attini::rpc::wire::{parse_incoming, ErrorResponse, Incoming, Notification, SuccessResponse};

#[test]
fn parse_request_with_object_params() {
    let line = r#"{"jsonrpc":"2.0","id":1,"method":"submit_prompt","params":{"text":"hi"}}"#;
    let msg = parse_incoming(line).expect("parse");
    assert_eq!(
        msg,
        Incoming::Request {
            id: 1,
            method: "submit_prompt".into(),
            params_json: r#"{"text":"hi"}"#.into(),
        }
    );
}

#[test]
fn parse_request_without_params_uses_null() {
    let line = r#"{"jsonrpc":"2.0","id":2,"method":"cancel"}"#;
    let msg = parse_incoming(line).expect("parse");
    assert_eq!(
        msg,
        Incoming::Request {
            id: 2,
            method: "cancel".into(),
            params_json: "null".into(),
        }
    );
}

#[test]
fn parse_notification_when_id_missing() {
    let line = r#"{"jsonrpc":"2.0","method":"event/finish","params":{}}"#;
    let msg = parse_incoming(line).expect("parse");
    assert_eq!(
        msg,
        Incoming::Notification {
            method: "event/finish".into(),
            params_json: "{}".into(),
        }
    );
}

#[test]
fn parse_rejects_wrong_jsonrpc_version() {
    let line = r#"{"jsonrpc":"1.0","id":1,"method":"x"}"#;
    assert!(parse_incoming(line).is_err());
}

#[test]
fn parse_rejects_string_id() {
    let line = r#"{"jsonrpc":"2.0","id":"abc","method":"x"}"#;
    assert!(parse_incoming(line).is_err());
}

#[test]
fn success_response_serialises_result() {
    let resp = SuccessResponse {
        id: 3,
        result_json: r#"{"accepted":true}"#.to_string(),
    };
    let s = resp.to_json_string();
    assert_eq!(s, r#"{"jsonrpc":"2.0","id":3,"result":{"accepted":true}}"#);
}

#[test]
fn error_response_serialises_with_null_id_when_none() {
    let resp = ErrorResponse::parse_error("bad line");
    let s = resp.to_json_string();
    assert_eq!(
        s,
        r#"{"jsonrpc":"2.0","id":null,"error":{"code":-32700,"message":"bad line"}}"#
    );
}

#[test]
fn notification_serialises_with_no_id() {
    let notif = Notification {
        method: "event/cancel".to_string(),
        params_json: r#"{"kind":"cancel"}"#.to_string(),
    };
    let s = notif.to_json_string();
    assert_eq!(
        s,
        r#"{"jsonrpc":"2.0","method":"event/cancel","params":{"kind":"cancel"}}"#
    );
}

#[test]
fn errors_carry_their_code() {
    let text = |e: ErrorResponse| e.to_json_string();
    assert_eq!(
        text(ErrorResponse::invalid_request("no")),
        r#"{"jsonrpc":"2.0","id":null,"error":{"code":-32600,"message":"no"}}"#
    );
    assert_eq!(
        text(ErrorResponse::method_not_found(4, "fly")),
        r#"{"jsonrpc":"2.0","id":4,"error":{"code":-32601,"message":"method not found: fly"}}"#
    );
    assert_eq!(
        text(ErrorResponse::invalid_params(5, "a\"b")),
        r#"{"jsonrpc":"2.0","id":5,"error":{"code":-32602,"message":"a\"b"}}"#
    );
    assert_eq!(
        text(ErrorResponse::internal_error(6, "oops")),
        r#"{"jsonrpc":"2.0","id":6,"error":{"code":-32603,"message":"oops"}}"#
    );
}

#[test]
fn lines_that_are_no_message_are_refused() {
    assert!(parse_incoming("").is_err());
    assert!(parse_incoming("[]").is_err());
    assert!(parse_incoming("{}").is_err());
    assert!(parse_incoming(r#"{"jsonrpc":"2.0","id":1}"#).is_err());
    assert!(parse_incoming(r#"{"jsonrpc":"2.0","id":-1,"method":"x"}"#).is_err());
    assert!(parse_incoming(r#"{"jsonrpc":"2.0","id":1,"method":7}"#).is_err());
}
