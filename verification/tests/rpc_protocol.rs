use mado::msgpack::MsgValue;
use mado::rpc::{
    decode_rpc_message, notification_message, refusal_response, request_message, response_outcome,
    route_message, unknown_response_text, ReaderAction, RpcMessage,
};

fn n(value: u64) -> MsgValue {
    MsgValue::from_u64(value)
}

#[test]
fn decodes_request_response_and_notification() {
    assert!(matches!(
        decode_rpc_message(MsgValue::Array(vec![n(0), n(7), MsgValue::from_str("method"), MsgValue::Array(vec![])]))
            .unwrap(),
        RpcMessage::Request { id: 7, .. }
    ));

    assert!(matches!(
        decode_rpc_message(MsgValue::Array(vec![n(1), n(7), MsgValue::Nil, MsgValue::Boolean(true)])).unwrap(),
        RpcMessage::Response { id: 7, .. }
    ));

    assert!(matches!(
        decode_rpc_message(MsgValue::Array(vec![n(2), MsgValue::from_str("redraw"), MsgValue::Array(vec![])]))
            .unwrap(),
        RpcMessage::Notification { .. }
    ));
}

#[test]
fn requests_read_back_as_requests() {
    let params = vec![n(80), n(24)];
    let message = decode_rpc_message(request_message(9, "nvim_ui_attach", params.clone())).unwrap();
    assert_eq!(message, RpcMessage::Request { id: 9, method: "nvim_ui_attach".to_string(), params });
    let notification = decode_rpc_message(notification_message("nvim_input", vec![MsgValue::from_str("i")])).unwrap();
    assert_eq!(
        notification,
        RpcMessage::Notification { method: "nvim_input".to_string(), params: vec![MsgValue::from_str("i")] }
    );
}

#[test]
fn refuses_requests_from_neovim() {
    let request = RpcMessage::Request { id: 4, method: "ping".to_string(), params: vec![] };
    let ReaderAction::Reply { response } = route_message(request) else {
        panic!("expected a reply");
    };
    assert_eq!(response, refusal_response(4, &"ping".to_string()));
    let message = decode_rpc_message(response).unwrap();
    assert_eq!(
        message,
        RpcMessage::Response {
            id: 4,
            error: MsgValue::from_str("Mado does not implement Neovim RPC request 'ping'"),
            result: MsgValue::Nil,
        }
    );
}

#[test]
fn routes_responses_and_notifications() {
    let response = RpcMessage::Response { id: 2, error: MsgValue::Nil, result: n(5) };
    assert!(matches!(route_message(response), ReaderAction::Deliver { id: 2, .. }));
    let note = RpcMessage::Notification { method: "redraw".to_string(), params: vec![] };
    assert!(matches!(route_message(note), ReaderAction::Forward { method, .. } if method == "redraw"));
    assert_eq!(unknown_response_text(17), "response for unknown request id 17");
}

#[test]
fn reports_rpc_errors_and_results() {
    assert_eq!(response_outcome(MsgValue::Nil, n(3)), Ok(n(3)));
    assert_eq!(response_outcome(MsgValue::from_str("bad"), n(3)), Err(MsgValue::from_str("bad")));
}

fn error_of(value: MsgValue) -> String {
    decode_rpc_message(value).unwrap_err().message
}

#[test]
fn rejects_malformed_messages() {
    assert_eq!(error_of(n(0)), "RPC message must be an array");
    assert_eq!(error_of(MsgValue::Array(vec![])), "RPC message type must be an unsigned integer");
    assert_eq!(error_of(MsgValue::Array(vec![n(3), n(1)])), "unknown RPC message type 3");
    assert_eq!(error_of(MsgValue::Array(vec![n(1), n(7), MsgValue::Nil])), "missing response result");
    assert_eq!(error_of(MsgValue::Array(vec![n(1), n(7)])), "missing response error");
    assert_eq!(
        error_of(MsgValue::Array(vec![n(0), n(7), n(1), MsgValue::Array(vec![])])),
        "request method must be a UTF-8 string"
    );
    assert_eq!(
        error_of(MsgValue::Array(vec![n(2), MsgValue::from_str("x"), n(1)])),
        "notification params must be an array"
    );
}
