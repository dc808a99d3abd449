use ra2a::errors::binary_status_to_error;
use ra2a::errors::error_to_binary_status;
use ra2a::errors::error_to_jsonrpc;
use ra2a::errors::jsonrpc_to_error;
use ra2a::errors::A2AError;
use ra2a::errors::A2AErrorCode;
use ra2a::errors::A2AProtocolError;
use ra2a::errors::A2ATransportError;
use ra2a::errors::JsonRpcErrorObject;

/// Each protocol error keeps its own numeric code on the textual wire;
/// task-not-found carries its id in the message.
#[test]
fn jsonrpc_error_codes() {
    let e = A2AError::Protocol(A2AProtocolError::task_not_found("t-9".to_string()));
    let obj = error_to_jsonrpc(&e);
    assert_eq!(obj.code, -32001);
    assert_eq!(obj.message, "Task not found: t-9");

    let cases = vec![
        (A2AProtocolError::task_not_cancelable("x".to_string()), -32002),
        (A2AProtocolError::push_notification_not_supported(), -32003),
        (A2AProtocolError::unsupported_operation(), -32004),
        (A2AProtocolError::content_type_not_supported(), -32005),
        (A2AProtocolError::invalid_agent_response(), -32006),
        (A2AProtocolError::authenticated_extended_card_not_configured(), -32007),
    ];
    for (p, code) in cases {
        assert_eq!(error_to_jsonrpc(&A2AError::Protocol(p)).code, code);
    }

    let t = A2AError::Transport(A2ATransportError::MissingPayload);
    let obj = error_to_jsonrpc(&t);
    assert_eq!(obj.code, -32000);
    assert_eq!(obj.message, "Missing payload");
}

/// The client restores a protocol error from its textual-wire code; an
/// unknown code stays a transport error.
#[test]
fn jsonrpc_reverse_mapping() {
    let restored = jsonrpc_to_error(
        JsonRpcErrorObject { code: -32001, message: "Task not found: bogus".to_string() },
        "bogus".to_string(),
    );
    assert_eq!(
        restored,
        A2AError::Protocol(A2AProtocolError::TaskNotFound {
            id: "bogus".to_string(),
            code: A2AErrorCode::TaskNotFound,
        })
    );
    let other = jsonrpc_to_error(
        JsonRpcErrorObject { code: -32600, message: "bad request".to_string() },
        "x".to_string(),
    );
    assert_eq!(
        other,
        A2AError::Transport(A2ATransportError::TextualCall {
            code: -32600,
            message: "bad request".to_string(),
        })
    );
}

/// Task-not-found becomes a not-found binary status with the taxonomy
/// code in metadata; everything else becomes an internal status. The
/// client restores task-not-found from a not-found status.
#[test]
fn binary_status_mapping() {
    let e = A2AError::Protocol(A2AProtocolError::task_not_found("t-1".to_string()));
    let st = error_to_binary_status(&e);
    assert_eq!(st.code, 5);
    assert_eq!(st.message, "Task not found: t-1");
    assert_eq!(st.error_code, Some(-32001));

    let restored = binary_status_to_error(st, "t-1".to_string());
    assert_eq!(restored, e);

    let other = A2AError::Transport(A2ATransportError::MissingPayload);
    let st = error_to_binary_status(&other);
    assert_eq!(st.code, 13);
    assert_eq!(st.error_code, None);
    let back = binary_status_to_error(st, "t-1".to_string());
    assert_eq!(
        back,
        A2AError::Transport(A2ATransportError::BinaryStatus {
            code: 13,
            message: "Missing payload".to_string(),
        })
    );
}

/// The numeric codes of the taxonomy.
#[test]
fn error_code_values() {
    assert_eq!(A2AErrorCode::TaskNotFound.into_i32(), -32001);
    assert_eq!(A2AErrorCode::AuthenticatedExtendedCardNotConfigured.into_i32(), -32007);
    assert_eq!(A2AErrorCode::from_i32(-32004), Some(A2AErrorCode::UnsupportedOperation));
    assert_eq!(A2AErrorCode::from_i32(-1), None);
}
