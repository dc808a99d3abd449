//! The error taxonomy: protocol errors, which round-trip through both
//! wires, and transport errors, which do not; and the bit-exact mapping
//! between each wire's error representation and the taxonomy.
use vstd::prelude::*;

use vstd::string::StringExecFns;

verus! {

/// The stable numeric code of each protocol error on both wires.
#[derive(Debug, Clone, Copy, PartialEq, Eq, Structural, Hash)]
pub enum A2AErrorCode {
    TaskNotFound,
    TaskNotCancelable,
    PushNotificationNotSupported,
    UnsupportedOperation,
    ContentTypeNotSupported,
    InvalidAgentResponse,
    AuthenticatedExtendedCardNotConfigured,
}

impl A2AErrorCode {
    /// The numeric value of the code.
    pub open spec fn as_i32(self) -> int {
        match self {
            A2AErrorCode::TaskNotFound => -32001,
            A2AErrorCode::TaskNotCancelable => -32002,
            A2AErrorCode::PushNotificationNotSupported => -32003,
            A2AErrorCode::UnsupportedOperation => -32004,
            A2AErrorCode::ContentTypeNotSupported => -32005,
            A2AErrorCode::InvalidAgentResponse => -32006,
            A2AErrorCode::AuthenticatedExtendedCardNotConfigured => -32007,
        }
    }

    /// The code a numeric value stands for, if any.
    pub open spec fn spec_from_i32(v: int) -> Option<A2AErrorCode> {
        if v == -32001 {
            Some(A2AErrorCode::TaskNotFound)
        } else if v == -32002 {
            Some(A2AErrorCode::TaskNotCancelable)
        } else if v == -32003 {
            Some(A2AErrorCode::PushNotificationNotSupported)
        } else if v == -32004 {
            Some(A2AErrorCode::UnsupportedOperation)
        } else if v == -32005 {
            Some(A2AErrorCode::ContentTypeNotSupported)
        } else if v == -32006 {
            Some(A2AErrorCode::InvalidAgentResponse)
        } else if v == -32007 {
            Some(A2AErrorCode::AuthenticatedExtendedCardNotConfigured)
        } else {
            None
        }
    }

    pub fn into_i32(self) -> (r: i32)
        ensures
            r == self.as_i32(),
    {
        match self {
            A2AErrorCode::TaskNotFound => -32001,
            A2AErrorCode::TaskNotCancelable => -32002,
            A2AErrorCode::PushNotificationNotSupported => -32003,
            A2AErrorCode::UnsupportedOperation => -32004,
            A2AErrorCode::ContentTypeNotSupported => -32005,
            A2AErrorCode::InvalidAgentResponse => -32006,
            A2AErrorCode::AuthenticatedExtendedCardNotConfigured => -32007,
        }
    }

    pub fn from_i32(v: i32) -> (r: Option<A2AErrorCode>)
        ensures
            r == A2AErrorCode::spec_from_i32(v as int),
    {
        if v == -32001 {
            Some(A2AErrorCode::TaskNotFound)
        } else if v == -32002 {
            Some(A2AErrorCode::TaskNotCancelable)
        } else if v == -32003 {
            Some(A2AErrorCode::PushNotificationNotSupported)
        } else if v == -32004 {
            Some(A2AErrorCode::UnsupportedOperation)
        } else if v == -32005 {
            Some(A2AErrorCode::ContentTypeNotSupported)
        } else if v == -32006 {
            Some(A2AErrorCode::InvalidAgentResponse)
        } else if v == -32007 {
            Some(A2AErrorCode::AuthenticatedExtendedCardNotConfigured)
        } else {
            None
        }
    }
}

/// A business error of the protocol; both wires carry it and both clients
/// restore it.
#[derive(Debug, Clone, PartialEq)]
pub enum A2AProtocolError {
    TaskNotFound { id: String, code: A2AErrorCode },
    TaskNotCancelable { id: String, code: A2AErrorCode },
    PushNotificationNotSupported { code: A2AErrorCode },
    UnsupportedOperation { code: A2AErrorCode },
    ContentTypeNotSupported { code: A2AErrorCode },
    InvalidAgentResponse { code: A2AErrorCode },
    AuthenticatedExtendedCardNotConfigured { code: A2AErrorCode },
}

/// The view of a protocol error.
pub ghost enum A2AProtocolErrorV {
    TaskNotFound { id: Seq<char>, code: A2AErrorCode },
    TaskNotCancelable { id: Seq<char>, code: A2AErrorCode },
    PushNotificationNotSupported { code: A2AErrorCode },
    UnsupportedOperation { code: A2AErrorCode },
    ContentTypeNotSupported { code: A2AErrorCode },
    InvalidAgentResponse { code: A2AErrorCode },
    AuthenticatedExtendedCardNotConfigured { code: A2AErrorCode },
}

impl View for A2AProtocolError {
    type V = A2AProtocolErrorV;

    open spec fn view(&self) -> A2AProtocolErrorV {
        match self {
            A2AProtocolError::TaskNotFound { id, code } => A2AProtocolErrorV::TaskNotFound {
                id: id@,
                code: *code,
            },
            A2AProtocolError::TaskNotCancelable { id, code } =>
                A2AProtocolErrorV::TaskNotCancelable { id: id@, code: *code },
            A2AProtocolError::PushNotificationNotSupported { code } =>
                A2AProtocolErrorV::PushNotificationNotSupported { code: *code },
            A2AProtocolError::UnsupportedOperation { code } =>
                A2AProtocolErrorV::UnsupportedOperation { code: *code },
            A2AProtocolError::ContentTypeNotSupported { code } =>
                A2AProtocolErrorV::ContentTypeNotSupported { code: *code },
            A2AProtocolError::InvalidAgentResponse { code } =>
                A2AProtocolErrorV::InvalidAgentResponse { code: *code },
            A2AProtocolError::AuthenticatedExtendedCardNotConfigured { code } =>
                A2AProtocolErrorV::AuthenticatedExtendedCardNotConfigured { code: *code },
        }
    }
}

impl A2AProtocolErrorV {
    /// Every protocol error carries the code of its own kind.
    pub open spec fn wf(self) -> bool {
        match self {
            A2AProtocolErrorV::TaskNotFound { code, .. } => code == A2AErrorCode::TaskNotFound,
            A2AProtocolErrorV::TaskNotCancelable { code, .. } => code
                == A2AErrorCode::TaskNotCancelable,
            A2AProtocolErrorV::PushNotificationNotSupported { code } => code
                == A2AErrorCode::PushNotificationNotSupported,
            A2AProtocolErrorV::UnsupportedOperation { code } => code
                == A2AErrorCode::UnsupportedOperation,
            A2AProtocolErrorV::ContentTypeNotSupported { code } => code
                == A2AErrorCode::ContentTypeNotSupported,
            A2AProtocolErrorV::InvalidAgentResponse { code } => code
                == A2AErrorCode::InvalidAgentResponse,
            A2AProtocolErrorV::AuthenticatedExtendedCardNotConfigured { code } => code
                == A2AErrorCode::AuthenticatedExtendedCardNotConfigured,
        }
    }

    /// The numeric code of the error's kind.
    pub open spec fn code_value(self) -> int {
        match self {
            A2AProtocolErrorV::TaskNotFound { .. } => -32001,
            A2AProtocolErrorV::TaskNotCancelable { .. } => -32002,
            A2AProtocolErrorV::PushNotificationNotSupported { .. } => -32003,
            A2AProtocolErrorV::UnsupportedOperation { .. } => -32004,
            A2AProtocolErrorV::ContentTypeNotSupported { .. } => -32005,
            A2AProtocolErrorV::InvalidAgentResponse { .. } => -32006,
            A2AProtocolErrorV::AuthenticatedExtendedCardNotConfigured { .. } => -32007,
        }
    }
}

impl A2AProtocolError {
    /// A task-not-found error for the given id.
    pub fn task_not_found(id: String) -> (r: A2AProtocolError)
        ensures
            r@ == (A2AProtocolErrorV::TaskNotFound { id: id@, code: A2AErrorCode::TaskNotFound }),
    {
        A2AProtocolError::TaskNotFound { id, code: A2AErrorCode::TaskNotFound }
    }

    /// A task-not-cancelable error for the given id.
    pub fn task_not_cancelable(id: String) -> (r: A2AProtocolError)
        ensures
            r@ == (A2AProtocolErrorV::TaskNotCancelable {
                id: id@,
                code: A2AErrorCode::TaskNotCancelable,
            }),
    {
        A2AProtocolError::TaskNotCancelable { id, code: A2AErrorCode::TaskNotCancelable }
    }

    pub fn push_notification_not_supported() -> (r: A2AProtocolError)
        ensures
            r@ == (A2AProtocolErrorV::PushNotificationNotSupported {
                code: A2AErrorCode::PushNotificationNotSupported,
            }),
    {
        A2AProtocolError::PushNotificationNotSupported {
            code: A2AErrorCode::PushNotificationNotSupported,
        }
    }

    pub fn unsupported_operation() -> (r: A2AProtocolError)
        ensures
            r@ == (A2AProtocolErrorV::UnsupportedOperation {
                code: A2AErrorCode::UnsupportedOperation,
            }),
    {
        A2AProtocolError::UnsupportedOperation { code: A2AErrorCode::UnsupportedOperation }
    }

    pub fn content_type_not_supported() -> (r: A2AProtocolError)
        ensures
            r@ == (A2AProtocolErrorV::ContentTypeNotSupported {
                code: A2AErrorCode::ContentTypeNotSupported,
            }),
    {
        A2AProtocolError::ContentTypeNotSupported { code: A2AErrorCode::ContentTypeNotSupported }
    }

    pub fn invalid_agent_response() -> (r: A2AProtocolError)
        ensures
            r@ == (A2AProtocolErrorV::InvalidAgentResponse {
                code: A2AErrorCode::InvalidAgentResponse,
            }),
    {
        A2AProtocolError::InvalidAgentResponse { code: A2AErrorCode::InvalidAgentResponse }
    }

    pub fn authenticated_extended_card_not_configured() -> (r: A2AProtocolError)
        ensures
            r@ == (A2AProtocolErrorV::AuthenticatedExtendedCardNotConfigured {
                code: A2AErrorCode::AuthenticatedExtendedCardNotConfigured,
            }),
    {
        A2AProtocolError::AuthenticatedExtendedCardNotConfigured {
            code: A2AErrorCode::AuthenticatedExtendedCardNotConfigured,
        }
    }
}

/// A wire, framing or I/O failure; not round-tripped semantically.
#[derive(Debug, Clone, PartialEq)]
pub enum A2ATransportError {
    /// The request lacked its required message.
    MissingPayload,
    /// A raw binary-wire status.
    BinaryStatus { code: i32, message: String },
    /// A raw textual-wire error object.
    TextualCall { code: i32, message: String },
    /// An I/O failure.
    IoFailure { message: String },
    /// An encoding or decoding failure.
    CodecFailure { message: String },
}

/// The view of a transport error.
pub ghost enum A2ATransportErrorV {
    MissingPayload,
    BinaryStatus { code: int, message: Seq<char> },
    TextualCall { code: int, message: Seq<char> },
    IoFailure { message: Seq<char> },
    CodecFailure { message: Seq<char> },
}

impl View for A2ATransportError {
    type V = A2ATransportErrorV;

    open spec fn view(&self) -> A2ATransportErrorV {
        match self {
            A2ATransportError::MissingPayload => A2ATransportErrorV::MissingPayload,
            A2ATransportError::BinaryStatus { code, message } => A2ATransportErrorV::BinaryStatus {
                code: *code as int,
                message: message@,
            },
            A2ATransportError::TextualCall { code, message } => A2ATransportErrorV::TextualCall {
                code: *code as int,
                message: message@,
            },
            A2ATransportError::IoFailure { message } => A2ATransportErrorV::IoFailure {
                message: message@,
            },
            A2ATransportError::CodecFailure { message } => A2ATransportErrorV::CodecFailure {
                message: message@,
            },
        }
    }
}

/// The two-level error taxonomy of the runtime.
#[derive(Debug, Clone, PartialEq)]
pub enum A2AError {
    Protocol(A2AProtocolError),
    Transport(A2ATransportError),
}

/// The view of an error.
pub ghost enum A2AErrorV {
    Protocol(A2AProtocolErrorV),
    Transport(A2ATransportErrorV),
}

impl View for A2AError {
    type V = A2AErrorV;

    open spec fn view(&self) -> A2AErrorV {
        match self {
            A2AError::Protocol(p) => A2AErrorV::Protocol(p@),
            A2AError::Transport(t) => A2AErrorV::Transport(t@),
        }
    }
}

/// The human-readable message of a protocol error.
pub open spec fn spec_protocol_message(e: A2AProtocolErrorV) -> Seq<char> {
    match e {
        A2AProtocolErrorV::TaskNotFound { .. } => "Task not found"@,
        A2AProtocolErrorV::TaskNotCancelable { .. } => "Task cannot be canceled"@,
        A2AProtocolErrorV::PushNotificationNotSupported { .. } =>
            "Push Notification is not supported"@,
        A2AProtocolErrorV::UnsupportedOperation { .. } => "This operation is not supported"@,
        A2AProtocolErrorV::ContentTypeNotSupported { .. } => "Incompatible content types"@,
        A2AProtocolErrorV::InvalidAgentResponse { .. } => "Invalid agent response type"@,
        A2AProtocolErrorV::AuthenticatedExtendedCardNotConfigured { .. } =>
            "Authenticated Extended Card not configured"@,
    }
}

/// The human-readable message of a transport error.
pub open spec fn spec_transport_message(e: A2ATransportErrorV) -> Seq<char> {
    match e {
        A2ATransportErrorV::MissingPayload => "Missing payload"@,
        A2ATransportErrorV::BinaryStatus { message, .. } => "Binary status: "@ + message,
        A2ATransportErrorV::TextualCall { message, .. } => "Textual call: "@ + message,
        A2ATransportErrorV::IoFailure { message } => "Io: "@ + message,
        A2ATransportErrorV::CodecFailure { message } => "Codec: "@ + message,
    }
}

/// The human-readable message of an error.
pub open spec fn spec_error_message(e: A2AErrorV) -> Seq<char> {
    match e {
        A2AErrorV::Protocol(p) => spec_protocol_message(p),
        A2AErrorV::Transport(t) => spec_transport_message(t),
    }
}

impl A2AProtocolError {
    /// The human-readable message of the error.
    pub fn message(&self) -> (r: String)
        ensures
            r@ == spec_protocol_message(self@),
    {
        match self {
            A2AProtocolError::TaskNotFound { .. } => "Task not found".to_owned(),
            A2AProtocolError::TaskNotCancelable { .. } => "Task cannot be canceled".to_owned(),
            A2AProtocolError::PushNotificationNotSupported { .. } =>
                "Push Notification is not supported".to_owned(),
            A2AProtocolError::UnsupportedOperation { .. } =>
                "This operation is not supported".to_owned(),
            A2AProtocolError::ContentTypeNotSupported { .. } =>
                "Incompatible content types".to_owned(),
            A2AProtocolError::InvalidAgentResponse { .. } =>
                "Invalid agent response type".to_owned(),
            A2AProtocolError::AuthenticatedExtendedCardNotConfigured { .. } =>
                "Authenticated Extended Card not configured".to_owned(),
        }
    }
}

impl A2ATransportError {
    /// The human-readable message of the error.
    pub fn message(&self) -> (r: String)
        ensures
            r@ == spec_transport_message(self@),
    {
        match self {
            A2ATransportError::MissingPayload => "Missing payload".to_owned(),
            A2ATransportError::BinaryStatus { message, .. } =>
                "Binary status: ".to_owned().concat(message.as_str()),
            A2ATransportError::TextualCall { message, .. } =>
                "Textual call: ".to_owned().concat(message.as_str()),
            A2ATransportError::IoFailure { message } => "Io: ".to_owned().concat(message.as_str()),
            A2ATransportError::CodecFailure { message } =>
                "Codec: ".to_owned().concat(message.as_str()),
        }
    }
}

impl A2AError {
    /// The human-readable message of the error.
    pub fn message(&self) -> (r: String)
        ensures
            r@ == spec_error_message(self@),
    {
        match self {
            A2AError::Protocol(p) => p.message(),
            A2AError::Transport(t) => t.message(),
        }
    }
}

/// The message a task-not-found error carries on either wire.
pub open spec fn spec_task_not_found_message(id: Seq<char>) -> Seq<char> {
    "Task not found: "@ + id
}

/// The numeric status code of the binary wire for "not found".
pub open spec fn binary_code_not_found() -> int {
    5
}

/// The numeric status code of the binary wire for "internal error".
pub open spec fn binary_code_internal() -> int {
    13
}

/// The numeric status code of the binary wire for "unimplemented".
pub open spec fn binary_code_unimplemented() -> int {
    12
}

/// A status of the binary wire: a numeric code, a message, and, for
/// protocol errors, the taxonomy code carried as trailing metadata.
#[derive(Debug, Clone, PartialEq)]
pub struct BinaryStatus {
    pub code: i32,
    pub message: String,
    pub error_code: Option<i32>,
}

/// The view of a binary status.
pub ghost struct BinaryStatusV {
    pub code: int,
    pub message: Seq<char>,
    pub error_code: Option<int>,
}

impl View for BinaryStatus {
    type V = BinaryStatusV;

    open spec fn view(&self) -> BinaryStatusV {
        BinaryStatusV {
            code: self.code as int,
            message: self.message@,
            error_code: match self.error_code {
                Some(c) => Some(c as int),
                None => None,
            },
        }
    }
}

/// The binary status an error maps to: task-not-found becomes a not-found
/// status with the message `Task not found: <id>` and the taxonomy code in
/// metadata; every other error becomes an internal status carrying its
/// message.
pub open spec fn spec_error_to_binary_status(e: A2AErrorV) -> BinaryStatusV {
    match e {
        A2AErrorV::Protocol(A2AProtocolErrorV::TaskNotFound { id, code }) => BinaryStatusV {
            code: binary_code_not_found(),
            message: spec_task_not_found_message(id),
            error_code: Some(code.as_i32()),
        },
        _ => BinaryStatusV {
            code: binary_code_internal(),
            message: spec_error_message(e),
            error_code: None,
        },
    }
}

/// Maps an error to the status the binary transport replies with.
pub fn error_to_binary_status(e: &A2AError) -> (r: BinaryStatus)
    ensures
        r@ == spec_error_to_binary_status(e@),
{
    match e {
        A2AError::Protocol(A2AProtocolError::TaskNotFound { id, code }) => BinaryStatus {
            code: 5,
            message: "Task not found: ".to_owned().concat(id.as_str()),
            error_code: Some(code.into_i32()),
        },
        _ => BinaryStatus { code: 13, message: e.message(), error_code: None },
    }
}

/// The error a client restores from a binary status received while reading
/// task `task_id`: a not-found status becomes the protocol task-not-found
/// error for that id; any other status stays a transport error.
pub open spec fn spec_binary_status_to_error(s: BinaryStatusV, task_id: Seq<char>) -> A2AErrorV {
    if s.code == binary_code_not_found() {
        A2AErrorV::Protocol(A2AProtocolErrorV::TaskNotFound {
            id: task_id,
            code: A2AErrorCode::TaskNotFound,
        })
    } else {
        A2AErrorV::Transport(A2ATransportErrorV::BinaryStatus {
            code: s.code,
            message: s.message,
        })
    }
}

/// Restores an error from a binary status, on the client side.
pub fn binary_status_to_error(s: BinaryStatus, task_id: String) -> (r: A2AError)
    ensures
        r@ == spec_binary_status_to_error(s@, task_id@),
{
    if s.code == 5 {
        A2AError::Protocol(A2AProtocolError::TaskNotFound {
            id: task_id,
            code: A2AErrorCode::TaskNotFound,
        })
    } else {
        A2AError::Transport(A2ATransportError::BinaryStatus {
            code: s.code,
            message: s.message,
        })
    }
}

/// An error object of the textual wire: a numeric code and a message.
#[derive(Debug, Clone, PartialEq)]
pub struct JsonRpcErrorObject {
    pub code: i32,
    pub message: String,
}

/// The view of a textual-wire error object.
pub ghost struct JsonRpcErrorObjectV {
    pub code: int,
    pub message: Seq<char>,
}

impl View for JsonRpcErrorObject {
    type V = JsonRpcErrorObjectV;

    open spec fn view(&self) -> JsonRpcErrorObjectV {
        JsonRpcErrorObjectV { code: self.code as int, message: self.message@ }
    }
}

/// The textual-wire error object an error maps to: each protocol error
/// keeps its own numeric code, task-not-found with the message
/// `Task not found: <id>`; every other error becomes code -32000 with its
/// message.
pub open spec fn spec_error_to_jsonrpc(e: A2AErrorV) -> JsonRpcErrorObjectV {
    match e {
        A2AErrorV::Protocol(p) => JsonRpcErrorObjectV {
            code: p.code_value(),
            message: match p {
                A2AProtocolErrorV::TaskNotFound { id, .. } => spec_task_not_found_message(id),
                _ => spec_protocol_message(p),
            },
        },
        A2AErrorV::Transport(t) => JsonRpcErrorObjectV {
            code: -32000,
            message: spec_transport_message(t),
        },
    }
}

/// Maps an error to the error object the textual transport replies with.
pub fn error_to_jsonrpc(e: &A2AError) -> (r: JsonRpcErrorObject)
    ensures
        r@ == spec_error_to_jsonrpc(e@),
{
    match e {
        A2AError::Protocol(p) => {
            let code: i32 = match p {
                A2AProtocolError::TaskNotFound { .. } => -32001,
                A2AProtocolError::TaskNotCancelable { .. } => -32002,
                A2AProtocolError::PushNotificationNotSupported { .. } => -32003,
                A2AProtocolError::UnsupportedOperation { .. } => -32004,
                A2AProtocolError::ContentTypeNotSupported { .. } => -32005,
                A2AProtocolError::InvalidAgentResponse { .. } => -32006,
                A2AProtocolError::AuthenticatedExtendedCardNotConfigured { .. } => -32007,
            };
            let message = match p {
                A2AProtocolError::TaskNotFound { id, .. } =>
                    "Task not found: ".to_owned().concat(id.as_str()),
                _ => p.message(),
            };
            JsonRpcErrorObject { code, message }
        },
        A2AError::Transport(t) => JsonRpcErrorObject { code: -32000, message: t.message() },
    }
}

/// The error a client restores from a textual-wire error object received
/// while working on task `task_id`: each known protocol code is mapped
/// back to its protocol error; any other code stays a transport error.
pub open spec fn spec_jsonrpc_to_error(s: JsonRpcErrorObjectV, task_id: Seq<char>) -> A2AErrorV {
    match A2AErrorCode::spec_from_i32(s.code) {
        Some(code) => A2AErrorV::Protocol(
            match code {
                A2AErrorCode::TaskNotFound => A2AProtocolErrorV::TaskNotFound {
                    id: task_id,
                    code,
                },
                A2AErrorCode::TaskNotCancelable => A2AProtocolErrorV::TaskNotCancelable {
                    id: task_id,
                    code,
                },
                A2AErrorCode::PushNotificationNotSupported =>
                    A2AProtocolErrorV::PushNotificationNotSupported { code },
                A2AErrorCode::UnsupportedOperation => A2AProtocolErrorV::UnsupportedOperation {
                    code,
                },
                A2AErrorCode::ContentTypeNotSupported =>
                    A2AProtocolErrorV::ContentTypeNotSupported { code },
                A2AErrorCode::InvalidAgentResponse => A2AProtocolErrorV::InvalidAgentResponse {
                    code,
                },
                A2AErrorCode::AuthenticatedExtendedCardNotConfigured =>
                    A2AProtocolErrorV::AuthenticatedExtendedCardNotConfigured { code },
            },
        ),
        None => A2AErrorV::Transport(A2ATransportErrorV::TextualCall {
            code: s.code,
            message: s.message,
        }),
    }
}

/// Restores an error from a textual-wire error object, on the client side.
pub fn jsonrpc_to_error(s: JsonRpcErrorObject, task_id: String) -> (r: A2AError)
    ensures
        r@ == spec_jsonrpc_to_error(s@, task_id@),
{
    match A2AErrorCode::from_i32(s.code) {
        Some(code) => A2AError::Protocol(
            match code {
                A2AErrorCode::TaskNotFound => A2AProtocolError::TaskNotFound {
                    id: task_id,
                    code,
                },
                A2AErrorCode::TaskNotCancelable => A2AProtocolError::TaskNotCancelable {
                    id: task_id,
                    code,
                },
                A2AErrorCode::PushNotificationNotSupported =>
                    A2AProtocolError::PushNotificationNotSupported { code },
                A2AErrorCode::UnsupportedOperation => A2AProtocolError::UnsupportedOperation {
                    code,
                },
                A2AErrorCode::ContentTypeNotSupported => A2AProtocolError::ContentTypeNotSupported {
                    code,
                },
                A2AErrorCode::InvalidAgentResponse => A2AProtocolError::InvalidAgentResponse {
                    code,
                },
                A2AErrorCode::AuthenticatedExtendedCardNotConfigured =>
                    A2AProtocolError::AuthenticatedExtendedCardNotConfigured { code },
            },
        ),
        None => A2AError::Transport(A2ATransportError::TextualCall {
            code: s.code,
            message: s.message,
        }),
    }
}

/// Task-not-found parity: on either transport, a task-not-found error
/// raised by the server for id `id` surfaces on the client as exactly
/// `Protocol::TaskNotFound { id, code: TaskNotFound }`.
pub proof fn lemma_task_not_found_parity(id: Seq<char>)
    ensures
        spec_binary_status_to_error(
            spec_error_to_binary_status(
                A2AErrorV::Protocol(A2AProtocolErrorV::TaskNotFound {
                    id,
                    code: A2AErrorCode::TaskNotFound,
                }),
            ),
            id,
        ) == A2AErrorV::Protocol(A2AProtocolErrorV::TaskNotFound {
            id,
            code: A2AErrorCode::TaskNotFound,
        }),
        spec_jsonrpc_to_error(
            spec_error_to_jsonrpc(
                A2AErrorV::Protocol(A2AProtocolErrorV::TaskNotFound {
                    id,
                    code: A2AErrorCode::TaskNotFound,
                }),
            ),
            id,
        ) == A2AErrorV::Protocol(A2AProtocolErrorV::TaskNotFound {
            id,
            code: A2AErrorCode::TaskNotFound,
        }),
{
}

/// Protocol-error parity on the textual wire: every well-formed protocol
/// error that carries no id other than the task id of the call is restored
/// exactly by the client's reverse mapping.
pub proof fn lemma_jsonrpc_protocol_error_round_trip(p: A2AProtocolErrorV, task_id: Seq<char>)
    requires
        p.wf(),
        match p {
            A2AProtocolErrorV::TaskNotFound { id, .. } => id == task_id,
            A2AProtocolErrorV::TaskNotCancelable { id, .. } => id == task_id,
            _ => true,
        },
    ensures
        spec_jsonrpc_to_error(spec_error_to_jsonrpc(A2AErrorV::Protocol(p)), task_id)
            == A2AErrorV::Protocol(p),
{
}

} // verus!
