//! Core of an agent-to-agent (A2A) RPC runtime: the canonical data model,
//! its textual (JSON) and binary (length-prefixed, protobuf-style) wire
//! encodings, the error taxonomy shared by both transports, and the dispatch
//! pipeline that mediates between a wire request and a user-supplied handler.
use vstd::prelude::*;

pub mod card;
pub mod cardcodec;
pub mod dispatch;
pub mod errors;
pub mod ids;
pub mod jcodec;
pub mod jsontext;
pub mod model;
pub mod object;
pub mod queue;
pub mod server;
pub mod store;
pub mod timefmt;
pub mod wire;

verus! {

/// A transport protocol choice for the A2A service.
#[derive(Debug, Clone, Copy, PartialEq, Eq, Structural, Hash)]
pub enum Transport {
    Grpc,
    JsonRpc,
}

} // verus!
