//! Errors of the transport that carries the frames.

use vstd::prelude::*;

verus! {

/// Failures of the transport layer.
#[derive(Debug, Clone)]
pub enum NetworkError {
    NotActive,
    NotConnected,
    ConnectionError(String),
    SendError(String),
    ReceiveError(String),
    SerializationError(String),
    TlsError(String),
}

} // verus!
