//! Request and response shapes of the connection manager's three
//! operations, plus the ping shapes kept for the boundary's handshake.
//!
//! A `ConnectResponse` reports exactly one of `success = Some(true)` or an
//! `error` message; a `TransmitResponse` without an `error` denotes a
//! completed write. The fields are optional because the boundary that
//! carries them treats every field as optional on the wire; the manager
//! treats missing request fields as invalid input rather than crashing.

use vstd::prelude::*;

verus! {

/// Handshake request carried through the command boundary.
#[derive(Debug)]
pub struct PingRequest {
    pub value: Option<String>,
}

/// Handshake reply carried through the command boundary.
#[derive(Debug, Clone)]
pub struct PingResponse {
    pub value: Option<String>,
}

/// Asks the manager to open a connection to `address:port`.
#[derive(Debug)]
pub struct ConnectRequest {
    pub address: Option<String>,
    pub port: Option<i32>,
}

/// Outcome of a connect operation: `success = Some(true)` with no error,
/// or `success = Some(false)` with an error message.
#[derive(Debug)]
pub struct ConnectResponse {
    pub success: Option<bool>,
    pub error: Option<String>,
}

/// Asks the manager to write `message`'s bytes to the open connection.
#[derive(Debug)]
pub struct TransmitRequest {
    pub message: Option<String>,
}

/// Outcome of a transmit operation: no error means the write completed.
#[derive(Debug)]
pub struct TransmitResponse {
    pub error: Option<String>,
}

} // verus!
