//! The connection manager: single authority over the one outbound TCP
//! connection.
//!
//! The manager owns a tagged state, `Disconnected` or `Connected`, and
//! decides every transition of the three operations. The operating-system
//! socket lives with the caller: where an operation needs I/O the manager
//! hands back a step to perform (open a socket, write these bytes, shut
//! this one down) and the caller reports the outcome through the matching
//! `..._finish` call. The phase field records which operation holds the
//! critical section between its two halves, so no second operation can
//! start before the first completes; the caller serializes the halves
//! under one exclusive lock together with the socket it owns.
//!
//! Every error is returned as data, never raised: an ill-formed request
//! is answered with `invalid input`, a transmit without a connection with
//! `not connected to a server`, a failed write with `disconnected from
//! server`, and a failed connect attempt with the failure detail behind a
//! fixed prefix. A failure while closing a discarded socket is the
//! caller's to ignore: the manager has already forgotten the handle.

use vstd::prelude::*;
use vstd::string::StringExecFns;

use crate::addr::{parse_ip, spec_parse_ip, is_valid_ip_literal, IpAddress};
use crate::models::{ConnectRequest, ConnectResponse, TransmitRequest, TransmitResponse};

verus! {

/// Identifies one installed socket; every successful connect installs a
/// handle with a fresh identifier.
#[derive(Debug, Clone, Copy, PartialEq, Eq, Structural)]
pub struct SocketHandle {
    pub id: u64,
}

/// The manager's view of the one outbound connection: at most one live
/// socket exists at any time.
#[derive(Debug, Clone, Copy, PartialEq, Eq, Structural)]
pub enum ConnectionState {
    Disconnected,
    Connected(SocketHandle),
}

/// Which operation holds the critical section between handing out an I/O
/// step and hearing its outcome.
#[derive(Debug, Clone, Copy, PartialEq, Eq, Structural)]
pub enum Phase {
    Idle,
    Connecting,
    Writing,
}

/// What the caller must do after `connect` examined a request.
pub enum ConnectStep {
    /// The request was rejected; return the response, no I/O follows.
    Rejected(ConnectResponse),
    /// Open a TCP connection to this address and port, then report the
    /// outcome through `connect_finish`.
    Attempt(IpAddress, u16),
}

/// What the caller must do after `transmit` examined a request.
pub enum TransmitStep {
    /// The operation completed without I/O; return the response.
    Done(TransmitResponse),
    /// Write the text's bytes to the connection behind this handle, then
    /// report the outcome through `transmit_finish`.
    Write(SocketHandle, String),
}

/// The handle inside a `Connected` state, if any.
pub open spec fn connected_handle(s: ConnectionState) -> Option<SocketHandle> {
    match s {
        ConnectionState::Connected(h) => Some(h),
        ConnectionState::Disconnected => None,
    }
}

/// A connect request is valid when both fields are present, the address
/// is a well-formed IP literal, and the port fits sixteen bits.
pub open spec fn valid_connect_request(req: ConnectRequest) -> bool {
    &&& req.address matches Some(a) && is_valid_ip_literal(a@)
    &&& req.port matches Some(p) && 0 <= p && p <= 65535
}

/// The state every connect establishes before any attempt: the prior
/// connection, whatever it was, is discarded.
pub open spec fn connect_begin_state(s: ConnectionState) -> ConnectionState {
    ConnectionState::Disconnected
}

/// The state after a connect attempt's outcome is installed.
pub open spec fn connect_result_state(ok: bool, fresh: SocketHandle) -> ConnectionState {
    if ok {
        ConnectionState::Connected(fresh)
    } else {
        ConnectionState::Disconnected
    }
}

/// The state after a write's outcome: a delivered write keeps the
/// connection, a failed one collapses it.
pub open spec fn transmit_result_state(s: ConnectionState, delivered: bool) -> ConnectionState {
    match s {
        ConnectionState::Connected(h) => if delivered {
            s
        } else {
            ConnectionState::Disconnected
        },
        ConnectionState::Disconnected => ConnectionState::Disconnected,
    }
}

/// The state after a disconnect: always disconnected.
pub open spec fn disconnect_result_state(s: ConnectionState) -> ConnectionState {
    ConnectionState::Disconnected
}

/// The error a transmit reports without touching any socket: the absent
/// connection, or the absent message field.
pub open spec fn transmit_immediate_error(s: ConnectionState, has_message: bool) -> Option<
    Seq<char>,
> {
    if s is Disconnected {
        Some(not_connected_message())
    } else if !has_message {
        Some(invalid_input_message())
    } else {
        None
    }
}

/// Error text for an ill-formed or incomplete request.
pub open spec fn invalid_input_message() -> Seq<char> {
    "invalid input"@
}

/// Error text for a transmit without an open connection.
pub open spec fn not_connected_message() -> Seq<char> {
    "not connected to a server"@
}

/// Error text for a write that lost the connection.
pub open spec fn dropped_message() -> Seq<char> {
    "disconnected from server"@
}

/// Error text for a failed connect attempt, carrying the reported detail.
pub open spec fn connect_failure_message(detail: Seq<char>) -> Seq<char> {
    "Failed to connect to server: "@ + detail
}

/// Owns the process's one outbound connection and serializes the three
/// operations on it.
pub struct TcpClient {
    state: ConnectionState,
    phase: Phase,
    next_id: u64,
}

impl TcpClient {
    /// The connection the manager currently owns.
    pub closed spec fn connection(self) -> ConnectionState {
        self.state
    }

    /// The operation holding the critical section, if any.
    pub closed spec fn phase(self) -> Phase {
        self.phase
    }

    /// The identifier the next installed handle will carry.
    pub closed spec fn next_issue(self) -> u64 {
        self.next_id
    }

    /// A write step is only ever pending on an open connection.
    pub closed spec fn wf(self) -> bool {
        self.phase is Writing ==> self.state is Connected
    }

    /// A manager that has never connected: disconnected and idle.
    pub fn new() -> (r: TcpClient)
        ensures
            r.wf(),
            r.connection() is Disconnected,
            r.phase() is Idle,
    {
        TcpClient { state: ConnectionState::Disconnected, phase: Phase::Idle, next_id: 0 }
    }

    /// Whether a connection is currently open.
    pub fn is_connected(&self) -> (r: bool)
        ensures
            r == (self.connection() is Connected),
    {
        match self.state {
            ConnectionState::Connected(_) => true,
            ConnectionState::Disconnected => false,
        }
    }

    /// The handle of the open connection, if any.
    pub fn current_handle(&self) -> (r: Option<SocketHandle>)
        ensures
            r == connected_handle(self.connection()),
    {
        match self.state {
            ConnectionState::Connected(h) => Some(h),
            ConnectionState::Disconnected => None,
        }
    }

    /// First half of a connect: discards any prior connection — the
    /// returned handle, if any, is the caller's to shut down, and its
    /// close failing changes nothing — then validates the request. A
    /// valid request yields the attempt to perform; an invalid one is
    /// rejected with `invalid input` and no attempt follows.
    pub fn connect(&mut self, payload: &ConnectRequest) -> (r: (Option<SocketHandle>, ConnectStep))
        requires
            old(self).wf(),
            old(self).phase() is Idle,
        ensures
            final(self).wf(),
            r.0 == connected_handle(old(self).connection()),
            final(self).connection() == connect_begin_state(old(self).connection()),
            final(self).next_issue() == old(self).next_issue(),
            valid_connect_request(*payload) ==> ({
            &&& final(self).phase() is Connecting
            &&& r.1 matches ConnectStep::Attempt(ip, p)
            &&& payload.address matches Some(a)
            &&& spec_parse_ip(a@) == Some(ip)
            &&& payload.port matches Some(q)
            &&& p as int == q as int
            }),
            !valid_connect_request(*payload) ==> ({
            &&& final(self).phase() is Idle
            &&& r.1 matches ConnectStep::Rejected(resp)
            &&& resp.success == Some(false)
            &&& resp.error matches Some(e)
            &&& e@ == invalid_input_message()
            }),
    {
        let closed: Option<SocketHandle> = match self.state {
            ConnectionState::Connected(h) => Some(h),
            ConnectionState::Disconnected => None,
        };
        self.state = ConnectionState::Disconnected;
        let parsed: Option<IpAddress> = match &payload.address {
            Some(a) => parse_ip(a.as_str()),
            None => None,
        };
        let ip = match parsed {
            Some(ip) => ip,
            None => {
                let resp = ConnectResponse {
                    success: Some(false),
                    error: Some(String::from_str("invalid input")),
                };
                return (closed, ConnectStep::Rejected(resp));
            },
        };
        let port: u16 = match payload.port {
            Some(p) => {
                if 0 <= p && p <= 65535 {
                    p as u16
                } else {
                    let resp = ConnectResponse {
                        success: Some(false),
                        error: Some(String::from_str("invalid input")),
                    };
                    return (closed, ConnectStep::Rejected(resp));
                }
            },
            None => {
                let resp = ConnectResponse {
                    success: Some(false),
                    error: Some(String::from_str("invalid input")),
                };
                return (closed, ConnectStep::Rejected(resp));
            },
        };
        self.phase = Phase::Connecting;
        (closed, ConnectStep::Attempt(ip, port))
    }

    /// Second half of a connect: installs the attempt's outcome. Success
    /// installs a fresh handle and reports `success = true`; failure
    /// leaves the manager disconnected and reports the failure detail
    /// behind a fixed prefix, never an empty message.
    pub fn connect_finish(&mut self, outcome: Result<(), String>) -> (r: ConnectResponse)
        requires
            old(self).wf(),
            old(self).phase() is Connecting,
        ensures
            final(self).wf(),
            final(self).phase() is Idle,
            final(self).connection() == connect_result_state(
                outcome is Ok,
                SocketHandle { id: old(self).next_issue() },
            ),
            outcome is Ok ==> r.success == Some(true) && r.error is None,
            outcome matches Err(m) ==> r.success == Some(false) && (
            r.error matches Some(e) && e@ == connect_failure_message(m@) && e@.len() > 0),
    {
        self.phase = Phase::Idle;
        match outcome {
            Ok(()) => {
                let h = SocketHandle { id: self.next_id };
                self.next_id = if self.next_id < u64::MAX {
                    self.next_id + 1
                } else {
                    0
                };
                self.state = ConnectionState::Connected(h);
                ConnectResponse { success: Some(true), error: None }
            },
            Err(m) => {
                self.state = ConnectionState::Disconnected;
                let mut e = String::from_str("Failed to connect to server: ");
                proof {
                    reveal_strlit("Failed to connect to server: ");
                }
                e.append(m.as_str());
                ConnectResponse { success: Some(false), error: Some(e) }
            },
        }
    }

    /// First half of a transmit: without an open connection it reports
    /// `not connected to a server` and changes nothing; with one and a
    /// present message it hands back the exact text to write; a missing
    /// message is rejected as invalid input.
    pub fn transmit(&mut self, payload: &TransmitRequest) -> (r: TransmitStep)
        requires
            old(self).wf(),
            old(self).phase() is Idle,
        ensures
            final(self).wf(),
            final(self).connection() == old(self).connection(),
            final(self).next_issue() == old(self).next_issue(),
            transmit_immediate_error(old(self).connection(), payload.message is Some)
                matches Some(msg) ==> final(self).phase() is Idle && (
            r matches TransmitStep::Done(resp) && resp.error matches Some(e) && e@ == msg),
            transmit_immediate_error(old(self).connection(), payload.message is Some) is None
                ==> (old(self).connection() matches ConnectionState::Connected(h)
                ==> payload.message matches Some(m) ==> final(self).phase() is Writing && (
            r matches TransmitStep::Write(h2, text) && h2 == h && text@ == m@)),
    {
        match self.state {
            ConnectionState::Disconnected => {
                let resp = TransmitResponse {
                    error: Some(String::from_str("not connected to a server")),
                };
                TransmitStep::Done(resp)
            },
            ConnectionState::Connected(h) => {
                match &payload.message {
                    Some(m) => {
                        self.phase = Phase::Writing;
                        TransmitStep::Write(h, m.clone())
                    },
                    None => {
                        let resp = TransmitResponse {
                            error: Some(String::from_str("invalid input")),
                        };
                        TransmitStep::Done(resp)
                    },
                }
            },
        }
    }

    /// Second half of a transmit: installs the write's outcome. A
    /// delivered write keeps the connection and reports no error; a
    /// failed one reports `disconnected from server`, hands back the
    /// handle for a best-effort shutdown, and leaves the manager
    /// disconnected.
    pub fn transmit_finish(&mut self, delivered: bool) -> (r: (
        TransmitResponse,
        Option<SocketHandle>,
    ))
        requires
            old(self).wf(),
            old(self).phase() is Writing,
        ensures
            final(self).wf(),
            final(self).phase() is Idle,
            final(self).next_issue() == old(self).next_issue(),
            final(self).connection() == transmit_result_state(old(self).connection(), delivered),
            delivered ==> r.0.error is None && r.1 is None
                && final(self).connection() == old(self).connection(),
            !delivered ==> (r.0.error matches Some(e) && e@ == dropped_message())
                && r.1 == connected_handle(old(self).connection())
                && final(self).connection() is Disconnected,
    {
        self.phase = Phase::Idle;
        if delivered {
            (TransmitResponse { error: None }, None)
        } else {
            let closed: Option<SocketHandle> = match self.state {
                ConnectionState::Connected(h) => Some(h),
                ConnectionState::Disconnected => None,
            };
            self.state = ConnectionState::Disconnected;
            let resp = TransmitResponse {
                error: Some(String::from_str("disconnected from server")),
            };
            (resp, closed)
        }
    }

    /// Disconnect: discards the connection, handing back the handle for
    /// a best-effort shutdown, whose failure changes nothing. Already
    /// disconnected, it is a no-op that returns nothing to close; it
    /// never fails.
    pub fn disconnect(&mut self) -> (closed: Option<SocketHandle>)
        requires
            old(self).wf(),
            old(self).phase() is Idle,
        ensures
            final(self).wf(),
            final(self).phase() is Idle,
            final(self).next_issue() == old(self).next_issue(),
            final(self).connection() == disconnect_result_state(old(self).connection()),
            closed == connected_handle(old(self).connection()),
    {
        let closed: Option<SocketHandle> = match self.state {
            ConnectionState::Connected(h) => Some(h),
            ConnectionState::Disconnected => None,
        };
        self.state = ConnectionState::Disconnected;
        closed
    }
}

/// A transmit on a manager with no connection — a fresh one included —
/// is answered with `not connected to a server`, whatever the request
/// holds, and no transition takes place.
pub proof fn lemma_fresh_transmit_not_connected(has_message: bool, delivered: bool)
    ensures
        transmit_immediate_error(ConnectionState::Disconnected, has_message) == Some(
            not_connected_message(),
        ),
        transmit_result_state(ConnectionState::Disconnected, delivered)
            == ConnectionState::Disconnected,
{
}

/// A failed connect attempt leaves the manager disconnected, its report
/// carries a non-empty error, and a transmit that follows is answered
/// with `not connected to a server` and changes nothing.
pub proof fn lemma_failed_connect_then_not_connected(
    fresh: SocketHandle,
    detail: Seq<char>,
    has_message: bool,
)
    ensures
        connect_result_state(false, fresh) is Disconnected,
        connect_failure_message(detail).len() > 0,
        transmit_immediate_error(connect_result_state(false, fresh), has_message) == Some(
            not_connected_message(),
        ),
{
    reveal_strlit("Failed to connect to server: ");
}

/// Connect discards the prior connection before any new attempt: the
/// state is disconnected from the moment the request is examined,
/// whatever was installed before, and a failed attempt leaves it so —
/// the earlier socket is never the one left installed.
pub proof fn lemma_connect_closes_prior(prior: ConnectionState, fresh: SocketHandle)
    ensures
        connect_begin_state(prior) is Disconnected,
        connect_result_state(false, fresh) is Disconnected,
        connect_result_state(true, fresh) == ConnectionState::Connected(fresh),
{
}

/// A failed write collapses the session: the manager is disconnected and
/// a transmit that follows is answered with `not connected to a server`.
pub proof fn lemma_write_failure_disconnects(h: SocketHandle, has_message: bool)
    ensures
        transmit_result_state(ConnectionState::Connected(h), false) is Disconnected,
        transmit_immediate_error(
            transmit_result_state(ConnectionState::Connected(h), false),
            has_message,
        ) == Some(not_connected_message()),
{
}

/// Disconnect is idempotent: it always ends disconnected, a second call
/// changes nothing, and the second call finds no handle left to close.
pub proof fn lemma_disconnect_idempotent(s: ConnectionState)
    ensures
        disconnect_result_state(s) is Disconnected,
        disconnect_result_state(disconnect_result_state(s)) == disconnect_result_state(s),
        connected_handle(disconnect_result_state(s)) is None,
{
}

} // verus!
