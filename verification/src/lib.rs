//! A connection manager for a single outbound TCP session.
//!
//! The library owns the lifecycle of at most one outbound socket: it
//! validates connect requests (address literal and port range), decides
//! every state transition, and fixes the exact error reported for each
//! failure. The operating-system socket itself lives outside the library;
//! callers perform the I/O steps the manager hands out and feed the
//! outcomes back in, so every decision the manager makes is verified.

pub mod addr;
pub mod manager;
pub mod model;
pub mod models;
