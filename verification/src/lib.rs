//! A bidirectional subscription transport library: a wire envelope codec,
//! a per-connection session state machine that multiplexes concurrently
//! running operations onto one outbound queue, a heartbeat monitor, a
//! process-wide connection registry, and a small demo data source.

pub mod context;
pub mod database;
pub mod envelope;
pub mod models;
pub mod request;
pub mod schema;
pub mod server;
pub mod session;

use vstd::prelude::*;

verus! {

/// The heartbeat probe interval, in abstract time units.
pub const HEARTBEAT_INTERVAL: u64 = 5;

/// How long a session may go without any liveness response before it is
/// considered dead, in abstract time units.
pub const CLIENT_TIMEOUT: u64 = 10;

} // verus!
