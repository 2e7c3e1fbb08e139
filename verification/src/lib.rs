//! Verified core of a real-time, multi-room ephemeral chat service.
//!
//! Rooms are reserved in a short-lived cache, promoted to durable storage on
//! first connection, and served by a per-room in-process broadcast hub.  This
//! crate holds the room lifecycle and fan-out logic: identifier handling,
//! rate-limiting decisions, admission, the room registry, the per-connection
//! session state machine, and the request surface that ties them together.
//! All I/O (HTTP, websocket, cache, database) lives outside and hands this
//! library plain values.

use vstd::prelude::*;

pub mod admission;
pub mod hub;
pub mod ids;
pub mod json;
pub mod limiter;
pub mod registry;
pub mod requests;
pub mod session;
pub mod store;
pub mod text;

verus! {

/// Number of messages replayed to a newly joined peer.
pub const REPLAY_LIMIT: u16 = 100;

} // verus!
