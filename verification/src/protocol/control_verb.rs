//! Control message verbs (`method_id` values on channel 0).

use vstd::prelude::*;

verus! {

/// Hello (handshake).
pub const HELLO: u32 = 0;
/// Open a new channel.
pub const OPEN_CHANNEL: u32 = 1;
/// Close a channel gracefully.
pub const CLOSE_CHANNEL: u32 = 2;
/// Cancel a channel (abort).
pub const CANCEL_CHANNEL: u32 = 3;
/// Grant flow-control credits.
pub const GRANT_CREDITS: u32 = 4;
/// Liveness probe.
pub const PING: u32 = 5;
/// Response to Ping.
pub const PONG: u32 = 6;
/// Graceful shutdown.
pub const GO_AWAY: u32 = 7;

} // verus!
