//! Feature bits for capability negotiation.

use vstd::prelude::*;

verus! {

/// Supports STREAM/TUNNEL channels attached to calls.
pub const ATTACHED_STREAMS: u64 = 0x1;
/// Uses the CallResult envelope with status and trailers.
pub const CALL_ENVELOPE: u64 = 0x2;
/// Enforces credit-based flow control.
pub const CREDIT_FLOW_CONTROL: u64 = 0x4;
/// Supports Ping/Pong.
pub const RAPACE_PING: u64 = 0x8;
/// WebTransport: map channels to QUIC streams.
pub const WEBTRANSPORT_MULTI_STREAM: u64 = 0x10;
/// WebTransport: support unreliable datagrams.
pub const WEBTRANSPORT_DATAGRAMS: u64 = 0x20;

} // verus!
