//! Control-channel payloads (channel 0), selected by the descriptor's
//! `method_id` verb.

use vstd::prelude::*;

use crate::protocol::{CancelReason, CloseReason};

verus! {

/// A control-channel payload.
#[derive(Clone, Debug)]
pub enum ControlPayload {
    /// Open a data channel.
    OpenChannel {
        channel_id: u32,
        service_name: String,
        method_name: String,
        metadata: Vec<(String, Vec<u8>)>,
    },
    /// Close a channel gracefully.
    CloseChannel { channel_id: u32, reason: CloseReason },
    /// Abort a channel at once.
    CancelChannel { channel_id: u32, reason: CancelReason },
    /// Grant flow-control credits.
    GrantCredits { channel_id: u32, bytes: u32 },
    /// Liveness probe.
    Ping { payload: [u8; 8] },
    /// Answer to a probe, echoing its payload.
    Pong { payload: [u8; 8] },
}

} // verus!
