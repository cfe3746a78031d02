//! Limits against which descriptors are validated.

use vstd::prelude::*;

verus! {

/// Default maximum payload length (1 MiB).
pub const DEFAULT_MAX_PAYLOAD_LEN: u32 = 1024 * 1024;

/// Default maximum channel ID.
pub const DEFAULT_MAX_CHANNELS: u32 = 1024;

/// Limits for descriptor validation.
#[derive(Clone, Copy, Debug, PartialEq, Eq, Structural)]
pub struct DescriptorLimits {
    /// Maximum payload length in bytes.
    pub max_payload_len: u32,
    /// Maximum channel ID.
    pub max_channels: u32,
    /// Number of payload slots (0 = no slot-backed payloads to check).
    pub slot_count: u32,
    /// Size of each slot in bytes.
    pub slot_size: u32,
}

impl DescriptorLimits {
    /// Limits for a transport with `slot_count` slots of `slot_size` bytes,
    /// with the default payload and channel limits.
    pub fn with_slots(slot_count: u32, slot_size: u32) -> (r: Self)
        ensures
            r.max_payload_len == DEFAULT_MAX_PAYLOAD_LEN,
            r.max_channels == DEFAULT_MAX_CHANNELS,
            r.slot_count == slot_count,
            r.slot_size == slot_size,
    {
        DescriptorLimits {
            max_payload_len: DEFAULT_MAX_PAYLOAD_LEN,
            max_channels: DEFAULT_MAX_CHANNELS,
            slot_count,
            slot_size,
        }
    }
}

impl Default for DescriptorLimits {
    fn default() -> (r: Self)
        ensures
            r.max_payload_len == DEFAULT_MAX_PAYLOAD_LEN,
            r.max_channels == DEFAULT_MAX_CHANNELS,
            r.slot_count == 0,
            r.slot_size == 0,
    {
        DescriptorLimits {
            max_payload_len: DEFAULT_MAX_PAYLOAD_LEN,
            max_channels: DEFAULT_MAX_CHANNELS,
            slot_count: 0,
            slot_size: 0,
        }
    }
}

} // verus!
