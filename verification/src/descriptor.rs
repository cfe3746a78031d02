//! Message descriptors: the hot-path frame descriptor and the cold-path
//! observability record.

use vstd::prelude::*;
use vstd::slice::slice_subrange;

use crate::flags::FrameFlags;

verus! {

/// Size of the inline payload area in bytes.
pub const INLINE_PAYLOAD_SIZE: usize = 16;

/// Slot value meaning "the payload is inline, not in a slot".
pub const INLINE_PAYLOAD_SLOT: u32 = 0xFFFF_FFFF;

/// Deadline value meaning "no deadline".
pub const NO_DEADLINE: u64 = 0xFFFF_FFFF_FFFF_FFFF;

/// Hot-path message descriptor (64 bytes on the wire).
#[derive(Clone, Copy, Debug)]
pub struct MsgDescHot {
    /// Unique message ID per connection, monotonically increasing.
    pub msg_id: u64,
    /// Logical channel (0 = control channel).
    pub channel_id: u32,
    /// Method identifier, or control verb on channel 0.
    pub method_id: u32,
    /// Slot index, or `INLINE_PAYLOAD_SLOT` for an inline payload.
    pub payload_slot: u32,
    /// Slot generation, for ABA safety.
    pub payload_generation: u32,
    /// Byte offset within the slot.
    pub payload_offset: u32,
    /// Payload length in bytes.
    pub payload_len: u32,
    /// Frame flags.
    pub flags: FrameFlags,
    /// Credits granted to the peer (valid when the `CREDITS` flag is set).
    pub credit_grant: u32,
    /// Absolute deadline in nanoseconds since the epoch, or `NO_DEADLINE`.
    pub deadline_ns: u64,
    /// Inline payload bytes, used when `payload_slot == INLINE_PAYLOAD_SLOT`.
    pub inline_payload: [u8; 16],
}

/// A descriptor in the state that `MsgDescHot::new` produces.
pub open spec fn is_fresh_desc(d: MsgDescHot) -> bool {
    &&& d.msg_id == 0
    &&& d.channel_id == 0
    &&& d.method_id == 0
    &&& d.payload_slot == INLINE_PAYLOAD_SLOT
    &&& d.payload_generation == 0
    &&& d.payload_offset == 0
    &&& d.payload_len == 0
    &&& d.flags.spec_bits() == 0
    &&& d.credit_grant == 0
    &&& d.deadline_ns == NO_DEADLINE
    &&& d.inline_payload@ == Seq::new(16, |i: int| 0u8)
}

impl MsgDescHot {
    /// A descriptor with default values: inline, empty, no deadline.
    pub fn new() -> (r: Self)
        ensures
            is_fresh_desc(r),
    {
        let r = MsgDescHot {
            msg_id: 0,
            channel_id: 0,
            method_id: 0,
            payload_slot: INLINE_PAYLOAD_SLOT,
            payload_generation: 0,
            payload_offset: 0,
            payload_len: 0,
            flags: FrameFlags::empty(),
            credit_grant: 0,
            deadline_ns: NO_DEADLINE,
            inline_payload: [0u8; 16],
        };
        assert(r.inline_payload@ =~= Seq::new(16, |i: int| 0u8));
        r
    }

    /// True when the frame carries a deadline.
    pub fn has_deadline(&self) -> (r: bool)
        ensures
            r == (self.deadline_ns != NO_DEADLINE),
    {
        self.deadline_ns != NO_DEADLINE
    }

    /// True when the frame has a deadline and `now_ns` is past it.
    pub fn is_expired(&self, now_ns: u64) -> (r: bool)
        ensures
            r == (self.deadline_ns != NO_DEADLINE && now_ns > self.deadline_ns),
    {
        self.deadline_ns != NO_DEADLINE && now_ns > self.deadline_ns
    }

    /// True when the payload is inline.
    pub fn is_inline(&self) -> (r: bool)
        ensures
            r == (self.payload_slot == INLINE_PAYLOAD_SLOT),
    {
        self.payload_slot == INLINE_PAYLOAD_SLOT
    }

    /// True when this is a control frame (channel 0).
    pub fn is_control(&self) -> (r: bool)
        ensures
            r == (self.channel_id == 0),
    {
        self.channel_id == 0
    }

    /// The first `payload_len` bytes of the inline payload area.
    pub fn inline_payload(&self) -> (r: &[u8])
        requires
            self.payload_len <= 16,
        ensures
            r@ == self.inline_payload@.subrange(0, self.payload_len as int),
    {
        slice_subrange(self.inline_payload.as_slice(), 0, self.payload_len as usize)
    }
}

impl Default for MsgDescHot {
    fn default() -> (r: Self)
        ensures
            is_fresh_desc(r),
    {
        MsgDescHot::new()
    }
}

/// Cold-path message descriptor (observability data).
#[derive(Clone, Copy, Debug, Default)]
pub struct MsgDescCold {
    /// Correlates with the hot descriptor.
    pub msg_id: u64,
    /// Distributed tracing ID.
    pub trace_id: u64,
    /// Span within the trace.
    pub span_id: u64,
    /// Parent span ID.
    pub parent_span_id: u64,
    /// When enqueued (nanoseconds since the epoch).
    pub timestamp_ns: u64,
    /// 0 = off, 1 = metadata, 2 = full payload.
    pub debug_level: u32,
    /// Reserved.
    pub _reserved: u32,
}

} // verus!
