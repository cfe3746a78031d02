//! Wire format types of the protocol: the 64-byte frame descriptor with its
//! little-endian encoding, handshake, channel, flow-control and status
//! messages, and method-ID computation.

pub mod control_verb;
pub mod error_code;
pub mod features;
pub mod flags;

use vstd::bytes::{
    lemma_auto_spec_u32_to_from_le_bytes, lemma_auto_spec_u64_to_from_le_bytes,
    spec_u32_from_le_bytes, spec_u32_to_le_bytes, spec_u64_from_le_bytes, spec_u64_to_le_bytes,
    u32_from_le_bytes, u32_to_le_bytes, u64_from_le_bytes, u64_to_le_bytes,
};
use vstd::prelude::*;
use vstd::slice::slice_subrange;
use vstd::string::StringSliceAdditionalSpecFns;
use vstd::wrapping::u64_specs;

verus! {

/// Slot value meaning "the payload is inline".
pub const INLINE_PAYLOAD_SLOT: u32 = 0xFFFF_FFFF;

/// Deadline value meaning "no deadline".
pub const NO_DEADLINE: u64 = 0xFFFF_FFFF_FFFF_FFFF;

/// Size of the inline payload area in bytes.
pub const INLINE_PAYLOAD_SIZE: usize = 16;

/// Protocol version 1.0, packed as `(major << 16) | minor`.
pub const PROTOCOL_VERSION_1_0: u32 = 0x0001_0000;

/// Hot-path message descriptor: 64 bytes on the wire, little-endian, no padding.
#[derive(Clone, Copy, Debug, Default)]
pub struct MsgDescHot {
    /// Unique message ID per connection, monotonically increasing.
    pub msg_id: u64,
    /// Logical channel (0 = control channel).
    pub channel_id: u32,
    /// Method identifier, or control verb on channel 0.
    pub method_id: u32,
    /// Slot index, or `INLINE_PAYLOAD_SLOT`.
    pub payload_slot: u32,
    /// Slot generation (ABA safety).
    pub payload_generation: u32,
    /// Byte offset within the slot.
    pub payload_offset: u32,
    /// Payload length in bytes.
    pub payload_len: u32,
    /// Frame flags.
    pub flags: u32,
    /// Credits granted to the peer (valid with the `CREDITS` flag).
    pub credit_grant: u32,
    /// Absolute deadline in nanoseconds since the epoch.
    pub deadline_ns: u64,
    /// Inline payload bytes.
    pub inline_payload: [u8; 16],
}

/// The 64-byte little-endian encoding of a descriptor, field by field.
pub open spec fn desc_bytes(d: MsgDescHot) -> Seq<u8> {
    spec_u64_to_le_bytes(d.msg_id) + spec_u32_to_le_bytes(d.channel_id) + spec_u32_to_le_bytes(
        d.method_id,
    ) + spec_u32_to_le_bytes(d.payload_slot) + spec_u32_to_le_bytes(d.payload_generation)
        + spec_u32_to_le_bytes(d.payload_offset) + spec_u32_to_le_bytes(d.payload_len)
        + spec_u32_to_le_bytes(d.flags) + spec_u32_to_le_bytes(d.credit_grant)
        + spec_u64_to_le_bytes(d.deadline_ns) + d.inline_payload@
}

/// `d` is what the 64 bytes `b` decode to.
pub open spec fn decodes_to(b: Seq<u8>, d: MsgDescHot) -> bool {
    &&& d.msg_id == spec_u64_from_le_bytes(b.subrange(0, 8))
    &&& d.channel_id == spec_u32_from_le_bytes(b.subrange(8, 12))
    &&& d.method_id == spec_u32_from_le_bytes(b.subrange(12, 16))
    &&& d.payload_slot == spec_u32_from_le_bytes(b.subrange(16, 20))
    &&& d.payload_generation == spec_u32_from_le_bytes(b.subrange(20, 24))
    &&& d.payload_offset == spec_u32_from_le_bytes(b.subrange(24, 28))
    &&& d.payload_len == spec_u32_from_le_bytes(b.subrange(28, 32))
    &&& d.flags == spec_u32_from_le_bytes(b.subrange(32, 36))
    &&& d.credit_grant == spec_u32_from_le_bytes(b.subrange(36, 40))
    &&& d.deadline_ns == spec_u64_from_le_bytes(b.subrange(40, 48))
    &&& d.inline_payload@ == b.subrange(48, 64)
}

/// Two descriptors agree on every field (inline payloads compared by content).
pub open spec fn same_desc(a: MsgDescHot, b: MsgDescHot) -> bool {
    &&& a.msg_id == b.msg_id
    &&& a.channel_id == b.channel_id
    &&& a.method_id == b.method_id
    &&& a.payload_slot == b.payload_slot
    &&& a.payload_generation == b.payload_generation
    &&& a.payload_offset == b.payload_offset
    &&& a.payload_len == b.payload_len
    &&& a.flags == b.flags
    &&& a.credit_grant == b.credit_grant
    &&& a.deadline_ns == b.deadline_ns
    &&& a.inline_payload@ == b.inline_payload@
}

proof fn lemma_desc_bytes_parts(d: MsgDescHot)
    ensures
        desc_bytes(d).len() == 64,
        desc_bytes(d).subrange(0, 8) == spec_u64_to_le_bytes(d.msg_id),
        desc_bytes(d).subrange(8, 12) == spec_u32_to_le_bytes(d.channel_id),
        desc_bytes(d).subrange(12, 16) == spec_u32_to_le_bytes(d.method_id),
        desc_bytes(d).subrange(16, 20) == spec_u32_to_le_bytes(d.payload_slot),
        desc_bytes(d).subrange(20, 24) == spec_u32_to_le_bytes(d.payload_generation),
        desc_bytes(d).subrange(24, 28) == spec_u32_to_le_bytes(d.payload_offset),
        desc_bytes(d).subrange(28, 32) == spec_u32_to_le_bytes(d.payload_len),
        desc_bytes(d).subrange(32, 36) == spec_u32_to_le_bytes(d.flags),
        desc_bytes(d).subrange(36, 40) == spec_u32_to_le_bytes(d.credit_grant),
        desc_bytes(d).subrange(40, 48) == spec_u64_to_le_bytes(d.deadline_ns),
        desc_bytes(d).subrange(48, 64) == d.inline_payload@,
{
    lemma_auto_spec_u32_to_from_le_bytes();
    lemma_auto_spec_u64_to_from_le_bytes();
    let b = desc_bytes(d);
    assert(b.subrange(0, 8) =~= spec_u64_to_le_bytes(d.msg_id));
    assert(b.subrange(8, 12) =~= spec_u32_to_le_bytes(d.channel_id));
    assert(b.subrange(12, 16) =~= spec_u32_to_le_bytes(d.method_id));
    assert(b.subrange(16, 20) =~= spec_u32_to_le_bytes(d.payload_slot));
    assert(b.subrange(20, 24) =~= spec_u32_to_le_bytes(d.payload_generation));
    assert(b.subrange(24, 28) =~= spec_u32_to_le_bytes(d.payload_offset));
    assert(b.subrange(28, 32) =~= spec_u32_to_le_bytes(d.payload_len));
    assert(b.subrange(32, 36) =~= spec_u32_to_le_bytes(d.flags));
    assert(b.subrange(36, 40) =~= spec_u32_to_le_bytes(d.credit_grant));
    assert(b.subrange(40, 48) =~= spec_u64_to_le_bytes(d.deadline_ns));
    assert(b.subrange(48, 64) =~= d.inline_payload@);
}

/// Decoding the encoding of a descriptor gives the descriptor back.
pub proof fn lemma_decode_encode(d: MsgDescHot)
    ensures
        decodes_to(desc_bytes(d), d),
{
    lemma_desc_bytes_parts(d);
    lemma_auto_spec_u32_to_from_le_bytes();
    lemma_auto_spec_u64_to_from_le_bytes();
}

/// Encoding what 64 bytes decode to gives the bytes back.
pub proof fn lemma_encode_decode(b: Seq<u8>, d: MsgDescHot)
    requires
        b.len() == 64,
        decodes_to(b, d),
    ensures
        desc_bytes(d) == b,
{
    lemma_auto_spec_u32_to_from_le_bytes();
    lemma_auto_spec_u64_to_from_le_bytes();
    assert(spec_u64_to_le_bytes(d.msg_id) == b.subrange(0, 8));
    assert(spec_u32_to_le_bytes(d.channel_id) == b.subrange(8, 12));
    assert(spec_u32_to_le_bytes(d.method_id) == b.subrange(12, 16));
    assert(spec_u32_to_le_bytes(d.payload_slot) == b.subrange(16, 20));
    assert(spec_u32_to_le_bytes(d.payload_generation) == b.subrange(20, 24));
    assert(spec_u32_to_le_bytes(d.payload_offset) == b.subrange(24, 28));
    assert(spec_u32_to_le_bytes(d.payload_len) == b.subrange(28, 32));
    assert(spec_u32_to_le_bytes(d.flags) == b.subrange(32, 36));
    assert(spec_u32_to_le_bytes(d.credit_grant) == b.subrange(36, 40));
    assert(spec_u64_to_le_bytes(d.deadline_ns) == b.subrange(40, 48));
    assert(desc_bytes(d) =~= b);
}

/// Two descriptors that decode from the same bytes agree on every field.
pub proof fn lemma_decode_unique(b: Seq<u8>, d1: MsgDescHot, d2: MsgDescHot)
    requires
        decodes_to(b, d1),
        decodes_to(b, d2),
    ensures
        same_desc(d1, d2),
{
}

fn copy_into(buf: &mut [u8; 64], v: &Vec<u8>)
    requires
        v@.len() == 64,
    ensures
        final(buf)@ == v@,
{
    let mut i: usize = 0;
    while i < 64
        invariant
            i <= 64,
            v@.len() == 64,
            buf@.len() == 64,
            forall|j: int| 0 <= j < i ==> buf@[j] == v@[j],
        decreases 64 - i,
    {
        buf.set(i, v[i]);
        i = i + 1;
    }
    assert(buf@ =~= v@);
}

impl MsgDescHot {
    /// A descriptor with default values: inline, empty, no deadline.
    pub fn new() -> (r: Self)
        ensures
            r.msg_id == 0,
            r.channel_id == 0,
            r.method_id == 0,
            r.payload_slot == INLINE_PAYLOAD_SLOT,
            r.payload_generation == 0,
            r.payload_offset == 0,
            r.payload_len == 0,
            r.flags == 0,
            r.credit_grant == 0,
            r.deadline_ns == NO_DEADLINE,
            r.inline_payload@ == Seq::new(16, |i: int| 0u8),
    {
        let r = MsgDescHot {
            msg_id: 0,
            channel_id: 0,
            method_id: 0,
            payload_slot: INLINE_PAYLOAD_SLOT,
            payload_generation: 0,
            payload_offset: 0,
            payload_len: 0,
            flags: 0,
            credit_grant: 0,
            deadline_ns: NO_DEADLINE,
            inline_payload: [0u8; 16],
        };
        assert(r.inline_payload@ =~= Seq::new(16, |i: int| 0u8));
        r
    }

    /// Encode the descriptor to its 64 little-endian bytes.
    pub fn to_bytes(&self) -> (r: [u8; 64])
        ensures
            r@ == desc_bytes(*self),
    {
        let mut v = u64_to_le_bytes(self.msg_id);
        let mut p = u32_to_le_bytes(self.channel_id);
        v.append(&mut p);
        let mut p = u32_to_le_bytes(self.method_id);
        v.append(&mut p);
        let mut p = u32_to_le_bytes(self.payload_slot);
        v.append(&mut p);
        let mut p = u32_to_le_bytes(self.payload_generation);
        v.append(&mut p);
        let mut p = u32_to_le_bytes(self.payload_offset);
        v.append(&mut p);
        let mut p = u32_to_le_bytes(self.payload_len);
        v.append(&mut p);
        let mut p = u32_to_le_bytes(self.flags);
        v.append(&mut p);
        let mut p = u32_to_le_bytes(self.credit_grant);
        v.append(&mut p);
        let mut p = u64_to_le_bytes(self.deadline_ns);
        v.append(&mut p);
        let mut i: usize = 0;
        let ghost prefix = v@;
        while i < 16
            invariant
                i <= 16,
                prefix.len() == 48,
                v@ == prefix + self.inline_payload@.take(i as int),
            decreases 16 - i,
        {
            v.push(self.inline_payload[i]);
            i = i + 1;
            assert(v@ =~= prefix + self.inline_payload@.take(i as int));
        }
        proof {
            lemma_auto_spec_u32_to_from_le_bytes();
            lemma_auto_spec_u64_to_from_le_bytes();
            assert(self.inline_payload@.take(16) =~= self.inline_payload@);
            assert(v@ =~= desc_bytes(*self));
        }
        let mut buf = [0u8; 64];
        copy_into(&mut buf, &v);
        buf
    }

    /// Decode a descriptor from its 64 little-endian bytes.
    pub fn from_bytes(buf: &[u8; 64]) -> (r: Self)
        ensures
            decodes_to(buf@, r),
    {
        let s = buf.as_slice();
        let mut inline_payload = [0u8; 16];
        let mut i: usize = 0;
        while i < 16
            invariant
                i <= 16,
                s@ == buf@,
                s@.len() == 64,
                inline_payload@.len() == 16,
                forall|j: int| 0 <= j < i ==> inline_payload@[j] == s@[48 + j],
            decreases 16 - i,
        {
            inline_payload.set(i, s[48 + i]);
            i = i + 1;
        }
        assert(inline_payload@ =~= buf@.subrange(48, 64));
        MsgDescHot {
            msg_id: u64_from_le_bytes(slice_subrange(s, 0, 8)),
            channel_id: u32_from_le_bytes(slice_subrange(s, 8, 12)),
            method_id: u32_from_le_bytes(slice_subrange(s, 12, 16)),
            payload_slot: u32_from_le_bytes(slice_subrange(s, 16, 20)),
            payload_generation: u32_from_le_bytes(slice_subrange(s, 20, 24)),
            payload_offset: u32_from_le_bytes(slice_subrange(s, 24, 28)),
            payload_len: u32_from_le_bytes(slice_subrange(s, 28, 32)),
            flags: u32_from_le_bytes(slice_subrange(s, 32, 36)),
            credit_grant: u32_from_le_bytes(slice_subrange(s, 36, 40)),
            deadline_ns: u64_from_le_bytes(slice_subrange(s, 40, 48)),
            inline_payload,
        }
    }

    /// True when the payload is inline.
    pub fn is_inline(&self) -> (r: bool)
        ensures
            r == (self.payload_slot == INLINE_PAYLOAD_SLOT),
    {
        self.payload_slot == INLINE_PAYLOAD_SLOT
    }

    /// True when this is a control frame (channel 0).
    pub fn is_control(&self) -> (r: bool)
        ensures
            r == (self.channel_id == 0),
    {
        self.channel_id == 0
    }

    /// The first `payload_len` bytes of the inline payload area.
    pub fn inline_payload(&self) -> (r: &[u8])
        requires
            self.payload_len <= 16,
        ensures
            r@ == self.inline_payload@.subrange(0, self.payload_len as int),
    {
        slice_subrange(self.inline_payload.as_slice(), 0, self.payload_len as usize)
    }
}

// =============================================================================
// Method IDs
// =============================================================================

/// FNV-1a offset basis (64-bit).
pub const FNV_OFFSET: u64 = 0xcbf2_9ce4_8422_2325;

/// FNV-1a prime (64-bit).
pub const FNV_PRIME: u64 = 0x0000_0100_0000_01b3;

/// One FNV-1a step: xor the byte in, multiply by the prime (wrapping).
pub open spec fn fnv_step(h: u64, b: u8) -> u64 {
    u64_specs::wrapping_mul(h ^ (b as u64), FNV_PRIME)
}

/// FNV-1a over a byte sequence, starting from `h`.
pub open spec fn fnv_fold(h: u64, s: Seq<u8>) -> u64
    decreases s.len(),
{
    if s.len() == 0 {
        h
    } else {
        fnv_step(fnv_fold(h, s.drop_last()), s.last())
    }
}

/// The method ID of `service.method`: 64-bit FNV-1a over the service name, a
/// `.` and the method name, folded to 32 bits by xoring the halves.
pub open spec fn method_id_of(service: Seq<u8>, method: Seq<u8>) -> u32 {
    let h = fnv_fold(fnv_step(fnv_fold(FNV_OFFSET, service), 46u8), method);
    ((h >> 32u64) ^ h) as u32
}

fn fnv_hash_bytes(h0: u64, bytes: &[u8]) -> (r: u64)
    ensures
        r == fnv_fold(h0, bytes@),
{
    let mut hash = h0;
    let mut i: usize = 0;
    while i < bytes.len()
        invariant
            i <= bytes@.len(),
            hash == fnv_fold(h0, bytes@.take(i as int)),
        decreases bytes@.len() - i,
    {
        proof {
            assert(bytes@.take(i + 1).drop_last() =~= bytes@.take(i as int));
        }
        hash = hash ^ (bytes[i] as u64);
        hash = hash.wrapping_mul(FNV_PRIME);
        i = i + 1;
    }
    assert(bytes@.take(bytes@.len() as int) =~= bytes@);
    hash
}

/// The method ID of `service_name.method_name` (FNV-1a folded to 32 bits),
/// over the UTF-8 bytes of the names.
pub fn compute_method_id(service_name: &str, method_name: &str) -> (r: u32)
    ensures
        r == method_id_of(service_name.spec_bytes(), method_name.spec_bytes()),
{
    let hash = fnv_hash_bytes(FNV_OFFSET, service_name.as_bytes());
    let hash = hash ^ (46u8 as u64);
    let hash = hash.wrapping_mul(FNV_PRIME);
    let hash = fnv_hash_bytes(hash, method_name.as_bytes());
    ((hash >> 32u64) ^ hash) as u32
}

// =============================================================================
// Handshake, channels, flow control, liveness, shutdown, status
// =============================================================================

/// Connection role.
#[derive(Clone, Copy, Debug, PartialEq, Eq, Structural)]
pub enum Role {
    /// The peer that initiated the connection.
    Initiator,
    /// The peer that accepted the connection.
    Acceptor,
}

/// Connection limits.
#[derive(Clone, Copy, Debug, PartialEq, Eq, Structural)]
pub struct Limits {
    /// Maximum payload bytes per frame.
    pub max_payload_size: u32,
    /// Maximum concurrent channels (0 = unlimited).
    pub max_channels: u32,
    /// Maximum pending calls (0 = unlimited).
    pub max_pending_calls: u32,
}

impl Default for Limits {
    /// 1 MiB payloads, unlimited channels and pending calls.
    fn default() -> (r: Self)
        ensures
            r.max_payload_size == 1024 * 1024,
            r.max_channels == 0,
            r.max_pending_calls == 0,
    {
        Limits { max_payload_size: 1024 * 1024, max_channels: 0, max_pending_calls: 0 }
    }
}

/// Method registry entry.
#[derive(Clone, Debug)]
pub struct MethodInfo {
    /// Method identifier.
    pub method_id: u32,
    /// Structural signature hash.
    pub sig_hash: [u8; 32],
    /// Human-readable name.
    pub name: Option<String>,
}

/// Hello message of the handshake.
#[derive(Clone, Debug)]
pub struct Hello {
    /// Protocol version.
    pub protocol_version: u32,
    /// Connection role.
    pub role: Role,
    /// Features the peer must support.
    pub required_features: u64,
    /// Features this side supports.
    pub supported_features: u64,
    /// Advertised limits.
    pub limits: Limits,
    /// Method registry.
    pub methods: Vec<MethodInfo>,
    /// Extension parameters.
    pub params: Vec<(String, Vec<u8>)>,
}

impl Default for Hello {
    /// Version 1.0 initiator requiring attached streams and the call envelope,
    /// supporting those plus credit flow control and ping, with default limits.
    fn default() -> (r: Self)
        ensures
            r.protocol_version == PROTOCOL_VERSION_1_0,
            r.role == Role::Initiator,
            r.required_features == features::ATTACHED_STREAMS | features::CALL_ENVELOPE,
            r.supported_features == features::ATTACHED_STREAMS | features::CALL_ENVELOPE
                | features::CREDIT_FLOW_CONTROL | features::RAPACE_PING,
            r.limits.max_payload_size == 1024 * 1024,
            r.limits.max_channels == 0,
            r.limits.max_pending_calls == 0,
            r.methods@.len() == 0,
            r.params@.len() == 0,
    {
        Hello {
            protocol_version: PROTOCOL_VERSION_1_0,
            role: Role::Initiator,
            required_features: features::ATTACHED_STREAMS | features::CALL_ENVELOPE,
            supported_features: features::ATTACHED_STREAMS | features::CALL_ENVELOPE
                | features::CREDIT_FLOW_CONTROL | features::RAPACE_PING,
            limits: Limits::default(),
            methods: Vec::new(),
            params: Vec::new(),
        }
    }
}

/// Channel kind.
#[derive(Clone, Copy, Debug, PartialEq, Eq, Structural)]
pub enum ChannelKind {
    /// Unary request-response.
    Call,
    /// Typed streaming.
    Stream,
    /// Raw byte tunnel.
    Tunnel,
}

/// Stream or tunnel direction.
#[derive(Clone, Copy, Debug, PartialEq, Eq, Structural)]
pub enum Direction {
    /// Client sends, server receives.
    ClientToServer,
    /// Server sends, client receives.
    ServerToClient,
    /// Both directions.
    Bidir,
}

/// Attachment of a STREAM/TUNNEL channel to its parent call.
#[derive(Clone, Copy, Debug, PartialEq, Eq, Structural)]
pub struct AttachTo {
    /// The parent CALL channel.
    pub call_channel_id: u32,
    /// Port identifier from the method signature.
    pub port_id: u32,
    /// Direction.
    pub direction: Direction,
}

/// OpenChannel control message.
#[derive(Clone, Debug)]
pub struct OpenChannel {
    /// The new channel's ID.
    pub channel_id: u32,
    /// Channel kind.
    pub kind: ChannelKind,
    /// Attachment for STREAM/TUNNEL channels.
    pub attach: Option<AttachTo>,
    /// Metadata.
    pub metadata: Vec<(String, Vec<u8>)>,
    /// Initial flow-control credits.
    pub initial_credits: u32,
}

/// Reason for closing a channel.
#[derive(Clone, Debug)]
pub enum CloseReason {
    /// Normal completion.
    Normal,
    /// An error occurred.
    Error(String),
}

/// Reason for cancelling a channel.
#[derive(Clone, Copy, Debug, PartialEq, Eq, Structural)]
pub enum CancelReason {
    ClientCancel,
    DeadlineExceeded,
    ResourceExhausted,
    ProtocolViolation,
    Unauthenticated,
    PermissionDenied,
}

/// CloseChannel control message.
#[derive(Clone, Debug)]
pub struct CloseChannel {
    /// The channel to close.
    pub channel_id: u32,
    /// Reason for closing.
    pub reason: CloseReason,
}

/// CancelChannel control message.
#[derive(Clone, Copy, Debug, PartialEq, Eq, Structural)]
pub struct CancelChannel {
    /// The channel to cancel.
    pub channel_id: u32,
    /// Reason for cancellation.
    pub reason: CancelReason,
}

/// GrantCredits control message.
#[derive(Clone, Copy, Debug, PartialEq, Eq, Structural)]
pub struct GrantCredits {
    /// The channel receiving credits.
    pub channel_id: u32,
    /// Bytes of credit granted.
    pub bytes: u32,
}

/// Ping control message.
#[derive(Clone, Copy, Debug)]
pub struct Ping {
    /// Opaque payload, echoed in the Pong.
    pub payload: [u8; 8],
}

/// Pong control message.
#[derive(Clone, Copy, Debug)]
pub struct Pong {
    /// The Ping's payload.
    pub payload: [u8; 8],
}

impl Ping {
    /// The Pong answering this Ping: it echoes the payload.
    pub fn pong(&self) -> (r: Pong)
        ensures
            r.payload@ == self.payload@,
    {
        Pong { payload: self.payload }
    }
}

/// Reason for GoAway.
#[derive(Clone, Copy, Debug, PartialEq, Eq, Structural)]
pub enum GoAwayReason {
    Shutdown,
    Maintenance,
    Overload,
    ProtocolError,
}

/// GoAway control message.
#[derive(Clone, Debug)]
pub struct GoAway {
    /// Reason for shutdown.
    pub reason: GoAwayReason,
    /// Last channel ID the sender will process.
    pub last_channel_id: u32,
    /// Human-readable reason.
    pub message: String,
    /// Extension data.
    pub metadata: Vec<(String, Vec<u8>)>,
}

/// RPC status.
#[derive(Clone, Debug)]
pub struct Status {
    /// Error code (0 = OK).
    pub code: u32,
    /// Human-readable description.
    pub message: String,
    /// Opaque structured details.
    pub details: Vec<u8>,
}

impl Status {
    /// A success status: code 0, empty message and details.
    pub fn ok() -> (r: Self)
        ensures
            r.code == 0,
            r.message@.len() == 0,
            r.details@.len() == 0,
    {
        Status { code: 0, message: String::new(), details: Vec::new() }
    }

    /// An error status with the given code and message, empty details.
    pub fn error(code: u32, message: String) -> (r: Self)
        ensures
            r.code == code,
            r.message@ == message@,
            r.details@.len() == 0,
    {
        Status { code, message, details: Vec::new() }
    }

    /// True when this is a success status.
    pub fn is_ok(&self) -> (r: bool)
        ensures
            r == (self.code == 0),
    {
        self.code == 0
    }
}

/// CallResult envelope.
#[derive(Clone, Debug)]
pub struct CallResult {
    /// Status (success or error).
    pub status: Status,
    /// Trailing metadata.
    pub trailers: Vec<(String, Vec<u8>)>,
    /// Response body (present on success, absent on error).
    pub body: Option<Vec<u8>>,
}

} // verus!
