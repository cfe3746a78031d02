//! The decisions of an RPC session: message and channel ID allocation, the
//! registry of pending calls, tunnels and open channels, how each incoming
//! frame is routed, control-channel handling, the handshake checks, and the
//! error-response payload format.
//!
//! The session's I/O (sending and receiving frames, awaiting responses,
//! serializing control payloads) is driven by the caller, which performs the
//! action each function here decides on.

use vstd::bytes::{
    lemma_auto_spec_u32_to_from_le_bytes, spec_u32_from_le_bytes, spec_u32_to_le_bytes,
    u32_from_le_bytes, u32_to_le_bytes,
};
use std::collections::HashSet;
use vstd::prelude::*;
use vstd::slice::slice_subrange;
use vstd::string::StringSliceAdditionalSpecFns;
use vstd::utf8::{decode_utf8, encode_utf8, encode_utf8_decode_utf8, encode_utf8_valid_utf8, valid_utf8};

use crate::buffer_pool::PooledBuf;
use crate::descriptor::{MsgDescHot, INLINE_PAYLOAD_SIZE, INLINE_PAYLOAD_SLOT, NO_DEADLINE};
use crate::error::{error_code_from_value, error_code_value, ErrorCode, RpcError, TransportError};
use crate::frame::{payload_bytes_of, payload_fits, Frame};
use crate::flags::{
    FrameFlags, CONTROL_BIT, DATA_BIT, EOS_BIT, ERROR_BIT, NO_REPLY_BIT, RESPONSE_BIT,
};
use crate::protocol::{control_verb, features, Hello, Limits, Role, PROTOCOL_VERSION_1_0};
use crate::text::{decimal_text, hex_text, push_decimal, push_hex};

verus! {

// =============================================================================
// Error response payloads
// =============================================================================

/// What `String::from_utf8_lossy` makes of bytes that are not valid UTF-8.
pub uninterp spec fn utf8_lossy_replaced(bytes: Seq<u8>) -> Seq<char>;

/// The text `String::from_utf8_lossy` decodes from `bytes`: the decoded
/// characters for valid UTF-8, the replaced text otherwise.
pub open spec fn lossy_text(bytes: Seq<u8>) -> Seq<char> {
    if valid_utf8(bytes) {
        decode_utf8(bytes)
    } else {
        utf8_lossy_replaced(bytes)
    }
}

/// Calls `String::from_utf8_lossy(bytes).into_owned()`. Its documentation: valid
/// UTF-8 is decoded as is; each invalid sequence becomes U+FFFD, which is the
/// part that the name `utf8_lossy_replaced` stands for.
#[verifier::external_body]
fn utf8_lossy(bytes: &[u8]) -> (s: String)
    ensures
        s@ == (if valid_utf8(bytes@) {
            decode_utf8(bytes@)
        } else {
            utf8_lossy_replaced(bytes@)
        }),
{
    String::from_utf8_lossy(bytes).into_owned()
}

/// The bytes of an error response: the code and the message length as
/// little-endian `u32`s (the length truncated to 32 bits), then the message.
pub open spec fn error_payload_bytes(code: u32, message: Seq<u8>) -> Seq<u8> {
    spec_u32_to_le_bytes(code) + spec_u32_to_le_bytes((message.len() % 0x1_0000_0000) as u32)
        + message
}

/// The code and message that `parse_error_payload` reads from `p`: an internal
/// error saying the response is malformed when `p` is shorter than its header
/// or than the message length it announces; otherwise the announced code
/// (`Internal` when it names no code) and the message, decoded lossily.
pub open spec fn parsed_error(p: Seq<u8>) -> (ErrorCode, Seq<char>) {
    if p.len() < 8 {
        (ErrorCode::Internal, "malformed error response"@)
    } else {
        let code = spec_u32_from_le_bytes(p.subrange(0, 4));
        let len = spec_u32_from_le_bytes(p.subrange(4, 8));
        if p.len() < 8 + len {
            (ErrorCode::Internal, "malformed error response"@)
        } else {
            (code_or_internal(code), lossy_text(p.subrange(8, 8 + len)))
        }
    }
}

/// The error code with numeric value `v`, or `Internal` when there is none.
pub open spec fn code_or_internal(v: u32) -> ErrorCode {
    match error_code_from_value(v) {
        Some(c) => c,
        None => ErrorCode::Internal,
    }
}

/// Encodes an error response payload for `code` and `message`.
pub fn encode_error_payload(code: u32, message: &str) -> (r: Vec<u8>)
    ensures
        r@ == error_payload_bytes(code, message.spec_bytes()),
{
    let bytes = message.as_bytes();
    let len = bytes.len();
    let len32: u32 = ((len as u64) % 0x1_0000_0000u64) as u32;
    let mut out = u32_to_le_bytes(code);
    let mut l = u32_to_le_bytes(len32);
    out.append(&mut l);
    let mut i: usize = 0;
    let ghost prefix = out@;
    while i < len
        invariant
            i <= len,
            len == bytes@.len(),
            bytes@ == message.spec_bytes(),
            out@ == prefix + bytes@.take(i as int),
        decreases len - i,
    {
        out.push(bytes[i]);
        i = i + 1;
        assert(out@ =~= prefix + bytes@.take(i as int));
    }
    assert(bytes@.take(len as int) =~= bytes@);
    assert(out@ =~= error_payload_bytes(code, message.spec_bytes()));
    out
}

/// Parses an error response payload into an `RpcError::Status`.
pub fn parse_error_payload(payload: &[u8]) -> (r: RpcError)
    ensures
        r matches RpcError::Status { code, message } && code == parsed_error(payload@).0
            && message@ == parsed_error(payload@).1,
{
    proof {
        reveal_strlit("malformed error response");
    }
    if payload.len() < 8 {
        return RpcError::Status {
            code: ErrorCode::Internal,
            message: String::from_str("malformed error response"),
        };
    }
    let code_bytes = slice_subrange(payload, 0, 4);
    let len_bytes = slice_subrange(payload, 4, 8);
    let error_code = u32_from_le_bytes(code_bytes);
    let message_len = u32_from_le_bytes(len_bytes);
    if (message_len as usize) > payload.len() - 8 {
        return RpcError::Status {
            code: ErrorCode::Internal,
            message: String::from_str("malformed error response"),
        };
    }
    let end = 8 + message_len as usize;
    let code = match ErrorCode::from_u32(error_code) {
        Some(c) => c,
        None => ErrorCode::Internal,
    };
    let body = slice_subrange(payload, 8, end);
    let message = utf8_lossy(body);
    RpcError::Status { code, message }
}

/// The code and message an error response carries for `e`: a status keeps its
/// own; transport errors, cancellation and deadlines get fixed texts; a
/// (de)serialization error keeps its message behind a prefix.
pub open spec fn error_response_text(e: RpcError) -> (u32, Seq<char>) {
    match e {
        RpcError::Status { code, message } => (error_code_value(code), message@),
        RpcError::Transport(_) => (error_code_value(ErrorCode::Internal), "transport error"@),
        RpcError::Cancelled => (error_code_value(ErrorCode::Cancelled), "cancelled"@),
        RpcError::DeadlineExceeded => (
            error_code_value(ErrorCode::DeadlineExceeded),
            "deadline exceeded"@,
        ),
        RpcError::Serialize(m) => (error_code_value(ErrorCode::Internal), "serialize error: "@ + m@),
        RpcError::Deserialize(m) => (
            error_code_value(ErrorCode::Internal),
            "deserialize error: "@ + m@,
        ),
    }
}

/// The code and message of the error response sent when a handler fails with `e`.
pub fn error_response_parts(e: &RpcError) -> (r: (u32, String))
    ensures
        r.0 == error_response_text(*e).0,
        r.1@ == error_response_text(*e).1,
{
    match e {
        RpcError::Status { code, message } => (code.to_u32(), message.clone()),
        RpcError::Transport(_) => (ErrorCode::Internal.to_u32(), String::from_str("transport error")),
        RpcError::Cancelled => (ErrorCode::Cancelled.to_u32(), String::from_str("cancelled")),
        RpcError::DeadlineExceeded => (
            ErrorCode::DeadlineExceeded.to_u32(),
            String::from_str("deadline exceeded"),
        ),
        RpcError::Serialize(m) => {
            let mut s = String::from_str("serialize error: ");
            s.append(m.as_str());
            (ErrorCode::Internal.to_u32(), s)
        },
        RpcError::Deserialize(m) => {
            let mut s = String::from_str("deserialize error: ");
            s.append(m.as_str());
            (ErrorCode::Internal.to_u32(), s)
        },
    }
}

/// The error response frame sent on `channel_id` when a handler fails with
/// `e`: an `ERROR | EOS` descriptor and the encoded code and message.
pub fn error_response_frame(channel_id: u32, e: &RpcError) -> (r: Frame)
    ensures
        r.desc.msg_id == 0,
        r.desc.channel_id == channel_id,
        r.desc.method_id == 0,
        r.desc.flags.spec_bits() == ERROR_BIT | EOS_BIT,
        payload_fits(r.payload, r.desc),
        payload_bytes_of(r.payload, r.desc) == error_payload_bytes(
            error_response_text(*e).0,
            encode_utf8(error_response_text(*e).1),
        ),
{
    let (code, message) = error_response_parts(e);
    let text = message.as_str();
    let payload = encode_error_payload(code, text);
    Frame::with_payload(error_response_desc(channel_id), payload)
}

/// Parsing the payload of an error response frame gives back the handler's
/// error code (or `Internal` when it names none) and message.
pub proof fn lemma_error_response_parses_back(e: RpcError)
    requires
        encode_utf8(error_response_text(e).1).len() <= u32::MAX,
    ensures
        parsed_error(
            error_payload_bytes(error_response_text(e).0, encode_utf8(error_response_text(e).1)),
        ) == (code_or_internal(error_response_text(e).0), error_response_text(e).1),
{
    lemma_error_payload_roundtrip(error_response_text(e).0, error_response_text(e).1);
}

/// An error response parses back to its code (or `Internal` when the code
/// names none) and its message, for every message shorter than 4 GiB.
pub proof fn lemma_error_payload_roundtrip(code: u32, message: Seq<char>)
    requires
        encode_utf8(message).len() <= u32::MAX,
    ensures
        parsed_error(error_payload_bytes(code, encode_utf8(message))) == (
            code_or_internal(code),
            message,
        ),
{
    lemma_auto_spec_u32_to_from_le_bytes();
    encode_utf8_valid_utf8(message);
    encode_utf8_decode_utf8(message);
    let m = encode_utf8(message);
    let p = error_payload_bytes(code, m);
    let len32 = (m.len() % 0x1_0000_0000) as u32;
    assert(len32 == m.len());
    assert(p.subrange(0, 4) =~= spec_u32_to_le_bytes(code));
    assert(p.subrange(4, 8) =~= spec_u32_to_le_bytes(len32));
    assert(p.subrange(8, 8 + m.len() as int) =~= m);
}

// =============================================================================
// Sets of channel IDs
// =============================================================================

/// Every element is smaller than the next.
pub open spec fn strictly_increasing(s: Seq<u32>) -> bool {
    forall|i: int, j: int| 0 <= i < j < s.len() ==> s[i] < s[j]
}

/// The index of the first element of the increasing list `v` that is not
/// below `id`.
fn sorted_position(v: &Vec<u32>, id: u32) -> (r: usize)
    requires
        strictly_increasing(v@),
    ensures
        r <= v@.len(),
        forall|i: int| 0 <= i < r ==> v@[i] < id,
        forall|i: int| r <= i < v@.len() ==> v@[i] >= id,
{
    let mut i: usize = 0;
    while i < v.len() && v[i] < id
        invariant
            i <= v@.len(),
            strictly_increasing(v@),
            forall|k: int| 0 <= k < i ==> v@[k] < id,
        decreases v@.len() - i,
    {
        i = i + 1;
    }
    i
}

/// Adds `id` to the increasing list `v`, where it is not yet, keeping the
/// list increasing.
fn insert_sorted(v: &mut Vec<u32>, id: u32)
    requires
        strictly_increasing(old(v)@),
    ensures
        strictly_increasing(final(v)@),
        final(v)@.to_set() == old(v)@.to_set().insert(id),
{
    let i = sorted_position(v, id);
    if i < v.len() && v[i] == id {
        proof {
            assert(v@.contains(id));
            assert(v@.to_set().insert(id) =~= v@.to_set());
        }
        return;
    }
    let ghost before = v@;
    v.insert(i, id);
    proof {
        before.insert_ensures(i as int, id);
        assert(!before.contains(id)) by {
            if before.contains(id) {
                let k = choose|k: int| 0 <= k < before.len() && before[k] == id;
                if k >= i {
                    assert(before[i as int] <= before[k]);
                    assert(before[i as int] != id);
                }
            }
        }
        assert forall|a: int, b: int| 0 <= a < b < v@.len() implies v@[a] < v@[b] by {
            if b < i {
            } else if b == i {
            } else if a < i {
                assert(v@[b] == before[b - 1]);
            } else if a == i {
                assert(v@[b] == before[b - 1]);
            } else {
                assert(v@[a] == before[a - 1]);
                assert(v@[b] == before[b - 1]);
            }
        }
        assert forall|x: u32| v@.to_set().contains(x) == before.to_set().insert(id).contains(x) by {
            if x == id {
                assert(v@[i as int] == id);
            } else if before.contains(x) {
                let k = choose|k: int| 0 <= k < before.len() && before[k] == x;
                if k < i {
                    assert(v@[k] == x);
                } else {
                    assert(v@[k + 1] == x);
                }
            } else if v@.contains(x) {
                let k = choose|k: int| 0 <= k < v@.len() && v@[k] == x;
                if k < i {
                    assert(before[k] == x);
                } else if k > i {
                    assert(before[k - 1] == x);
                }
            }
        }
        assert(v@.to_set() =~= before.to_set().insert(id));
    }
}

/// A set of channel IDs.
#[derive(Debug)]
pub struct ChannelSet {
    ids: HashSet<u32>,
}

impl ChannelSet {
    /// The IDs in the set.
    pub closed spec fn view(&self) -> Set<u32> {
        self.ids@
    }

    /// The set is finite.
    pub closed spec fn wf(&self) -> bool {
        self.ids@.finite()
    }

    /// The empty set.
    pub fn new() -> (r: Self)
        ensures
            r.wf(),
            r@ == Set::<u32>::empty(),
    {
        ChannelSet { ids: HashSet::new() }
    }

    /// The number of IDs in the set.
    pub fn len(&self) -> (r: usize)
        requires
            self.wf(),
        ensures
            r == self@.len(),
            self@.finite(),
    {
        self.ids.len()
    }

    /// True when `id` is in the set.
    pub fn contains(&self, id: u32) -> (r: bool)
        requires
            self.wf(),
        ensures
            r == self@.contains(id),
    {
        broadcast use vstd::std_specs::hash::group_hash_axioms;

        self.ids.contains(&id)
    }

    /// Adds `id`; returns whether it was absent.
    pub fn insert(&mut self, id: u32) -> (r: bool)
        requires
            old(self).wf(),
        ensures
            final(self).wf(),
            final(self)@ == old(self)@.insert(id),
            r == !old(self)@.contains(id),
    {
        broadcast use vstd::std_specs::hash::group_hash_axioms;

        self.ids.insert(id)
    }

    /// Removes `id`; returns whether it was present.
    pub fn remove(&mut self, id: u32) -> (r: bool)
        requires
            old(self).wf(),
        ensures
            final(self).wf(),
            final(self)@ == old(self)@.remove(id),
            r == old(self)@.contains(id),
    {
        broadcast use vstd::std_specs::hash::group_hash_axioms;

        self.ids.remove(&id)
    }

    /// The IDs in increasing order.
    pub fn to_vec(&self) -> (r: Vec<u32>)
        requires
            self.wf(),
        ensures
            strictly_increasing(r@),
            r@.to_set() == self@,
    {
        broadcast use vstd::std_specs::hash::group_hash_axioms;

        let ghost keys = vstd::std_specs::iter::IteratorSpec::remaining(&vstd::std_specs::hash::spec_hash_keys_iter(&self.ids)).unref();
        let mut out: Vec<u32> = Vec::new();
        assert(out@.to_set() =~= Set::<u32>::empty());
        for x in it: self.ids.iter()
            invariant
                strictly_increasing(out@),
                it.seq().unref() == keys,
                out@.to_set() == keys.take(it.index() as int).to_set(),
        {
            proof {
                let done = keys.take(it.index() as int);
                assert(keys.take(it.index() + 1) =~= done.push(*x));
                done.lemma_push_to_set_commute(*x);
            }
            insert_sorted(&mut out, *x);
        }
        assert(keys.take(keys.len() as int) =~= keys);
        out
    }
}

// =============================================================================
// Session state
// =============================================================================

/// The abstract state of a session.
pub struct SessionView {
    /// Our role in the connection.
    pub role: Role,
    /// The message ID the next outgoing message gets.
    pub next_msg_id: u64,
    /// The channel ID the next allocation returns.
    pub next_channel_id: u32,
    /// Channels with a call waiting for its response.
    pub pending: Set<u32>,
    /// Channels with a registered tunnel.
    pub tunnels: Set<u32>,
    /// Channels the peer opened.
    pub open_channels: Set<u32>,
}

/// The role that a session starting channel allocation at `start` takes: odd
/// starts initiate, even ones accept.
pub open spec fn role_for_start(start: u32) -> Role {
    if start % 2 == 1 {
        Role::Initiator
    } else {
        Role::Acceptor
    }
}

/// The channel ID `k` allocations after `start`: IDs step by two, wrapping
/// around at 2^32.
pub open spec fn nth_channel_id(start: u32, k: nat) -> u32 {
    ((start + 2 * k) % 0x1_0000_0000) as u32
}

/// The bookkeeping of an RPC session: its role, the message and channel ID
/// counters, and the channels with pending calls, tunnels or an open state.
#[derive(Debug)]
pub struct RpcSession {
    role: Role,
    next_msg_id: u64,
    next_channel_id: u32,
    pending: ChannelSet,
    tunnels: ChannelSet,
    open_channels: ChannelSet,
}

impl RpcSession {
    /// The session's abstract state.
    pub closed spec fn view(&self) -> SessionView {
        SessionView {
            role: self.role,
            next_msg_id: self.next_msg_id,
            next_channel_id: self.next_channel_id,
            pending: self.pending@,
            tunnels: self.tunnels@,
            open_channels: self.open_channels@,
        }
    }

    /// The registries are well formed, and the next channel ID has the
    /// parity of the role: odd for the initiator, even for the acceptor.
    pub closed spec fn wf(&self) -> bool {
        &&& self.pending.wf()
        &&& self.tunnels.wf()
        &&& self.open_channels.wf()
        &&& self.role == role_for_start(self.next_channel_id)
    }

    /// A session as the initiator: channel IDs 1, 3, 5, ...
    pub fn new() -> (r: Self)
        ensures
            r.wf(),
            r@.role == Role::Initiator,
            r@.next_channel_id == 1,
            r@.next_msg_id == 1,
            r@.pending.is_empty(),
            r@.tunnels.is_empty(),
            r@.open_channels.is_empty(),
    {
        Self::new_initiator()
    }

    /// A session as the initiator: channel IDs 1, 3, 5, ...
    pub fn new_initiator() -> (r: Self)
        ensures
            r.wf(),
            r@.role == Role::Initiator,
            r@.next_channel_id == 1,
            r@.next_msg_id == 1,
            r@.pending.is_empty(),
            r@.tunnels.is_empty(),
            r@.open_channels.is_empty(),
    {
        Self::with_role(Role::Initiator)
    }

    /// A session as the acceptor: channel IDs 2, 4, 6, ...
    pub fn new_acceptor() -> (r: Self)
        ensures
            r.wf(),
            r@.role == Role::Acceptor,
            r@.next_channel_id == 2,
            r@.next_msg_id == 1,
            r@.pending.is_empty(),
            r@.tunnels.is_empty(),
            r@.open_channels.is_empty(),
    {
        Self::with_role(Role::Acceptor)
    }

    /// A session with the given role; the initiator allocates odd channel IDs
    /// from 1, the acceptor even ones from 2.
    pub fn with_role(role: Role) -> (r: Self)
        ensures
            r.wf(),
            r@.role == role,
            r@.next_channel_id == (if role == Role::Initiator {
                1u32
            } else {
                2u32
            }),
            r@.next_msg_id == 1,
            r@.pending.is_empty(),
            r@.tunnels.is_empty(),
            r@.open_channels.is_empty(),
    {
        let start: u32 = match role {
            Role::Initiator => 1,
            Role::Acceptor => 2,
        };
        RpcSession {
            role,
            next_msg_id: 1,
            next_channel_id: start,
            pending: ChannelSet::new(),
            tunnels: ChannelSet::new(),
            open_channels: ChannelSet::new(),
        }
    }

    /// A session whose channel allocation starts at `start_channel_id`; the
    /// role follows its parity (odd: initiator, even: acceptor).
    pub fn with_channel_start(start_channel_id: u32) -> (r: Self)
        ensures
            r.wf(),
            r@.role == role_for_start(start_channel_id),
            r@.next_channel_id == start_channel_id,
            r@.next_msg_id == 1,
            r@.pending.is_empty(),
            r@.tunnels.is_empty(),
            r@.open_channels.is_empty(),
    {
        let role = if start_channel_id % 2 == 1 {
            Role::Initiator
        } else {
            Role::Acceptor
        };
        RpcSession {
            role,
            next_msg_id: 1,
            next_channel_id: start_channel_id,
            pending: ChannelSet::new(),
            tunnels: ChannelSet::new(),
            open_channels: ChannelSet::new(),
        }
    }

    /// Our role in the connection.
    pub fn role(&self) -> (r: Role)
        ensures
            r == self@.role,
    {
        self.role
    }

    /// Takes the next message ID; the counter steps by one, wrapping at 2^64.
    pub fn next_msg_id(&mut self) -> (r: u64)
        requires
            old(self).wf(),
        ensures
            final(self).wf(),
            r == old(self)@.next_msg_id,
            final(self)@ == (SessionView {
                next_msg_id: ((old(self)@.next_msg_id + 1) % 0x1_0000_0000_0000_0000) as u64,
                ..old(self)@
            }),
    {
        let r = self.next_msg_id;
        self.next_msg_id = self.next_msg_id.wrapping_add(1);
        r
    }

    /// Takes the next channel ID; the counter steps by two, wrapping at 2^32,
    /// so every ID this session allocates has its role's parity.
    pub fn next_channel_id(&mut self) -> (r: u32)
        requires
            old(self).wf(),
        ensures
            final(self).wf(),
            r == old(self)@.next_channel_id,
            (r % 2 == 1) == (old(self)@.role == Role::Initiator),
            final(self)@ == (SessionView {
                next_channel_id: nth_channel_id(old(self)@.next_channel_id, 1),
                ..old(self)@
            }),
    {
        let r = self.next_channel_id;
        self.next_channel_id = self.next_channel_id.wrapping_add(2);
        assert(self.next_channel_id % 2 == r % 2) by (nonlinear_arith)
            requires
                self.next_channel_id == (r + 2) % 0x1_0000_0000,
        ;
        r
    }

    /// The channels with a pending call, in increasing order.
    pub fn pending_channel_ids(&self) -> (r: Vec<u32>)
        requires
            self.wf(),
        ensures
            strictly_increasing(r@),
            r@.to_set() == self@.pending,
    {
        self.pending.to_vec()
    }

    /// The channels with a registered tunnel, in increasing order.
    pub fn tunnel_channel_ids(&self) -> (r: Vec<u32>)
        requires
            self.wf(),
        ensures
            strictly_increasing(r@),
            r@.to_set() == self@.tunnels,
    {
        self.tunnels.to_vec()
    }

    /// True when a call on `channel_id` waits for its response.
    pub fn has_pending(&self, channel_id: u32) -> (r: bool)
        requires
            self.wf(),
        ensures
            r == self@.pending.contains(channel_id),
    {
        self.pending.contains(channel_id)
    }

    /// True when a tunnel is registered on `channel_id`.
    pub fn has_tunnel(&self, channel_id: u32) -> (r: bool)
        requires
            self.wf(),
        ensures
            r == self@.tunnels.contains(channel_id),
    {
        self.tunnels.contains(channel_id)
    }

    /// True when the peer opened `channel_id`.
    pub fn is_open(&self, channel_id: u32) -> (r: bool)
        requires
            self.wf(),
        ensures
            r == self@.open_channels.contains(channel_id),
    {
        self.open_channels.contains(channel_id)
    }
}

/// The channel IDs of a session step by two from its start, keep the
/// start's parity, and do not repeat within 2^31 allocations.
pub proof fn lemma_channel_ids_distinct(start: u32, j: nat, k: nat)
    ensures
        nth_channel_id(nth_channel_id(start, j), 1) == nth_channel_id(start, j + 1),
        nth_channel_id(start, k) % 2 == start % 2,
        j < k < 0x8000_0000 ==> nth_channel_id(start, j) != nth_channel_id(start, k),
{
    let m: int = 0x1_0000_0000;
    let a: int = start + 2 * j;
    let b: int = start + 2 * k;
    assert(((a % m) + 2) % m == (a + 2) % m) by (nonlinear_arith)
        requires
            m == 0x1_0000_0000,
            a >= 0,
    ;
    assert((b % m) % 2 == b % 2) by (nonlinear_arith)
        requires
            m == 0x1_0000_0000,
            b >= 0,
    ;
    assert(b % 2 == start % 2) by (nonlinear_arith)
        requires
            b == start + 2 * k,
    ;
    if j < k && k < 0x8000_0000 {
        assert(a % m != b % m) by (nonlinear_arith)
            requires
                m == 0x1_0000_0000,
                a == start + 2 * j,
                b == start + 2 * k,
                j < k,
                k < 0x8000_0000,
                start >= 0,
        {
            if a % m == b % m {
                assert((b - a) % m == 0);
            }
        }
    }
}

/// The k-th channel ID: a session whose counter starts at `start` (1 for the
/// initiator, 2 for the acceptor, as `with_role` sets it) hands out, on its
/// k-th call of `next_channel_id` (from 0), `start + 2k` modulo 2^32; so an
/// initiator's IDs are all odd, an acceptor's all even, and none repeats
/// within 2^31 calls. `ids` are the IDs handed out, each call's counter being
/// the previous one stepped as `next_channel_id` steps it.
pub proof fn lemma_kth_channel_id(start: u32, ids: Seq<u32>)
    requires
        ids.len() > 0 ==> ids[0] == start,
        forall|i: int| 0 <= i < ids.len() - 1 ==> #[trigger] ids[i + 1] == nth_channel_id(ids[i], 1),
    ensures
        forall|k: int| 0 <= k < ids.len() ==> #[trigger] ids[k] == nth_channel_id(start, k as nat),
        forall|k: int| 0 <= k < ids.len() ==> #[trigger] ids[k] % 2 == start % 2,
        forall|j: int, k: int|
            0 <= j < k < ids.len() && k < 0x8000_0000 ==> #[trigger] ids[j] != #[trigger] ids[k],
    decreases ids.len(),
{
    if ids.len() > 0 {
        let prefix = ids.drop_last();
        assert forall|i: int| 0 <= i < prefix.len() - 1 implies #[trigger] prefix[i + 1]
            == nth_channel_id(prefix[i], 1) by {
            assert(prefix[i + 1] == ids[i + 1]);
            assert(prefix[i] == ids[i]);
        }
        lemma_kth_channel_id(start, prefix);
        let n = ids.len() - 1;
        if n > 0 {
            assert(ids[n - 1] == prefix[n - 1]);
            lemma_channel_ids_distinct(start, (n - 1) as nat, 0);
        } else {
            assert(nth_channel_id(start, 0) == start);
        }
        assert forall|k: int| 0 <= k < ids.len() implies #[trigger] ids[k] == nth_channel_id(
            start,
            k as nat,
        ) by {
            if k < n {
                assert(ids[k] == prefix[k]);
            }
        }
        assert forall|k: int| 0 <= k < ids.len() implies #[trigger] ids[k] % 2 == start % 2 by {
            lemma_channel_ids_distinct(start, 0, k as nat);
        }
        assert forall|j: int, k: int|
            0 <= j < k < ids.len() && k < 0x8000_0000 implies #[trigger] ids[j]
            != #[trigger] ids[k] by {
            lemma_channel_ids_distinct(start, j as nat, k as nat);
        }
    }
}

// =============================================================================
// Registries and routing
// =============================================================================

/// The pending-call limit when none is configured.
pub const DEFAULT_MAX_PENDING: usize = 8192;

/// The pending-call limit: a configured positive value, or the default.
pub fn max_pending_from(configured: Option<usize>) -> (r: usize)
    ensures
        r == (match configured {
            Some(v) if v > 0 => v,
            _ => DEFAULT_MAX_PENDING,
        }),
{
    match configured {
        Some(v) if v > 0 => v,
        _ => DEFAULT_MAX_PENDING,
    }
}

/// True when every bit of `flag` is set in `bits`.
pub open spec fn has_flag(bits: u32, flag: u32) -> bool {
    bits & flag == flag
}

/// Where an incoming frame goes.
#[derive(Clone, Copy, Debug, PartialEq, Eq, Structural)]
pub enum FrameRoute {
    /// To the tunnel registered on its channel; `closes` when it carries EOS,
    /// which ends the tunnel's registration.
    Tunnel { closes: bool },
    /// To the call waiting on its channel, which stops waiting.
    Waiter,
    /// A response that no call waits for: dropped.
    Unroutable,
    /// A control frame (channel 0), handled by the session.
    Control,
    /// Not a data frame: ignored.
    Skip,
    /// Data on a channel that was never opened: answered with a
    /// `CancelChannel` for protocol violation.
    RejectUnopened,
    /// A request for the dispatcher; `no_reply` when no response is sent.
    Dispatch { no_reply: bool },
}

/// The route of a frame on `channel_id` with flag bits `bits`: a tunnel on the
/// channel takes everything; a response goes to its waiter if there is one;
/// channel 0 is control; then non-data frames are skipped, data on unopened
/// channels is rejected, and the rest is dispatched.
pub open spec fn frame_route(v: SessionView, channel_id: u32, bits: u32) -> FrameRoute {
    if v.tunnels.contains(channel_id) {
        FrameRoute::Tunnel { closes: has_flag(bits, EOS_BIT) }
    } else if has_flag(bits, RESPONSE_BIT) {
        if v.pending.contains(channel_id) {
            FrameRoute::Waiter
        } else {
            FrameRoute::Unroutable
        }
    } else if channel_id == 0 {
        FrameRoute::Control
    } else if !has_flag(bits, DATA_BIT) {
        FrameRoute::Skip
    } else if !v.open_channels.contains(channel_id) {
        FrameRoute::RejectUnopened
    } else {
        FrameRoute::Dispatch { no_reply: has_flag(bits, NO_REPLY_BIT) }
    }
}

/// The session after routing such a frame: an EOS ends the tunnel it reaches,
/// and a delivered response ends the wait.
pub open spec fn after_route(v: SessionView, channel_id: u32, bits: u32) -> SessionView {
    match frame_route(v, channel_id, bits) {
        FrameRoute::Tunnel { closes } => if closes {
            SessionView { tunnels: v.tunnels.remove(channel_id), ..v }
        } else {
            v
        },
        FrameRoute::Waiter => SessionView { pending: v.pending.remove(channel_id), ..v },
        _ => v,
    }
}

/// A response reaches the call waiting on its channel once: the same
/// response arriving again (with no tunnel on the channel) is unroutable.
pub proof fn lemma_response_delivered_once(v: SessionView, channel_id: u32, bits: u32)
    requires
        frame_route(v, channel_id, bits) == FrameRoute::Waiter,
    ensures
        frame_route(after_route(v, channel_id, bits), channel_id, bits) == FrameRoute::Unroutable,
{
}

/// After a tunnel receives EOS, later frames on its channel no longer reach
/// a tunnel.
pub proof fn lemma_eos_ends_tunnel(v: SessionView, channel_id: u32, bits: u32, later: u32)
    requires
        frame_route(v, channel_id, bits) == (FrameRoute::Tunnel { closes: true }),
    ensures
        !(frame_route(after_route(v, channel_id, bits), channel_id, later) is Tunnel),
{
}

/// Where `route_frame` sends a frame on `channel_id` with flag bits `bits`,
/// for a session whose state is `v` and the route `r` it returned:
/// - a registered tunnel takes every frame of its channel, and is closed by
///   exactly the frames that carry EOS;
/// - otherwise a response goes to the call waiting on its channel, and is
///   unroutable when no call waits;
/// - otherwise channel 0 is control;
/// - otherwise a frame without the DATA flag is skipped, whether or not its
///   channel was opened;
/// - otherwise data on a channel the peer never opened is rejected, and data
///   on an opened channel is dispatched, without a reply exactly when it
///   carries NO_REPLY.
pub proof fn lemma_route_frame_destinations(v: SessionView, channel_id: u32, bits: u32, r: FrameRoute)
    requires
        r == frame_route(v, channel_id, bits),
    ensures
        (r is Tunnel) <==> v.tunnels.contains(channel_id),
        r is Tunnel ==> (r->closes <==> bits & EOS_BIT == EOS_BIT),
        (r is Waiter) <==> (!v.tunnels.contains(channel_id) && bits & RESPONSE_BIT == RESPONSE_BIT
            && v.pending.contains(channel_id)),
        (r is Unroutable) <==> (!v.tunnels.contains(channel_id) && bits & RESPONSE_BIT == RESPONSE_BIT
            && !v.pending.contains(channel_id)),
        (r is Control) <==> (!v.tunnels.contains(channel_id) && bits & RESPONSE_BIT != RESPONSE_BIT
            && channel_id == 0),
        (r is Skip) <==> (!v.tunnels.contains(channel_id) && bits & RESPONSE_BIT != RESPONSE_BIT
            && channel_id != 0 && bits & DATA_BIT != DATA_BIT),
        (r is RejectUnopened) <==> (!v.tunnels.contains(channel_id) && bits & RESPONSE_BIT
            != RESPONSE_BIT && channel_id != 0 && bits & DATA_BIT == DATA_BIT
            && !v.open_channels.contains(channel_id)),
        (r is Dispatch) <==> (!v.tunnels.contains(channel_id) && bits & RESPONSE_BIT != RESPONSE_BIT
            && channel_id != 0 && bits & DATA_BIT == DATA_BIT && v.open_channels.contains(channel_id)),
        r is Dispatch ==> (r->no_reply <==> bits & NO_REPLY_BIT == NO_REPLY_BIT),
{
}

/// Opening a channel changes the route of no frame but a data frame on that
/// channel: a frame without the DATA flag is routed the same whether or not
/// its channel is open, and so is every frame on another channel.
pub proof fn lemma_route_frame_open_matters_only_for_data(
    v: SessionView,
    opened: u32,
    channel_id: u32,
    bits: u32,
)
    requires
        bits & DATA_BIT != DATA_BIT || channel_id != opened,
    ensures
        frame_route((SessionView { open_channels: v.open_channels.insert(opened), ..v }), channel_id, bits)
            == frame_route(v, channel_id, bits),
{
}

/// What routing a frame does to the session's registries: only a frame
/// carrying EOS into a tunnel ends that tunnel, only a response delivered to
/// its waiting call ends that wait, and nothing else changes, whichever the
/// route.
pub proof fn lemma_route_frame_registry_changes(v: SessionView, channel_id: u32, bits: u32, after: SessionView)
    requires
        after == after_route(v, channel_id, bits),
    ensures
        after.role == v.role,
        after.next_msg_id == v.next_msg_id,
        after.next_channel_id == v.next_channel_id,
        after.open_channels == v.open_channels,
        after.tunnels == (if v.tunnels.contains(channel_id) && bits & EOS_BIT == EOS_BIT {
            v.tunnels.remove(channel_id)
        } else {
            v.tunnels
        }),
        after.pending == (if !v.tunnels.contains(channel_id) && bits & RESPONSE_BIT == RESPONSE_BIT {
            v.pending.remove(channel_id)
        } else {
            v.pending
        }),
{
    if !v.tunnels.contains(channel_id) && bits & RESPONSE_BIT == RESPONSE_BIT && !v.pending.contains(channel_id) {
        assert(v.pending.remove(channel_id) =~= v.pending);
    }
}

/// What the session does with a control frame, by its verb.
#[derive(Clone, Copy, Debug, PartialEq, Eq, Structural)]
pub enum ControlAction {
    /// Answer a `Ping` with a `Pong` that echoes its payload.
    ReplyPong,
    /// Record the channel that an `OpenChannel` opens.
    OpenChannel,
    /// Acknowledge and ignore (Pong, CancelChannel, the other known verbs and
    /// unknown extension verbs).
    Ignore,
}

impl RpcSession {
    /// Registers a call waiting on `channel_id`, unless `max_pending` calls
    /// already wait.
    pub fn register_pending(&mut self, channel_id: u32, max_pending: usize) -> (r: Result<
        (),
        RpcError,
    >)
        requires
            old(self).wf(),
        ensures
            final(self).wf(),
            old(self)@.pending.finite(),
            old(self)@.pending.len() >= max_pending ==> {
                &&& r matches Err(RpcError::Status { code, message })
                &&& code == ErrorCode::ResourceExhausted
                &&& message@ == "too many pending RPC calls"@
                &&& final(self)@ == old(self)@
            },
            old(self)@.pending.len() < max_pending ==> r is Ok && final(self)@ == (SessionView {
                pending: old(self)@.pending.insert(channel_id),
                ..old(self)@
            }),
    {
        if self.pending.len() >= max_pending {
            return Err(
                RpcError::Status {
                    code: ErrorCode::ResourceExhausted,
                    message: String::from_str("too many pending RPC calls"),
                },
            );
        }
        self.pending.insert(channel_id);
        Ok(())
    }

    /// Stops waiting on `channel_id` (a call that was cancelled or dropped);
    /// returns whether a call was waiting.
    pub fn remove_pending(&mut self, channel_id: u32) -> (r: bool)
        requires
            old(self).wf(),
        ensures
            final(self).wf(),
            r == old(self)@.pending.contains(channel_id),
            final(self)@ == (SessionView {
                pending: old(self)@.pending.remove(channel_id),
                ..old(self)@
            }),
    {
        self.pending.remove(channel_id)
    }

    /// Registers a tunnel on `channel_id`, which must have none.
    pub fn register_tunnel(&mut self, channel_id: u32)
        requires
            old(self).wf(),
            !old(self)@.tunnels.contains(channel_id),
        ensures
            final(self).wf(),
            final(self)@ == (SessionView {
                tunnels: old(self)@.tunnels.insert(channel_id),
                ..old(self)@
            }),
    {
        self.tunnels.insert(channel_id);
    }

    /// Removes the tunnel on `channel_id`, if any.
    pub fn unregister_tunnel(&mut self, channel_id: u32)
        requires
            old(self).wf(),
        ensures
            final(self).wf(),
            final(self)@ == (SessionView {
                tunnels: old(self)@.tunnels.remove(channel_id),
                ..old(self)@
            }),
    {
        self.tunnels.remove(channel_id);
    }

    /// Routes an incoming frame with descriptor `desc`, updating the
    /// registries as the route requires.
    pub fn route_frame(&mut self, desc: &MsgDescHot) -> (r: FrameRoute)
        requires
            old(self).wf(),
        ensures
            final(self).wf(),
            r == frame_route(old(self)@, desc.channel_id, desc.flags.spec_bits()),
            final(self)@ == after_route(old(self)@, desc.channel_id, desc.flags.spec_bits()),
    {
        let channel_id = desc.channel_id;
        let flags = desc.flags;
        if self.tunnels.contains(channel_id) {
            let closes = flags.contains(FrameFlags::eos());
            if closes {
                self.tunnels.remove(channel_id);
            }
            return FrameRoute::Tunnel { closes };
        }
        if flags.contains(FrameFlags::response()) {
            if self.pending.remove(channel_id) {
                return FrameRoute::Waiter;
            } else {
                proof {
                    assert(self.pending@ =~= old(self).pending@);
                }
                return FrameRoute::Unroutable;
            }
        }
        if channel_id == 0 {
            return FrameRoute::Control;
        }
        if !flags.contains(FrameFlags::data()) {
            return FrameRoute::Skip;
        }
        if !self.open_channels.contains(channel_id) {
            return FrameRoute::RejectUnopened;
        }
        FrameRoute::Dispatch { no_reply: flags.contains(FrameFlags::no_reply()) }
    }

    /// Records that the peer opened `channel_id`. Channel 0 is reserved: it is
    /// refused (the caller answers with a `CancelChannel` for protocol
    /// violation) and `false` is returned.
    pub fn open_channel(&mut self, channel_id: u32) -> (r: bool)
        requires
            old(self).wf(),
        ensures
            final(self).wf(),
            r == (channel_id != 0),
            final(self)@ == (if channel_id == 0 {
                old(self)@
            } else {
                SessionView {
                    open_channels: old(self)@.open_channels.insert(channel_id),
                    ..old(self)@
                }
            }),
    {
        if channel_id == 0 {
            return false;
        }
        self.open_channels.insert(channel_id);
        true
    }
}

/// The action for a control frame with verb `method_id`.
pub open spec fn control_action_of(method_id: u32) -> ControlAction {
    if method_id == crate::protocol::control_verb::PING {
        ControlAction::ReplyPong
    } else if method_id == crate::protocol::control_verb::OPEN_CHANNEL {
        ControlAction::OpenChannel
    } else {
        ControlAction::Ignore
    }
}

/// The action for a control frame with verb `method_id`.
pub fn control_action(method_id: u32) -> (r: ControlAction)
    ensures
        r == control_action_of(method_id),
{
    if method_id == crate::protocol::control_verb::PING {
        ControlAction::ReplyPong
    } else if method_id == crate::protocol::control_verb::OPEN_CHANNEL {
        ControlAction::OpenChannel
    } else {
        ControlAction::Ignore
    }
}

// =============================================================================
// Outgoing descriptors
// =============================================================================

/// `d` is a fresh descriptor with the given message ID, channel, method and
/// flag bits: inline, empty, no deadline.
pub open spec fn is_outgoing_desc(
    d: MsgDescHot,
    msg_id: u64,
    channel_id: u32,
    method_id: u32,
    bits: u32,
) -> bool {
    &&& d.msg_id == msg_id
    &&& d.channel_id == channel_id
    &&& d.method_id == method_id
    &&& d.flags.spec_bits() == bits
    &&& d.payload_slot == INLINE_PAYLOAD_SLOT
    &&& d.payload_generation == 0
    &&& d.payload_offset == 0
    &&& d.payload_len == 0
    &&& d.credit_grant == 0
    &&& d.deadline_ns == NO_DEADLINE
    &&& d.inline_payload@ == Seq::new(16, |i: int| 0u8)
}

/// The session after one message ID was taken.
pub open spec fn after_msg_id(v: SessionView) -> SessionView {
    SessionView { next_msg_id: ((v.next_msg_id + 1) % 0x1_0000_0000_0000_0000) as u64, ..v }
}

/// A fresh descriptor with the given fields.
fn fresh_desc(msg_id: u64, channel_id: u32, method_id: u32, flags: FrameFlags) -> (r: MsgDescHot)
    ensures
        is_outgoing_desc(r, msg_id, channel_id, method_id, flags.spec_bits()),
{
    let mut d = MsgDescHot::new();
    d.msg_id = msg_id;
    d.channel_id = channel_id;
    d.method_id = method_id;
    d.flags = flags;
    d
}

impl RpcSession {
    /// The descriptor of a unary request: the next message ID, `DATA | EOS`.
    pub fn call_desc(&mut self, channel_id: u32, method_id: u32) -> (r: MsgDescHot)
        requires
            old(self).wf(),
        ensures
            final(self).wf(),
            final(self)@ == after_msg_id(old(self)@),
            is_outgoing_desc(r, old(self)@.next_msg_id, channel_id, method_id, DATA_BIT | EOS_BIT),
    {
        let msg_id = self.next_msg_id();
        fresh_desc(msg_id, channel_id, method_id, FrameFlags::data().union(FrameFlags::eos()))
    }

    /// The descriptor of a notification: channel 0, `DATA | EOS | NO_REPLY`.
    pub fn notify_desc(&mut self, method_id: u32) -> (r: MsgDescHot)
        requires
            old(self).wf(),
        ensures
            final(self).wf(),
            final(self)@ == after_msg_id(old(self)@),
            is_outgoing_desc(
                r,
                old(self)@.next_msg_id,
                0,
                method_id,
                DATA_BIT | EOS_BIT | NO_REPLY_BIT,
            ),
    {
        let msg_id = self.next_msg_id();
        let flags = FrameFlags::data().union(FrameFlags::eos()).union(FrameFlags::no_reply());
        fresh_desc(msg_id, 0, method_id, flags)
    }

    /// Starts a server-streaming call: takes the next channel ID, registers
    /// a tunnel on it (before anything is sent, so that the response chunks
    /// are routed), and builds the request: the next message ID,
    /// `DATA | EOS | NO_REPLY` (no unary response comes), with the payload
    /// inline when it fits.
    pub fn start_streaming_call(&mut self, method_id: u32, payload: Vec<u8>) -> (r: (u32, Frame))
        requires
            old(self).wf(),
            !old(self)@.tunnels.contains(old(self)@.next_channel_id),
        ensures
            final(self).wf(),
            r.0 == old(self)@.next_channel_id,
            final(self)@ == (SessionView {
                next_channel_id: nth_channel_id(old(self)@.next_channel_id, 1),
                next_msg_id: after_msg_id(old(self)@).next_msg_id,
                tunnels: old(self)@.tunnels.insert(r.0),
                ..old(self)@
            }),
            r.1.desc.msg_id == old(self)@.next_msg_id,
            r.1.desc.channel_id == r.0,
            r.1.desc.method_id == method_id,
            r.1.desc.flags.spec_bits() == DATA_BIT | EOS_BIT | NO_REPLY_BIT,
            (r.1.payload is Inline) == (payload@.len() <= INLINE_PAYLOAD_SIZE),
            payload_fits(r.1.payload, r.1.desc),
            payload_bytes_of(r.1.payload, r.1.desc) == payload@,
    {
        let (channel_id, desc) = self.streaming_call_desc(method_id);
        (channel_id, Frame::for_payload(desc, payload))
    }

    /// The channel and request descriptor of a new streaming call, with its
    /// tunnel registered.
    fn streaming_call_desc(&mut self, method_id: u32) -> (r: (u32, MsgDescHot))
        requires
            old(self).wf(),
            !old(self)@.tunnels.contains(old(self)@.next_channel_id),
        ensures
            final(self).wf(),
            r.0 == old(self)@.next_channel_id,
            final(self)@ == (SessionView {
                next_channel_id: nth_channel_id(old(self)@.next_channel_id, 1),
                next_msg_id: after_msg_id(old(self)@).next_msg_id,
                tunnels: old(self)@.tunnels.insert(r.0),
                ..old(self)@
            }),
            is_outgoing_desc(
                r.1,
                old(self)@.next_msg_id,
                r.0,
                method_id,
                DATA_BIT | EOS_BIT | NO_REPLY_BIT,
            ),
    {
        let channel_id = self.next_channel_id();
        self.register_tunnel(channel_id);
        let msg_id = self.next_msg_id();
        let flags = FrameFlags::data().union(FrameFlags::eos()).union(FrameFlags::no_reply());
        (channel_id, fresh_desc(msg_id, channel_id, method_id, flags))
    }

    /// Starts a server-streaming call whose request payload is in a pooled
    /// buffer: the tunnel is registered as by `start_streaming_call`, and the
    /// request frame carries the payload inline when it fits, else in the
    /// buffer.
    pub fn start_streaming_call_pooled(&mut self, method_id: u32, payload: PooledBuf) -> (r: (
        u32,
        Frame,
    ))
        requires
            old(self).wf(),
            !old(self)@.tunnels.contains(old(self)@.next_channel_id),
        ensures
            final(self).wf(),
            r.0 == old(self)@.next_channel_id,
            final(self)@ == (SessionView {
                next_channel_id: nth_channel_id(old(self)@.next_channel_id, 1),
                next_msg_id: after_msg_id(old(self)@).next_msg_id,
                tunnels: old(self)@.tunnels.insert(r.0),
                ..old(self)@
            }),
            r.1.desc.msg_id == old(self)@.next_msg_id,
            r.1.desc.channel_id == r.0,
            r.1.desc.method_id == method_id,
            r.1.desc.flags.spec_bits() == DATA_BIT | EOS_BIT | NO_REPLY_BIT,
            (r.1.payload is Inline) == (payload@.len() <= INLINE_PAYLOAD_SIZE),
            payload_fits(r.1.payload, r.1.desc),
            payload_bytes_of(r.1.payload, r.1.desc) == payload@,
    {
        let (channel_id, desc) = self.streaming_call_desc(method_id);
        (channel_id, Frame::for_pooled_payload(desc, payload))
    }

    /// The descriptor of a tunnel chunk: method 0, `DATA`.
    pub fn chunk_desc(&mut self, channel_id: u32) -> (r: MsgDescHot)
        requires
            old(self).wf(),
        ensures
            final(self).wf(),
            final(self)@ == after_msg_id(old(self)@),
            is_outgoing_desc(r, old(self)@.next_msg_id, channel_id, 0, DATA_BIT),
    {
        let msg_id = self.next_msg_id();
        fresh_desc(msg_id, channel_id, 0, FrameFlags::data())
    }

    /// The descriptor that half-closes a tunnel: method 0, `DATA | EOS`, empty.
    pub fn close_tunnel_desc(&mut self, channel_id: u32) -> (r: MsgDescHot)
        requires
            old(self).wf(),
        ensures
            final(self).wf(),
            final(self)@ == after_msg_id(old(self)@),
            is_outgoing_desc(r, old(self)@.next_msg_id, channel_id, 0, DATA_BIT | EOS_BIT),
    {
        let msg_id = self.next_msg_id();
        fresh_desc(msg_id, channel_id, 0, FrameFlags::data().union(FrameFlags::eos()))
    }

    /// The notification to send: channel 0, `DATA | EOS | NO_REPLY`, so that
    /// no response comes, with the payload inline when it fits.
    pub fn notify(&mut self, method_id: u32, payload: Vec<u8>) -> (r: Frame)
        requires
            old(self).wf(),
        ensures
            final(self).wf(),
            final(self)@ == after_msg_id(old(self)@),
            r.desc.msg_id == old(self)@.next_msg_id,
            r.desc.channel_id == 0,
            r.desc.method_id == method_id,
            r.desc.flags.spec_bits() == DATA_BIT | EOS_BIT | NO_REPLY_BIT,
            (r.payload is Inline) == (payload@.len() <= INLINE_PAYLOAD_SIZE),
            payload_fits(r.payload, r.desc),
            payload_bytes_of(r.payload, r.desc) == payload@,
    {
        let desc = self.notify_desc(method_id);
        Frame::for_payload(desc, payload)
    }

    /// The tunnel chunk to send on `channel_id`: method 0, `DATA`, with the
    /// payload inline when it fits, else in its pooled buffer.
    pub fn send_chunk(&mut self, channel_id: u32, payload: PooledBuf) -> (r: Frame)
        requires
            old(self).wf(),
        ensures
            final(self).wf(),
            final(self)@ == after_msg_id(old(self)@),
            r.desc.msg_id == old(self)@.next_msg_id,
            r.desc.channel_id == channel_id,
            r.desc.method_id == 0,
            r.desc.flags.spec_bits() == DATA_BIT,
            (r.payload is Inline) == (payload@.len() <= INLINE_PAYLOAD_SIZE),
            payload_fits(r.payload, r.desc),
            payload_bytes_of(r.payload, r.desc) == payload@,
    {
        let desc = self.chunk_desc(channel_id);
        Frame::for_pooled_payload(desc, payload)
    }

    /// The frame that half-closes a tunnel: method 0, `DATA | EOS`, an empty
    /// inline payload. The tunnel stays registered: the peer may still send
    /// until its own EOS.
    pub fn close_tunnel(&mut self, channel_id: u32) -> (r: Frame)
        requires
            old(self).wf(),
        ensures
            final(self).wf(),
            final(self)@ == after_msg_id(old(self)@),
            r.desc.msg_id == old(self)@.next_msg_id,
            r.desc.channel_id == channel_id,
            r.desc.method_id == 0,
            r.desc.flags.spec_bits() == DATA_BIT | EOS_BIT,
            r.payload is Inline,
            payload_fits(r.payload, r.desc),
            payload_bytes_of(r.payload, r.desc) == Seq::<u8>::empty(),
    {
        let desc = self.close_tunnel_desc(channel_id);
        Frame::for_payload(desc, Vec::new())
    }

    /// The descriptor of a control message with verb `verb`: channel 0,
    /// `CONTROL`.
    pub fn control_desc(&mut self, verb: u32) -> (r: MsgDescHot)
        requires
            old(self).wf(),
        ensures
            final(self).wf(),
            final(self)@ == after_msg_id(old(self)@),
            is_outgoing_desc(r, old(self)@.next_msg_id, 0, verb, CONTROL_BIT),
    {
        let msg_id = self.next_msg_id();
        fresh_desc(msg_id, 0, verb, FrameFlags::control())
    }

    /// The Hello this session sends: protocol 1.0, its role, requiring
    /// attached streams and the call envelope, supporting those plus credit
    /// flow control and ping, default limits, no methods or parameters.
    pub fn hello(&self) -> (r: Hello)
        ensures
            r.protocol_version == PROTOCOL_VERSION_1_0,
            r.role == self@.role,
            r.required_features == features::ATTACHED_STREAMS | features::CALL_ENVELOPE,
            r.supported_features == features::ATTACHED_STREAMS | features::CALL_ENVELOPE
                | features::CREDIT_FLOW_CONTROL | features::RAPACE_PING,
            r.limits.max_payload_size == 1024 * 1024,
            r.limits.max_channels == 0,
            r.limits.max_pending_calls == 0,
            r.methods@.len() == 0,
            r.params@.len() == 0,
    {
        Hello {
            protocol_version: PROTOCOL_VERSION_1_0,
            role: self.role,
            required_features: features::ATTACHED_STREAMS | features::CALL_ENVELOPE,
            supported_features: features::ATTACHED_STREAMS | features::CALL_ENVELOPE
                | features::CREDIT_FLOW_CONTROL | features::RAPACE_PING,
            limits: Limits::default(),
            methods: Vec::new(),
            params: Vec::new(),
        }
    }
}

/// Why a call stopped waiting for its response.
#[derive(Clone, Copy, Debug, PartialEq, Eq, Structural)]
pub enum CallWaitEnd {
    /// The timeout passed.
    TimedOut,
    /// The response channel closed without a response.
    ChannelClosed,
}

impl RpcSession {
    /// Starts a unary call on `channel_id`: registers the waiter (unless
    /// `max_pending` calls already wait) and builds the request frame, with
    /// the payload inline when it fits.
    pub fn start_call(
        &mut self,
        channel_id: u32,
        method_id: u32,
        payload: Vec<u8>,
        max_pending: usize,
    ) -> (r: Result<Frame, RpcError>)
        requires
            old(self).wf(),
        ensures
            final(self).wf(),
            old(self)@.pending.finite(),
            old(self)@.pending.len() >= max_pending ==> {
                &&& r matches Err(RpcError::Status { code, message })
                &&& code == ErrorCode::ResourceExhausted
                &&& message@ == "too many pending RPC calls"@
                &&& final(self)@ == old(self)@
            },
            old(self)@.pending.len() < max_pending ==> {
                &&& r matches Ok(f) && {
                    &&& f.desc.msg_id == old(self)@.next_msg_id
                    &&& f.desc.channel_id == channel_id
                    &&& f.desc.method_id == method_id
                    &&& f.desc.flags.spec_bits() == DATA_BIT | EOS_BIT
                    &&& (f.payload is Inline) == (payload@.len() <= INLINE_PAYLOAD_SIZE)
                    &&& payload_fits(f.payload, f.desc)
                    &&& payload_bytes_of(f.payload, f.desc) == payload@
                }
                &&& final(self)@ == after_msg_id(
                    SessionView { pending: old(self)@.pending.insert(channel_id), ..old(self)@ },
                )
            },
    {
        match self.register_pending(channel_id, max_pending) {
            Err(e) => Err(e),
            Ok(()) => {
                let desc = self.call_desc(channel_id, method_id);
                Ok(Frame::for_payload(desc, payload))
            },
        }
    }

    /// Starts a unary call like `start_call`, with a payload in a pooled
    /// buffer: inline when it fits, else the buffer travels with the frame.
    pub fn start_call_pooled(
        &mut self,
        channel_id: u32,
        method_id: u32,
        payload: PooledBuf,
        max_pending: usize,
    ) -> (r: Result<Frame, RpcError>)
        requires
            old(self).wf(),
        ensures
            final(self).wf(),
            old(self)@.pending.finite(),
            old(self)@.pending.len() >= max_pending ==> {
                &&& r matches Err(RpcError::Status { code, message })
                &&& code == ErrorCode::ResourceExhausted
                &&& message@ == "too many pending RPC calls"@
                &&& final(self)@ == old(self)@
            },
            old(self)@.pending.len() < max_pending ==> {
                &&& r matches Ok(f) && {
                    &&& f.desc.msg_id == old(self)@.next_msg_id
                    &&& f.desc.channel_id == channel_id
                    &&& f.desc.method_id == method_id
                    &&& f.desc.flags.spec_bits() == DATA_BIT | EOS_BIT
                    &&& (f.payload is Inline) == (payload@.len() <= INLINE_PAYLOAD_SIZE)
                    &&& payload_fits(f.payload, f.desc)
                    &&& payload_bytes_of(f.payload, f.desc) == payload@
                }
                &&& final(self)@ == after_msg_id(
                    SessionView { pending: old(self)@.pending.insert(channel_id), ..old(self)@ },
                )
            },
    {
        match self.register_pending(channel_id, max_pending) {
            Err(e) => Err(e),
            Ok(()) => {
                let desc = self.call_desc(channel_id, method_id);
                Ok(Frame::for_pooled_payload(desc, payload))
            },
        }
    }

    /// Ends a pooled call that stopped waiting: its waiter is removed, and
    /// the error is a deadline for a timeout, a closed transport for a closed
    /// response channel.
    pub fn abandon_pooled_call(&mut self, channel_id: u32, why: CallWaitEnd) -> (r: RpcError)
        requires
            old(self).wf(),
        ensures
            final(self).wf(),
            final(self)@ == (SessionView {
                pending: old(self)@.pending.remove(channel_id),
                ..old(self)@
            }),
            why == CallWaitEnd::TimedOut ==> r is DeadlineExceeded,
            why == CallWaitEnd::ChannelClosed ==> r == RpcError::Transport(TransportError::Closed),
    {
        self.remove_pending(channel_id);
        match why {
            CallWaitEnd::TimedOut => RpcError::DeadlineExceeded,
            CallWaitEnd::ChannelClosed => RpcError::Transport(TransportError::Closed),
        }
    }

    /// Ends a call that stopped waiting: its waiter is removed, and the error
    /// is a deadline for a timeout, an internal error for a closed channel.
    pub fn abandon_call(&mut self, channel_id: u32, why: CallWaitEnd) -> (r: RpcError)
        requires
            old(self).wf(),
        ensures
            final(self).wf(),
            final(self)@ == (SessionView {
                pending: old(self)@.pending.remove(channel_id),
                ..old(self)@
            }),
            why == CallWaitEnd::TimedOut ==> r is DeadlineExceeded,
            why == CallWaitEnd::ChannelClosed ==> (r matches RpcError::Status { code, message }
                && code == ErrorCode::Internal && message@ == "response channel closed"@),
    {
        self.remove_pending(channel_id);
        match why {
            CallWaitEnd::TimedOut => RpcError::DeadlineExceeded,
            CallWaitEnd::ChannelClosed => RpcError::Status {
                code: ErrorCode::Internal,
                message: String::from_str("response channel closed"),
            },
        }
    }
}

/// The descriptor of the error response on `channel_id`: message ID 0,
/// method 0, `ERROR | EOS`.
pub fn error_response_desc(channel_id: u32) -> (r: MsgDescHot)
    ensures
        is_outgoing_desc(r, 0, channel_id, 0, ERROR_BIT | EOS_BIT),
{
    fresh_desc(0, channel_id, 0, FrameFlags::error().union(FrameFlags::eos()))
}

// =============================================================================
// Handshake checks
// =============================================================================

/// The role a peer of `role` must have.
pub open spec fn peer_role(role: Role) -> Role {
    match role {
        Role::Initiator => Role::Acceptor,
        Role::Acceptor => Role::Initiator,
    }
}

/// A role's name.
pub open spec fn role_text(role: Role) -> Seq<char> {
    match role {
        Role::Initiator => "Initiator"@,
        Role::Acceptor => "Acceptor"@,
    }
}

/// The features this side requires of its peer.
pub const REQUIRED_FEATURES: u64 = 0x3;

/// Why the first frame of a connection is not a Hello, if it is not: it must
/// be on channel 0, carry `CONTROL` and have the Hello verb.
pub open spec fn hello_frame_problem(d: MsgDescHot) -> Option<Seq<char>> {
    if d.channel_id != 0 {
        Some(
            "[verify handshake.ordering]: first frame must be on channel 0, got "@ + decimal_text(
                d.channel_id as nat,
            ),
        )
    } else if !has_flag(d.flags.spec_bits(), CONTROL_BIT) {
        Some("[verify core.control.flag-set]: Hello must have CONTROL flag set"@)
    } else if d.method_id != control_verb::HELLO {
        Some(
            "[verify handshake.ordering]: first frame must be Hello (method_id=0), got "@
                + decimal_text(d.method_id as nat),
        )
    } else {
        None
    }
}

/// Why a peer's Hello is refused by a session of `role`, if it is: the role
/// must be the complement, the major version 1, and the required features
/// supported.
pub open spec fn peer_hello_problem(role: Role, h: Hello) -> Option<Seq<char>> {
    if h.role != peer_role(role) {
        Some(
            "[verify handshake.role.validation]: expected peer role "@ + role_text(
                peer_role(role),
            ) + ", got "@ + role_text(h.role),
        )
    } else if h.protocol_version >> 16 != 1 {
        Some(
            "[verify handshake.version.major]: expected major version 1, got "@ + decimal_text(
                (h.protocol_version >> 16) as nat,
            ),
        )
    } else if h.supported_features & REQUIRED_FEATURES != REQUIRED_FEATURES {
        Some(
            "[verify handshake.features.required]: peer doesn't support required features (need "@
                + hex_text(REQUIRED_FEATURES as nat) + ", got "@ + hex_text(
                h.supported_features as nat,
            ) + ")"@,
        )
    } else {
        None
    }
}

/// The handshake error for `problem`: an invalid-argument status with it as
/// the message, or success when there is none.
pub open spec fn handshake_outcome(problem: Option<Seq<char>>, r: Result<(), RpcError>) -> bool {
    match problem {
        None => r is Ok,
        Some(text) => r matches Err(RpcError::Status { code, message }) && code
            == ErrorCode::InvalidArgument && message@ == text,
    }
}

fn role_str(role: Role) -> (r: &'static str)
    ensures
        r@ == role_text(role),
{
    match role {
        Role::Initiator => "Initiator",
        Role::Acceptor => "Acceptor",
    }
}

fn invalid_argument(message: String) -> (r: RpcError)
    ensures
        r matches RpcError::Status { code, message: m } && code == ErrorCode::InvalidArgument
            && m@ == message@,
{
    RpcError::Status { code: ErrorCode::InvalidArgument, message }
}

/// Checks that the first frame received is a Hello.
pub fn check_hello_frame(desc: &MsgDescHot) -> (r: Result<(), RpcError>)
    ensures
        handshake_outcome(hello_frame_problem(*desc), r),
{
    if desc.channel_id != 0 {
        let mut s = String::from_str(
            "[verify handshake.ordering]: first frame must be on channel 0, got ",
        );
        push_decimal(&mut s, desc.channel_id as u64);
        return Err(invalid_argument(s));
    }
    if !desc.flags.contains(FrameFlags::control()) {
        return Err(
            invalid_argument(
                String::from_str("[verify core.control.flag-set]: Hello must have CONTROL flag set"),
            ),
        );
    }
    if desc.method_id != control_verb::HELLO {
        let mut s = String::from_str(
            "[verify handshake.ordering]: first frame must be Hello (method_id=0), got ",
        );
        push_decimal(&mut s, desc.method_id as u64);
        return Err(invalid_argument(s));
    }
    Ok(())
}

impl RpcSession {
    /// The role the peer must have.
    pub fn expected_peer_role(&self) -> (r: Role)
        ensures
            r == peer_role(self@.role),
    {
        match self.role {
            Role::Initiator => Role::Acceptor,
            Role::Acceptor => Role::Initiator,
        }
    }

    /// Checks the peer's Hello: complementary role, major version 1, and
    /// support for the features this side requires.
    pub fn check_peer_hello(&self, hello: &Hello) -> (r: Result<(), RpcError>)
        ensures
            handshake_outcome(peer_hello_problem(self@.role, *hello), r),
    {
        let expected = self.expected_peer_role();
        if hello.role != expected {
            let mut s = String::from_str("[verify handshake.role.validation]: expected peer role ");
            s.append(role_str(expected));
            s.append(", got ");
            s.append(role_str(hello.role));
            return Err(invalid_argument(s));
        }
        let major = hello.protocol_version >> 16;
        if major != 1 {
            let mut s = String::from_str(
                "[verify handshake.version.major]: expected major version 1, got ",
            );
            push_decimal(&mut s, major as u64);
            return Err(invalid_argument(s));
        }
        if hello.supported_features & REQUIRED_FEATURES != REQUIRED_FEATURES {
            let mut s = String::from_str(
                "[verify handshake.features.required]: peer doesn't support required features (need ",
            );
            push_hex(&mut s, REQUIRED_FEATURES);
            s.append(", got ");
            push_hex(&mut s, hello.supported_features);
            s.append(")");
            return Err(invalid_argument(s));
        }
        Ok(())
    }
}

/// What `check_peer_hello` answers, for a session of role `role`, the peer's
/// Hello `h` and the result `r`: the Hello is accepted exactly when the peer
/// has the other role (an initiator wants an acceptor, an acceptor an
/// initiator), major version 1, and every feature this side requires; a
/// refusal is an invalid-argument status, and a peer of the same role is
/// refused for its role, naming the role expected and the role got.
pub proof fn lemma_peer_hello_accepted_iff(role: Role, h: Hello, r: Result<(), RpcError>)
    requires
        handshake_outcome(peer_hello_problem(role, h), r),
    ensures
        (r is Ok) <==> (h.role != role && h.protocol_version >> 16 == 1 && h.supported_features
            & REQUIRED_FEATURES == REQUIRED_FEATURES),
        r is Err ==> (r matches Err(RpcError::Status { code, .. }) && code == ErrorCode::InvalidArgument),
        h.role == role ==> (r matches Err(RpcError::Status { message, .. }) && message@
            == "[verify handshake.role.validation]: expected peer role "@ + role_text(
            if role == Role::Initiator {
                Role::Acceptor
            } else {
                Role::Initiator
            },
        ) + ", got "@ + role_text(role)),
{
}

/// What `check_hello_frame` answers for the first frame `d` of a connection
/// and its result `r`: it is accepted exactly when it is on channel 0,
/// carries the CONTROL flag and has the Hello verb; a refusal is an
/// invalid-argument status.
pub proof fn lemma_hello_frame_accepted_iff(d: MsgDescHot, r: Result<(), RpcError>)
    requires
        handshake_outcome(hello_frame_problem(d), r),
    ensures
        (r is Ok) <==> (d.channel_id == 0 && d.flags.spec_bits() & CONTROL_BIT == CONTROL_BIT
            && d.method_id == control_verb::HELLO),
        r is Err ==> (r matches Err(RpcError::Status { code, .. }) && code == ErrorCode::InvalidArgument),
{
}

/// Two fresh sessions of complementary roles accept each other's Hello.
pub proof fn lemma_complementary_hellos_accepted(a: Role, h: Hello)
    requires
        h.role == peer_role(a),
        h.protocol_version == PROTOCOL_VERSION_1_0,
        h.supported_features == features::ATTACHED_STREAMS | features::CALL_ENVELOPE
            | features::CREDIT_FLOW_CONTROL | features::RAPACE_PING,
    ensures
        peer_hello_problem(a, h) is None,
{
    assert(PROTOCOL_VERSION_1_0 >> 16 == 1) by (bit_vector);
    assert((0x1u64 | 0x2u64 | 0x4u64 | 0x8u64) & 0x3u64 == 0x3u64) by (bit_vector);
}

} // verus!
