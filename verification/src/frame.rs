//! Frames: a descriptor and its payload, which lies either inline in the
//! descriptor or in a buffer of its own.

use vstd::prelude::*;
use vstd::slice::slice_subrange;

use crate::descriptor::{MsgDescHot, INLINE_PAYLOAD_SIZE, INLINE_PAYLOAD_SLOT};
use crate::buffer_pool::PooledBuf;
use crate::flags::{FrameFlags, EOS_BIT, ERROR_BIT};

verus! {

/// Where a frame's payload bytes are.
pub enum Payload {
    /// In the descriptor's inline area (at most 16 bytes).
    Inline,
    /// In a buffer owned by the frame.
    Owned(Vec<u8>),
    /// In a shared, cheaply cloned buffer, held as its bytes.
    Bytes(Vec<u8>),
    /// In a buffer taken from a buffer pool.
    Pooled(PooledBuf),
}

/// The bytes of a payload buffer, or `None` for an inline payload.
pub open spec fn external_bytes(p: Payload) -> Option<Seq<u8>> {
    match p {
        Payload::Inline => None,
        Payload::Owned(v) => Some(v@),
        Payload::Bytes(v) => Some(v@),
        Payload::Pooled(b) => Some(b@),
    }
}

/// The payload bytes of `p` for descriptor `d`: the first `payload_len`
/// bytes of the inline area, or the buffer's bytes.
pub open spec fn payload_bytes_of(p: Payload, d: MsgDescHot) -> Seq<u8> {
    match external_bytes(p) {
        Some(b) => b,
        None => d.inline_payload@.take(d.payload_len as int),
    }
}

/// An inline payload's length fits the inline area.
pub open spec fn payload_fits(p: Payload, d: MsgDescHot) -> bool {
    p is Inline ==> d.payload_len <= INLINE_PAYLOAD_SIZE
}

impl Payload {
    /// The payload bytes, for the frame's descriptor `desc`.
    pub fn as_slice<'a>(&'a self, desc: &'a MsgDescHot) -> (r: &'a [u8])
        requires
            payload_fits(*self, *desc),
        ensures
            r@ == payload_bytes_of(*self, *desc),
    {
        match self {
            Payload::Inline => {
                let r = slice_subrange(desc.inline_payload.as_slice(), 0, desc.payload_len as usize);
                assert(r@ =~= desc.inline_payload@.take(desc.payload_len as int));
                r
            },
            Payload::Owned(buf) => buf.as_slice(),
            Payload::Bytes(buf) => buf.as_slice(),
            Payload::Pooled(buf) => buf.as_slice(),
        }
    }

    /// The payload bytes when they are in a buffer; `None` when inline.
    pub fn external_slice(&self) -> (r: Option<&[u8]>)
        ensures
            match r {
                Some(s) => external_bytes(*self) == Some(s@),
                None => external_bytes(*self) is None,
            },
    {
        match self {
            Payload::Inline => None,
            Payload::Owned(buf) => Some(buf.as_slice()),
            Payload::Bytes(buf) => Some(buf.as_slice()),
            Payload::Pooled(buf) => Some(buf.as_slice()),
        }
    }

    /// The payload length: the buffer's, or the descriptor's for an inline
    /// payload.
    pub fn len(&self, desc: &MsgDescHot) -> (r: usize)
        ensures
            r == match external_bytes(*self) {
                Some(b) => b.len(),
                None => desc.payload_len as nat,
            },
    {
        match self.external_slice() {
            Some(ext) => ext.len(),
            None => desc.payload_len as usize,
        }
    }

    /// True when the payload is inline.
    pub fn is_inline(&self) -> (r: bool)
        ensures
            r == (*self is Inline),
    {
        match self {
            Payload::Inline => true,
            _ => false,
        }
    }
}

/// A descriptor with its payload.
pub struct Frame {
    /// The descriptor.
    pub desc: MsgDescHot,
    /// Where the payload is.
    pub payload: Payload,
}

/// A length as a descriptor records it: truncated to 32 bits.
pub open spec fn len32(n: nat) -> u32 {
    (n % 0x1_0000_0000) as u32
}

/// The length `n` truncated to 32 bits.
fn truncated_len(n: usize) -> (r: u32)
    ensures
        r == len32(n as nat),
{
    ((n as u64) % 0x1_0000_0000u64) as u32
}

/// `b` is `a` with its payload located at `slot`, with generation and offset
/// 0 and length `len`; every other field is kept.
pub open spec fn relocated(a: MsgDescHot, b: MsgDescHot, slot: u32, len: u32) -> bool {
    &&& b.msg_id == a.msg_id
    &&& b.channel_id == a.channel_id
    &&& b.method_id == a.method_id
    &&& b.flags == a.flags
    &&& b.credit_grant == a.credit_grant
    &&& b.deadline_ns == a.deadline_ns
    &&& b.payload_slot == slot
    &&& b.payload_generation == 0
    &&& b.payload_offset == 0
    &&& b.payload_len == len
}

impl Frame {
    /// A frame with an empty inline payload.
    pub fn new(desc: MsgDescHot) -> (r: Self)
        ensures
            r.desc == desc,
            r.payload is Inline,
    {
        Frame { desc, payload: Payload::Inline }
    }

    /// A frame with `payload` inline, or `None` when it is longer than 16
    /// bytes.
    pub fn with_inline_payload(desc: MsgDescHot, payload: &[u8]) -> (r: Option<Self>)
        ensures
            payload@.len() > INLINE_PAYLOAD_SIZE ==> r is None,
            payload@.len() <= INLINE_PAYLOAD_SIZE ==> (r matches Some(f) && {
                &&& f.payload is Inline
                &&& relocated(desc, f.desc, INLINE_PAYLOAD_SLOT, payload@.len() as u32)
                &&& f.desc.inline_payload@ == payload@ + desc.inline_payload@.skip(
                    payload@.len() as int,
                )
                &&& payload_fits(f.payload, f.desc)
                &&& payload_bytes_of(f.payload, f.desc) == payload@
            }),
    {
        if payload.len() > INLINE_PAYLOAD_SIZE {
            return None;
        }
        let mut desc = desc;
        let ghost before = desc;
        desc.payload_slot = INLINE_PAYLOAD_SLOT;
        desc.payload_generation = 0;
        desc.payload_offset = 0;
        desc.payload_len = payload.len() as u32;
        let mut i: usize = 0;
        while i < payload.len()
            invariant
                i <= payload@.len() <= 16,
                desc.inline_payload@.len() == 16,
                relocated(before, desc, INLINE_PAYLOAD_SLOT, payload@.len() as u32),
                before.inline_payload@.len() == 16,
                forall|k: int| 0 <= k < i ==> desc.inline_payload@[k] == payload@[k],
                forall|k: int| i <= k < 16 ==> desc.inline_payload@[k] == before.inline_payload@[k],
            decreases payload@.len() - i,
        {
            desc.inline_payload.set(i, payload[i]);
            i = i + 1;
        }
        assert(desc.inline_payload@.take(payload@.len() as int) =~= payload@);
        assert(desc.inline_payload@ =~= payload@ + before.inline_payload@.skip(
            payload@.len() as int,
        ));
        Some(Frame { desc, payload: Payload::Inline })
    }

    /// A frame carrying `payload`: inline when it is at most 16 bytes, in the
    /// owned buffer otherwise.
    pub fn for_payload(desc: MsgDescHot, payload: Vec<u8>) -> (r: Self)
        ensures
            (r.payload is Inline) == (payload@.len() <= INLINE_PAYLOAD_SIZE),
            relocated(
                desc,
                r.desc,
                if payload@.len() <= INLINE_PAYLOAD_SIZE {
                    INLINE_PAYLOAD_SLOT
                } else {
                    0
                },
                len32(payload@.len()),
            ),
            payload_fits(r.payload, r.desc),
            payload_bytes_of(r.payload, r.desc) == payload@,
    {
        if payload.len() <= INLINE_PAYLOAD_SIZE {
            match Self::with_inline_payload(desc, payload.as_slice()) {
                Some(f) => f,
                None => Self::with_payload(desc, payload),
            }
        } else {
            Self::with_payload(desc, payload)
        }
    }

    /// A frame carrying the pooled buffer `payload`: inline when it is at most
    /// 16 bytes (the buffer then goes back to its pool), in the buffer
    /// otherwise.
    pub fn for_pooled_payload(desc: MsgDescHot, payload: PooledBuf) -> (r: Self)
        ensures
            (r.payload is Inline) == (payload@.len() <= INLINE_PAYLOAD_SIZE),
            relocated(
                desc,
                r.desc,
                if payload@.len() <= INLINE_PAYLOAD_SIZE {
                    INLINE_PAYLOAD_SLOT
                } else {
                    0
                },
                len32(payload@.len()),
            ),
            payload_fits(r.payload, r.desc),
            payload_bytes_of(r.payload, r.desc) == payload@,
    {
        if payload.len() <= INLINE_PAYLOAD_SIZE {
            match Self::with_inline_payload(desc, payload.as_slice()) {
                Some(f) => f,
                None => Self::with_pooled_payload(desc, payload),
            }
        } else {
            Self::with_pooled_payload(desc, payload)
        }
    }

    /// A frame whose payload is the owned buffer `payload`.
    pub fn with_payload(desc: MsgDescHot, payload: Vec<u8>) -> (r: Self)
        ensures
            r.payload == Payload::Owned(payload),
            relocated(desc, r.desc, 0, len32(payload@.len())),
            payload_bytes_of(r.payload, r.desc) == payload@,
    {
        let mut desc = desc;
        desc.payload_slot = 0;
        desc.payload_generation = 0;
        desc.payload_offset = 0;
        desc.payload_len = truncated_len(payload.len());
        Frame { desc, payload: Payload::Owned(payload) }
    }

    /// A frame whose payload is the pooled buffer `payload`.
    pub fn with_pooled_payload(desc: MsgDescHot, payload: PooledBuf) -> (r: Self)
        ensures
            r.payload == Payload::Pooled(payload),
            relocated(desc, r.desc, 0, len32(payload@.len())),
            payload_bytes_of(r.payload, r.desc) == payload@,
    {
        let mut desc = desc;
        desc.payload_slot = 0;
        desc.payload_generation = 0;
        desc.payload_offset = 0;
        desc.payload_len = truncated_len(payload.len());
        Frame { desc, payload: Payload::Pooled(payload) }
    }

    /// The payload bytes.
    pub fn payload_bytes(&self) -> (r: &[u8])
        requires
            payload_fits(self.payload, self.desc),
        ensures
            r@ == payload_bytes_of(self.payload, self.desc),
    {
        self.payload.as_slice(&self.desc)
    }

    /// A frame with the same descriptor and an owned copy of the payload.
    pub fn to_owned(&self) -> (r: Self)
        requires
            payload_fits(self.payload, self.desc),
        ensures
            r.desc == self.desc,
            r.payload matches Payload::Owned(v) && v@ == payload_bytes_of(self.payload, self.desc),
    {
        let bytes = self.payload_bytes();
        let v = vstd::slice::slice_to_vec(bytes);
        Frame { desc: self.desc, payload: Payload::Owned(v) }
    }
}

/// A chunk received on a tunnel: the raw bytes of one frame.
pub struct TunnelChunk {
    /// The received frame.
    pub frame: Frame,
}

impl TunnelChunk {
    /// The chunk's payload bytes.
    pub fn payload_bytes(&self) -> (r: &[u8])
        requires
            payload_fits(self.frame.payload, self.frame.desc),
        ensures
            r@ == payload_bytes_of(self.frame.payload, self.frame.desc),
    {
        self.frame.payload_bytes()
    }

    /// True for the final chunk: the sender set EOS and sends no more data.
    pub fn is_eos(&self) -> (r: bool)
        ensures
            r == (self.frame.desc.flags.spec_bits() & EOS_BIT == EOS_BIT),
    {
        self.frame.desc.flags.contains(FrameFlags::eos())
    }

    /// True for a chunk that reports an error (ERROR set).
    pub fn is_error(&self) -> (r: bool)
        ensures
            r == (self.frame.desc.flags.spec_bits() & ERROR_BIT == ERROR_BIT),
    {
        self.frame.desc.flags.contains(FrameFlags::error())
    }
}

/// A frame that was received and routed.
pub struct ReceivedFrame {
    /// The frame.
    pub frame: Frame,
}

impl ReceivedFrame {
    /// The frame's channel.
    pub fn channel_id(&self) -> (r: u32)
        ensures
            r == self.frame.desc.channel_id,
    {
        self.frame.desc.channel_id
    }

    /// The frame's method.
    pub fn method_id(&self) -> (r: u32)
        ensures
            r == self.frame.desc.method_id,
    {
        self.frame.desc.method_id
    }

    /// The frame's flags.
    pub fn flags(&self) -> (r: FrameFlags)
        ensures
            r == self.frame.desc.flags,
    {
        self.frame.desc.flags
    }

    /// The frame's payload bytes.
    pub fn payload_bytes(&self) -> (r: &[u8])
        requires
            payload_fits(self.frame.payload, self.frame.desc),
        ensures
            r@ == payload_bytes_of(self.frame.payload, self.frame.desc),
    {
        self.frame.payload_bytes()
    }
}

} // verus!
