//! Frame flags and body encodings.

use vstd::prelude::*;

verus! {

/// Bit carried by frames holding payload data.
pub const DATA_BIT: u32 = 0x1;
/// Bit marking control frames (channel 0 only).
pub const CONTROL_BIT: u32 = 0x2;
/// Bit marking the end of a stream (half-close).
pub const EOS_BIT: u32 = 0x4;
/// Bit reserved for cancellation.
pub const CANCEL_BIT: u32 = 0x8;
/// Bit marking an error response.
pub const ERROR_BIT: u32 = 0x10;
/// Priority scheduling hint.
pub const HIGH_PRIORITY_BIT: u32 = 0x20;
/// The `credit_grant` field holds a valid grant.
pub const CREDITS_BIT: u32 = 0x40;
/// Headers/trailers only, no body.
pub const METADATA_ONLY_BIT: u32 = 0x80;
/// Fire-and-forget request: no reply frame is sent.
pub const NO_REPLY_BIT: u32 = 0x100;
/// The frame is a response, not a request.
pub const RESPONSE_BIT: u32 = 0x200;
/// Union of all defined flag bits.
pub const ALL_BITS: u32 = 0x3FF;

/// Flags carried in each frame descriptor: a set of bits over `u32`.
#[derive(Clone, Copy, Debug, PartialEq, Eq, Hash, Structural)]
pub struct FrameFlags {
    bits: u32,
}

impl FrameFlags {
    /// The raw bits of this flag set.
    pub closed spec fn spec_bits(self) -> u32 {
        self.bits
    }

    /// The empty flag set.
    pub fn empty() -> (r: Self)
        ensures
            r.spec_bits() == 0,
    {
        FrameFlags { bits: 0 }
    }

    /// A flag set holding exactly the given bits, defined or not.
    pub fn from_bits_retain(bits: u32) -> (r: Self)
        ensures
            r.spec_bits() == bits,
    {
        FrameFlags { bits }
    }

    /// A flag set holding the defined bits among `bits`; undefined bits are dropped.
    pub fn from_bits_truncate(bits: u32) -> (r: Self)
        ensures
            r.spec_bits() == bits & ALL_BITS,
    {
        FrameFlags { bits: bits & ALL_BITS }
    }

    /// The flag set for `bits` when every bit of it is defined, else `None`.
    pub fn from_bits(bits: u32) -> (r: Option<Self>)
        ensures
            r is Some <==> bits & !ALL_BITS == 0,
            r matches Some(f) ==> f.spec_bits() == bits,
    {
        if bits & !ALL_BITS == 0 {
            Some(FrameFlags { bits })
        } else {
            None
        }
    }

    /// The raw bits of this flag set.
    pub fn bits(&self) -> (r: u32)
        ensures
            r == self.spec_bits(),
    {
        self.bits
    }

    /// True when no bit is set.
    pub fn is_empty(&self) -> (r: bool)
        ensures
            r == (self.spec_bits() == 0),
    {
        self.bits == 0
    }

    /// True when every bit of `other` is set in `self`.
    pub fn contains(&self, other: FrameFlags) -> (r: bool)
        ensures
            r == (self.spec_bits() & other.spec_bits() == other.spec_bits()),
    {
        self.bits & other.bits == other.bits
    }

    /// True when `self` and `other` share at least one bit.
    pub fn intersects(&self, other: FrameFlags) -> (r: bool)
        ensures
            r == (self.spec_bits() & other.spec_bits() != 0),
    {
        self.bits & other.bits != 0
    }

    /// The union of two flag sets.
    pub fn union(self, other: FrameFlags) -> (r: FrameFlags)
        ensures
            r.spec_bits() == self.spec_bits() | other.spec_bits(),
    {
        FrameFlags { bits: self.bits | other.bits }
    }

    /// Set every bit of `other` in `self`.
    pub fn insert(&mut self, other: FrameFlags)
        ensures
            final(self).spec_bits() == old(self).spec_bits() | other.spec_bits(),
    {
        self.bits = self.bits | other.bits;
    }

    /// Clear every bit of `other` in `self`.
    pub fn remove(&mut self, other: FrameFlags)
        ensures
            final(self).spec_bits() == old(self).spec_bits() & !other.spec_bits(),
    {
        self.bits = self.bits & !other.bits;
    }

    /// The flag `DATA`.
    pub fn data() -> (r: Self)
        ensures
            r.spec_bits() == DATA_BIT,
    {
        FrameFlags { bits: DATA_BIT }
    }

    /// The flag `CONTROL`.
    pub fn control() -> (r: Self)
        ensures
            r.spec_bits() == CONTROL_BIT,
    {
        FrameFlags { bits: CONTROL_BIT }
    }

    /// The flag `EOS`.
    pub fn eos() -> (r: Self)
        ensures
            r.spec_bits() == EOS_BIT,
    {
        FrameFlags { bits: EOS_BIT }
    }

    /// The flag `ERROR`.
    pub fn error() -> (r: Self)
        ensures
            r.spec_bits() == ERROR_BIT,
    {
        FrameFlags { bits: ERROR_BIT }
    }

    /// The flag `NO_REPLY`.
    pub fn no_reply() -> (r: Self)
        ensures
            r.spec_bits() == NO_REPLY_BIT,
    {
        FrameFlags { bits: NO_REPLY_BIT }
    }

    /// The flag `RESPONSE`.
    pub fn response() -> (r: Self)
        ensures
            r.spec_bits() == RESPONSE_BIT,
    {
        FrameFlags { bits: RESPONSE_BIT }
    }
}

/// Body encoding format.
#[derive(Clone, Copy, Debug, PartialEq, Eq, Hash, Structural)]
pub enum Encoding {
    /// Postcard, the default.
    Postcard,
    /// JSON, for debugging and external tooling.
    Json,
    /// Application-defined, no schema.
    Raw,
}

/// The wire value of an encoding.
pub open spec fn encoding_value(e: Encoding) -> u16 {
    match e {
        Encoding::Postcard => 1,
        Encoding::Json => 2,
        Encoding::Raw => 3,
    }
}

/// The encoding whose wire value is `value`, if any.
pub open spec fn encoding_from_value(value: u16) -> Option<Encoding> {
    if value == 1 {
        Some(Encoding::Postcard)
    } else if value == 2 {
        Some(Encoding::Json)
    } else if value == 3 {
        Some(Encoding::Raw)
    } else {
        None
    }
}

impl Encoding {
    /// The encoding whose wire value is `value`, if any.
    pub fn from_u16(value: u16) -> (r: Option<Self>)
        ensures
            r == encoding_from_value(value),
    {
        match value {
            1 => Some(Encoding::Postcard),
            2 => Some(Encoding::Json),
            3 => Some(Encoding::Raw),
            _ => None,
        }
    }

    /// The wire value of this encoding.
    pub fn to_u16(&self) -> (r: u16)
        ensures
            r == encoding_value(*self),
    {
        match self {
            Encoding::Postcard => 1,
            Encoding::Json => 2,
            Encoding::Raw => 3,
        }
    }
}

/// Decoding the wire value of an encoding gives the encoding back, and a wire
/// value that decodes is the value of what it decodes to.
pub proof fn lemma_encoding_roundtrip(e: Encoding, v: u16)
    ensures
        encoding_from_value(encoding_value(e)) == Some(e),
        encoding_from_value(v) matches Some(f) ==> encoding_value(f) == v,
{
}

} // verus!
