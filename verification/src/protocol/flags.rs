//! Frame flag bits of the wire format.

use vstd::prelude::*;

verus! {

/// Frame carries payload data.
pub const DATA: u32 = 0x1;
/// Control message (channel 0 only).
pub const CONTROL: u32 = 0x2;
/// End of stream (half-close).
pub const EOS: u32 = 0x4;
/// Reserved (do not use).
pub const _RESERVED_08: u32 = 0x8;
/// Error response.
pub const ERROR: u32 = 0x10;
/// Priority hint.
pub const HIGH_PRIORITY: u32 = 0x20;
/// Contains a credit grant.
pub const CREDITS: u32 = 0x40;
/// Reserved (do not use).
pub const _RESERVED_80: u32 = 0x80;
/// Fire-and-forget (no response expected).
pub const NO_REPLY: u32 = 0x100;
/// This is a response frame.
pub const RESPONSE: u32 = 0x200;

} // verus!
