//! Transport-agnostic descriptor validation.

use vstd::prelude::*;

use crate::descriptor::{MsgDescHot, INLINE_PAYLOAD_SIZE, INLINE_PAYLOAD_SLOT};
use crate::error::ValidationError;
use crate::limits::DescriptorLimits;

verus! {

/// `offset + len`, saturated at `u32::MAX`.
pub open spec fn saturating_end(offset: u32, len: u32) -> u32 {
    if offset + len > u32::MAX {
        u32::MAX
    } else {
        (offset + len) as u32
    }
}

/// The outcome of validating `d` against `l`: the first rule that `d` breaks,
/// checked in the order payload length, channel, then the inline or slot rules.
pub open spec fn validation_outcome(d: MsgDescHot, l: DescriptorLimits) -> Result<(), ValidationError> {
    if d.payload_len > l.max_payload_len {
        Err(ValidationError::PayloadTooLarge { len: d.payload_len, max: l.max_payload_len })
    } else if d.channel_id > l.max_channels {
        Err(ValidationError::ChannelOutOfBounds { channel: d.channel_id, max: l.max_channels })
    } else if d.payload_slot == INLINE_PAYLOAD_SLOT {
        if d.payload_len > 16 {
            Err(ValidationError::InlinePayloadTooLarge { len: d.payload_len, max: 16 })
        } else if d.payload_generation != 0 || d.payload_offset != 0 {
            Err(ValidationError::InvalidInlineDescriptor)
        } else {
            Ok(())
        }
    } else if l.slot_count > 0 {
        if d.payload_slot >= l.slot_count {
            Err(ValidationError::SlotOutOfBounds { slot: d.payload_slot, max: l.slot_count })
        } else if saturating_end(d.payload_offset, d.payload_len) > l.slot_size {
            Err(
                ValidationError::PayloadOutOfBounds {
                    offset: d.payload_offset,
                    len: d.payload_len,
                    slot_size: l.slot_size,
                },
            )
        } else {
            Ok(())
        }
    } else {
        Ok(())
    }
}

/// What an accepted descriptor guarantees: its payload lies inside the inline
/// area, or (when the limits describe slots) inside one existing slot. The end
/// of a slot payload is computed with saturation, so with a slot size of
/// `u32::MAX` an offset and length whose sum overflows are not rejected.
pub open spec fn payload_in_bounds(d: MsgDescHot, l: DescriptorLimits) -> bool {
    &&& d.payload_len <= l.max_payload_len
    &&& d.channel_id <= l.max_channels
    &&& d.payload_slot == INLINE_PAYLOAD_SLOT ==> {
        &&& d.payload_len <= 16
        &&& d.payload_generation == 0
        &&& d.payload_offset == 0
    }
    &&& (d.payload_slot != INLINE_PAYLOAD_SLOT && l.slot_count > 0) ==> {
        &&& d.payload_slot < l.slot_count
        &&& l.slot_size < u32::MAX ==> d.payload_offset + d.payload_len <= l.slot_size
    }
}

/// Validate a descriptor against the given limits: payload length, channel
/// bounds, and the inline or slot placement of the payload.
pub fn validate_descriptor(desc: &MsgDescHot, limits: &DescriptorLimits) -> (r: Result<
    (),
    ValidationError,
>)
    ensures
        r == validation_outcome(*desc, *limits),
        (r is Ok) == payload_in_bounds(*desc, *limits),
{
    if desc.payload_len > limits.max_payload_len {
        return Err(
            ValidationError::PayloadTooLarge { len: desc.payload_len, max: limits.max_payload_len },
        );
    }
    if desc.channel_id > limits.max_channels {
        return Err(
            ValidationError::ChannelOutOfBounds {
                channel: desc.channel_id,
                max: limits.max_channels,
            },
        );
    }
    if desc.payload_slot == INLINE_PAYLOAD_SLOT {
        if desc.payload_len > INLINE_PAYLOAD_SIZE as u32 {
            return Err(
                ValidationError::InlinePayloadTooLarge {
                    len: desc.payload_len,
                    max: INLINE_PAYLOAD_SIZE as u32,
                },
            );
        }
        if desc.payload_generation != 0 || desc.payload_offset != 0 {
            return Err(ValidationError::InvalidInlineDescriptor);
        }
    } else if limits.slot_count > 0 {
        if desc.payload_slot >= limits.slot_count {
            return Err(
                ValidationError::SlotOutOfBounds { slot: desc.payload_slot, max: limits.slot_count },
            );
        }
        let end = desc.payload_offset.saturating_add(desc.payload_len);
        if end > limits.slot_size {
            return Err(
                ValidationError::PayloadOutOfBounds {
                    offset: desc.payload_offset,
                    len: desc.payload_len,
                    slot_size: limits.slot_size,
                },
            );
        }
    }
    Ok(())
}

/// What `validate_descriptor` answers for descriptor `d`, limits `l` and its
/// result `r`. A descriptor is accepted exactly when its payload length and
/// channel are within the limits and its payload lies in place: an inline
/// payload holds at most 16 bytes with generation and offset 0; a slot
/// payload (when the limits describe slots) names an existing slot and, for
/// a slot size below `u32::MAX`, ends within it. Otherwise the first rule
/// broken, in that order, is reported with the offending values.
pub proof fn lemma_validate_descriptor_verdict(d: MsgDescHot, l: DescriptorLimits, r: Result<(), ValidationError>)
    requires
        r == validation_outcome(d, l),
    ensures
        (r is Ok) <==> ({
            &&& d.payload_len <= l.max_payload_len
            &&& d.channel_id <= l.max_channels
            &&& d.payload_slot == INLINE_PAYLOAD_SLOT ==> (d.payload_len <= 16 && d.payload_generation
                == 0 && d.payload_offset == 0)
            &&& (d.payload_slot != INLINE_PAYLOAD_SLOT && l.slot_count > 0) ==> (d.payload_slot
                < l.slot_count && (l.slot_size < u32::MAX ==> d.payload_offset + d.payload_len
                <= l.slot_size))
        }),
        d.payload_len > l.max_payload_len ==> r == Err::<(), ValidationError>(
            ValidationError::PayloadTooLarge { len: d.payload_len, max: l.max_payload_len },
        ),
        d.payload_len <= l.max_payload_len && d.channel_id > l.max_channels ==> r == Err::<
            (),
            ValidationError,
        >(ValidationError::ChannelOutOfBounds { channel: d.channel_id, max: l.max_channels }),
        d.payload_len <= l.max_payload_len && d.channel_id <= l.max_channels && d.payload_slot
            == INLINE_PAYLOAD_SLOT ==> {
            &&& d.payload_len > 16 ==> r == Err::<(), ValidationError>(
                ValidationError::InlinePayloadTooLarge { len: d.payload_len, max: 16 },
            )
            &&& d.payload_len <= 16 && (d.payload_generation != 0 || d.payload_offset != 0) ==> r
                == Err::<(), ValidationError>(ValidationError::InvalidInlineDescriptor)
        },
        d.payload_len <= l.max_payload_len && d.channel_id <= l.max_channels && d.payload_slot
            != INLINE_PAYLOAD_SLOT && l.slot_count > 0 ==> {
            &&& d.payload_slot >= l.slot_count ==> r == Err::<(), ValidationError>(
                ValidationError::SlotOutOfBounds { slot: d.payload_slot, max: l.slot_count },
            )
            &&& d.payload_slot < l.slot_count && l.slot_size < u32::MAX && d.payload_offset
                + d.payload_len > l.slot_size ==> r == Err::<(), ValidationError>(
                ValidationError::PayloadOutOfBounds {
                    offset: d.payload_offset,
                    len: d.payload_len,
                    slot_size: l.slot_size,
                },
            )
        },
{
}

} // verus!
