use rapace::descriptor::MsgDescHot;
use rapace::error::ValidationError;
use rapace::limits::DescriptorLimits;
use rapace::validation::validate_descriptor;

fn make_desc() -> MsgDescHot {
    MsgDescHot::new()
}

#[test]
fn test_valid_inline_payload() {
    let mut desc = make_desc();
    desc.payload_len = 10;
    desc.inline_payload[..10].fill(0xAB);

    let limits = DescriptorLimits::default();
    assert!(validate_descriptor(&desc, &limits).is_ok());
}

#[test]
fn test_inline_payload_too_large() {
    let mut desc = make_desc();
    desc.payload_len = 30;

    let limits = DescriptorLimits::default();
    let err = validate_descriptor(&desc, &limits).unwrap_err();
    assert!(matches!(err, ValidationError::InlinePayloadTooLarge { .. }));
}

#[test]
fn test_invalid_inline_descriptor() {
    let mut desc = make_desc();
    desc.payload_len = 10;
    desc.payload_generation = 1;

    let limits = DescriptorLimits::default();
    let err = validate_descriptor(&desc, &limits).unwrap_err();
    assert!(matches!(err, ValidationError::InvalidInlineDescriptor));
}

#[test]
fn test_payload_too_large() {
    let mut desc = make_desc();
    desc.payload_slot = 0;
    desc.payload_len = 2 * 1024 * 1024;

    let limits = DescriptorLimits::with_slots(16, 4096);
    let err = validate_descriptor(&desc, &limits).unwrap_err();
    assert!(matches!(err, ValidationError::PayloadTooLarge { .. }));
}

#[test]
fn test_slot_out_of_bounds() {
    let mut desc = make_desc();
    desc.payload_slot = 100;
    desc.payload_len = 100;

    let limits = DescriptorLimits::with_slots(16, 4096);
    let err = validate_descriptor(&desc, &limits).unwrap_err();
    assert!(matches!(err, ValidationError::SlotOutOfBounds { .. }));
}

#[test]
fn test_payload_out_of_bounds() {
    let mut desc = make_desc();
    desc.payload_slot = 0;
    desc.payload_offset = 4000;
    desc.payload_len = 200;

    let limits = DescriptorLimits::with_slots(16, 4096);
    let err = validate_descriptor(&desc, &limits).unwrap_err();
    assert!(matches!(err, ValidationError::PayloadOutOfBounds { .. }));
}

#[test]
fn test_channel_out_of_bounds() {
    let mut desc = make_desc();
    desc.channel_id = 2000;

    let limits = DescriptorLimits::default();
    let err = validate_descriptor(&desc, &limits).unwrap_err();
    assert!(matches!(err, ValidationError::ChannelOutOfBounds { .. }));
}

#[test]
fn test_valid_slot_payload() {
    let mut desc = make_desc();
    desc.payload_slot = 5;
    desc.payload_generation = 42;
    desc.payload_offset = 100;
    desc.payload_len = 500;

    let limits = DescriptorLimits::with_slots(16, 4096);
    assert!(validate_descriptor(&desc, &limits).is_ok());
}

#[test]
fn validation_errors_carry_exact_fields() {
    let mut desc = make_desc();
    desc.payload_slot = 0;
    desc.payload_offset = 4000;
    desc.payload_len = 200;
    let limits = DescriptorLimits::with_slots(16, 4096);
    assert_eq!(
        validate_descriptor(&desc, &limits),
        Err(ValidationError::PayloadOutOfBounds { offset: 4000, len: 200, slot_size: 4096 })
    );

    let mut desc = make_desc();
    desc.channel_id = 1025;
    assert_eq!(
        validate_descriptor(&desc, &DescriptorLimits::default()),
        Err(ValidationError::ChannelOutOfBounds { channel: 1025, max: 1024 })
    );
}

#[test]
fn payload_length_is_checked_before_channel() {
    let mut desc = make_desc();
    desc.channel_id = 5000;
    desc.payload_len = 2 * 1024 * 1024;
    assert_eq!(
        validate_descriptor(&desc, &DescriptorLimits::default()),
        Err(ValidationError::PayloadTooLarge { len: 2 * 1024 * 1024, max: 1024 * 1024 })
    );
}

#[test]
fn payload_ending_at_slot_end_is_accepted() {
    let mut desc = make_desc();
    desc.payload_slot = 15;
    desc.payload_offset = 4000;
    desc.payload_len = 96;
    let limits = DescriptorLimits::with_slots(16, 4096);
    assert!(validate_descriptor(&desc, &limits).is_ok());
}

#[test]
fn slot_payloads_are_not_bounded_without_slot_limits() {
    let mut desc = make_desc();
    desc.payload_slot = 999;
    desc.payload_offset = 10_000;
    desc.payload_len = 100;
    assert!(validate_descriptor(&desc, &DescriptorLimits::default()).is_ok());
}

#[test]
fn default_limits_values() {
    let limits = DescriptorLimits::default();
    assert_eq!(limits.max_payload_len, 1024 * 1024);
    assert_eq!(limits.max_channels, 1024);
    assert_eq!(limits.slot_count, 0);
    let with = DescriptorLimits::with_slots(16, 4096);
    assert_eq!(with.slot_count, 16);
    assert_eq!(with.slot_size, 4096);
}
