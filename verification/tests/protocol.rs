use rapace::protocol::{
    compute_method_id, flags, Hello, MsgDescHot, Ping, Role, Status, INLINE_PAYLOAD_SLOT,
    NO_DEADLINE, PROTOCOL_VERSION_1_0,
};

#[test]
fn test_msg_desc_hot_size() {
    assert_eq!(core::mem::size_of::<MsgDescHot>(), 64);
}

#[test]
fn test_msg_desc_hot_roundtrip() {
    let mut desc = MsgDescHot::new();
    desc.msg_id = 12345;
    desc.channel_id = 7;
    desc.method_id = 0xDEADBEEF;
    desc.flags = flags::DATA | flags::EOS;
    desc.inline_payload[0..4].copy_from_slice(b"test");
    desc.payload_len = 4;

    let bytes = desc.to_bytes();
    let decoded = MsgDescHot::from_bytes(&bytes);

    assert_eq!(decoded.msg_id, 12345);
    assert_eq!(decoded.channel_id, 7);
    assert_eq!(decoded.method_id, 0xDEADBEEF);
    assert_eq!(decoded.flags, flags::DATA | flags::EOS);
    assert_eq!(&decoded.inline_payload[0..4], b"test");
}

#[test]
fn test_method_id_computation() {
    let id1 = compute_method_id("Calculator", "add");
    let id2 = compute_method_id("Calculator", "add");
    assert_eq!(id1, id2);

    let id3 = compute_method_id("Calculator", "subtract");
    assert_ne!(id1, id3);

    assert_ne!(id1, 0);
}

#[test]
fn method_id_exact_values() {
    assert_eq!(compute_method_id("Calculator", "add"), 0x193f_a158);
    assert_eq!(compute_method_id("Calculator", "subtract"), 0xff96_5c5d);
}

#[test]
fn descriptor_encoding_is_little_endian() {
    let mut desc = MsgDescHot::new();
    desc.msg_id = 0x0102_0304_0506_0708;
    desc.channel_id = 0x0A0B_0C0D;
    let bytes = desc.to_bytes();
    assert_eq!(&bytes[0..8], &[8, 7, 6, 5, 4, 3, 2, 1]);
    assert_eq!(&bytes[8..12], &[0x0D, 0x0C, 0x0B, 0x0A]);
    // Fresh fields: inline slot and no deadline.
    assert_eq!(&bytes[16..20], &[0xFF, 0xFF, 0xFF, 0xFF]);
    assert_eq!(&bytes[40..48], &[0xFF; 8]);
}

#[test]
fn decoding_then_encoding_gives_the_bytes_back() {
    let mut bytes = [0u8; 64];
    for (i, b) in bytes.iter_mut().enumerate() {
        *b = (i as u8).wrapping_mul(37);
    }
    let desc = MsgDescHot::from_bytes(&bytes);
    assert_eq!(desc.to_bytes(), bytes);
}

#[test]
fn fresh_protocol_descriptor() {
    let desc = MsgDescHot::new();
    assert_eq!(desc.payload_slot, INLINE_PAYLOAD_SLOT);
    assert_eq!(desc.deadline_ns, NO_DEADLINE);
    assert!(desc.is_inline());
    // Channel 0 is the control channel.
    assert!(desc.is_control());
    assert_eq!(desc.inline_payload(), &[] as &[u8]);
}

#[test]
fn protocol_inline_payload_and_channel() {
    let mut desc = MsgDescHot::new();
    desc.payload_len = 3;
    desc.inline_payload[..3].copy_from_slice(b"abc");
    desc.channel_id = 9;
    assert_eq!(desc.inline_payload(), b"abc");
    assert!(!desc.is_control());
    desc.payload_slot = 4;
    assert!(!desc.is_inline());
}

#[test]
fn pong_echoes_ping_payload() {
    let ping = Ping { payload: [1, 2, 3, 4, 5, 6, 7, 8] };
    assert_eq!(ping.pong().payload, [1, 2, 3, 4, 5, 6, 7, 8]);
}

#[test]
fn status_constructors() {
    let ok = Status::ok();
    assert!(ok.is_ok());
    assert_eq!(ok.code, 0);
    let err = Status::error(5, "missing".to_string());
    assert!(!err.is_ok());
    assert_eq!(err.code, 5);
    assert_eq!(err.message, "missing");
}

#[test]
fn default_hello() {
    let hello = Hello::default();
    assert_eq!(hello.protocol_version, PROTOCOL_VERSION_1_0);
    assert_eq!(hello.role, Role::Initiator);
    assert_eq!(hello.required_features, 0x3);
    assert_eq!(hello.supported_features, 0xF);
    assert!(hello.methods.is_empty());
}
