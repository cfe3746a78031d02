use rapace::error::{
    io_error_from_parts, DecodeError, EncodeError, ErrorCode, IoError, IoErrorKind, RpcError,
    TransportError,
    ValidationError,
};
use rapace::text::{decimal_string, push_hex};

#[test]
fn test_io_error_roundtrip() {
    let original = std::io::Error::new(std::io::ErrorKind::NotFound, "test file not found");
    let io_error: IoError = original.into();
    assert_eq!(io_error.kind, IoErrorKind::NotFound);
    assert!(io_error.message.contains("test file not found"));
}

#[test]
fn io_error_kinds_map_one_for_one() {
    assert_eq!(IoErrorKind::from(std::io::ErrorKind::BrokenPipe), IoErrorKind::BrokenPipe);
    assert_eq!(IoErrorKind::from(std::io::ErrorKind::TimedOut), IoErrorKind::TimedOut);
    assert_eq!(IoErrorKind::from(std::io::ErrorKind::Unsupported), IoErrorKind::Other);
}

#[test]
fn io_error_into_transport_error() {
    let e = std::io::Error::new(std::io::ErrorKind::ConnectionReset, "reset");
    let t: TransportError = e.into();
    assert!(matches!(t, TransportError::Io(IoError { kind: IoErrorKind::ConnectionReset, .. })));
}

#[test]
fn error_code_numbers_roundtrip() {
    assert_eq!(ErrorCode::from_u32(0), Some(ErrorCode::Success));
    assert_eq!(ErrorCode::from_u32(12), Some(ErrorCode::Internal));
    assert_eq!(ErrorCode::from_u32(103), Some(ErrorCode::StaleGeneration));
    assert_eq!(ErrorCode::from_u32(15), None);
    assert_eq!(ErrorCode::from_u32(99), None);
    assert_eq!(ErrorCode::PeerDied.to_u32(), 100);
    assert_eq!(ErrorCode::Unimplemented.to_u32(), 11);
    assert_eq!(ErrorCode::Internal.as_str(), "internal error");
}

#[test]
fn validation_error_messages() {
    assert_eq!(
        ValidationError::SlotOutOfBounds { slot: 100, max: 16 }.to_string(),
        "slot 100 out of bounds (max 16)"
    );
    assert_eq!(
        ValidationError::PayloadOutOfBounds { offset: 4000, len: 200, slot_size: 4096 }.to_string(),
        "payload [4000..4000+200] exceeds slot size 4096"
    );
    assert_eq!(
        ValidationError::InlinePayloadTooLarge { len: 30, max: 16 }.to_string(),
        "inline payload 30 bytes exceeds max 16"
    );
    assert_eq!(
        ValidationError::PayloadTooLarge { len: 0, max: 1048576 }.to_string(),
        "payload 0 bytes exceeds max 1048576"
    );
    assert_eq!(
        ValidationError::StaleGeneration { expected: 4294967295, actual: 7 }.to_string(),
        "stale generation: expected 4294967295, got 7"
    );
    assert_eq!(
        ValidationError::ChannelOutOfBounds { channel: 2000, max: 1024 }.to_string(),
        "channel 2000 out of bounds (max 1024)"
    );
    assert_eq!(
        ValidationError::InvalidInlineDescriptor.to_string(),
        "inline descriptor has non-zero slot fields"
    );
}

#[test]
fn transport_and_rpc_error_messages() {
    let io = IoError::new(IoErrorKind::NotFound, "x.txt".to_string());
    assert_eq!(io.to_string(), "entity not found: x.txt");
    assert_eq!(TransportError::Closed.to_string(), "transport closed");
    assert_eq!(TransportError::Io(io).to_string(), "I/O error: entity not found: x.txt");
    assert_eq!(
        TransportError::Encode(EncodeError::BufferTooSmall { needed: 64, available: 10 }).to_string(),
        "serialize error: buffer too small: need 64, have 10"
    );
    assert_eq!(
        TransportError::Decode(DecodeError::UnsupportedEncoding(3)).to_string(),
        "deserialize error: unsupported encoding: 3"
    );
    assert_eq!(
        TransportError::Validation(ValidationError::InvalidInlineDescriptor).to_string(),
        "validation error: inline descriptor has non-zero slot fields"
    );
    assert_eq!(
        RpcError::Transport(TransportError::Closed).to_string(),
        "transport error: transport closed"
    );
    assert_eq!(
        RpcError::Status { code: ErrorCode::NotFound, message: "no such user".to_string() }.to_string(),
        "not found: no such user"
    );
    assert_eq!(RpcError::Cancelled.to_string(), "cancelled");
    assert_eq!(RpcError::DeadlineExceeded.to_string(), "deadline exceeded");
    assert_eq!(
        RpcError::Serialize("bad".to_string()).to_string(),
        "could not serialize to postcard: bad"
    );
    assert_eq!(
        RpcError::Deserialize("eof".to_string()).to_string(),
        "could not deserialize from postcard: eof"
    );
    assert_eq!(EncodeError::NoSlotAvailable.to_string(), "no slot available");
    assert_eq!(EncodeError::EncodeFailed("z".to_string()).to_string(), "encode failed: z");
    assert_eq!(DecodeError::UnexpectedEof.to_string(), "unexpected end of input");
    assert_eq!(DecodeError::InvalidData("q".to_string()).to_string(), "invalid data: q");
}

#[test]
fn error_conversions_wrap() {
    let t: TransportError = ValidationError::InvalidInlineDescriptor.into();
    assert!(matches!(t, TransportError::Validation(ValidationError::InvalidInlineDescriptor)));
    let t: TransportError = EncodeError::NoSlotAvailable.into();
    assert!(matches!(t, TransportError::Encode(EncodeError::NoSlotAvailable)));
    let t: TransportError = DecodeError::UnexpectedEof.into();
    assert!(matches!(t, TransportError::Decode(DecodeError::UnexpectedEof)));
    let r: RpcError = TransportError::Closed.into();
    assert!(matches!(r, RpcError::Transport(TransportError::Closed)));
}

#[test]
fn decimal_and_hex_rendering() {
    assert_eq!(decimal_string(0), "0");
    assert_eq!(decimal_string(7), "7");
    assert_eq!(decimal_string(10), "10");
    assert_eq!(decimal_string(18446744073709551615), "18446744073709551615");
    let mut s = String::from("0x");
    push_hex(&mut s, 0xdead_beef);
    assert_eq!(s, "0xdeadbeef");
    let mut z = String::new();
    push_hex(&mut z, 0);
    assert_eq!(z, "0");
}

#[test]
fn io_error_parts_keep_kind_and_text() {
    let e = io_error_from_parts(std::io::ErrorKind::TimedOut, "too slow".to_string());
    assert_eq!(e.kind, IoErrorKind::TimedOut);
    assert_eq!(e.message, "too slow");
    let e = io_error_from_parts(std::io::ErrorKind::Unsupported, "no".to_string());
    assert_eq!(e.kind, IoErrorKind::Other);
    assert_eq!(e.message, "no");
}
