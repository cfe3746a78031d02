use rapace::descriptor::{MsgDescHot, INLINE_PAYLOAD_SLOT, NO_DEADLINE};
use rapace::error::{ErrorCode, RpcError, TransportError};
use rapace::flags::FrameFlags;
use rapace::protocol::{control_verb, Hello, Role};
use rapace::session::CallWaitEnd;
use rapace::session::{
    control_action, encode_error_payload, error_response_desc, error_response_parts,
    max_pending_from, parse_error_payload, check_hello_frame, ControlAction, FrameRoute,
    RpcSession, DEFAULT_MAX_PENDING,
};

fn desc(channel_id: u32, flags: FrameFlags) -> MsgDescHot {
    let mut d = MsgDescHot::new();
    d.channel_id = channel_id;
    d.flags = flags;
    d
}

fn status(e: RpcError) -> (ErrorCode, String) {
    match e {
        RpcError::Status { code, message } => (code, message),
        other => panic!("expected a status, got {:?}", other),
    }
}

#[test]
fn initiator_allocates_odd_channel_ids() {
    let mut s = RpcSession::new_initiator();
    assert_eq!(s.role(), Role::Initiator);
    assert_eq!(s.next_channel_id(), 1);
    assert_eq!(s.next_channel_id(), 3);
    assert_eq!(s.next_channel_id(), 5);
}

#[test]
fn acceptor_allocates_even_channel_ids() {
    let mut s = RpcSession::new_acceptor();
    assert_eq!(s.role(), Role::Acceptor);
    assert_eq!(s.next_channel_id(), 2);
    assert_eq!(s.next_channel_id(), 4);
}

#[test]
fn channel_start_sets_role_by_parity() {
    assert_eq!(RpcSession::with_channel_start(7).role(), Role::Initiator);
    assert_eq!(RpcSession::with_channel_start(10).role(), Role::Acceptor);
    let mut s = RpcSession::with_channel_start(u32::MAX);
    assert_eq!(s.next_channel_id(), u32::MAX);
    // Wraps around at 2^32 and keeps the parity.
    assert_eq!(s.next_channel_id(), 1);
}

#[test]
fn message_ids_count_from_one() {
    let mut s = RpcSession::new();
    assert_eq!(s.next_msg_id(), 1);
    assert_eq!(s.next_msg_id(), 2);
    assert_eq!(s.next_msg_id(), 3);
}

#[test]
fn pending_calls_are_limited() {
    let mut s = RpcSession::new();
    assert!(s.register_pending(5, 2).is_ok());
    assert!(s.register_pending(3, 2).is_ok());
    let (code, message) = status(s.register_pending(9, 2).unwrap_err());
    assert_eq!(code, ErrorCode::ResourceExhausted);
    assert_eq!(message, "too many pending RPC calls");
    assert_eq!(s.pending_channel_ids(), vec![3, 5]);
    assert!(s.remove_pending(5));
    assert!(!s.remove_pending(5));
    assert!(s.register_pending(9, 2).is_ok());
    assert_eq!(s.pending_channel_ids(), vec![3, 9]);
}

#[test]
fn max_pending_configuration() {
    assert_eq!(max_pending_from(None), DEFAULT_MAX_PENDING);
    assert_eq!(max_pending_from(Some(0)), 8192);
    assert_eq!(max_pending_from(Some(16)), 16);
}

#[test]
fn responses_go_to_their_waiter_once() {
    let mut s = RpcSession::new();
    s.register_pending(7, 10).unwrap();
    let response = desc(7, FrameFlags::data().union(FrameFlags::response()));
    assert_eq!(s.route_frame(&response), FrameRoute::Waiter);
    assert!(!s.has_pending(7));
    assert_eq!(s.route_frame(&response), FrameRoute::Unroutable);
}

#[test]
fn tunnels_take_frames_until_eos() {
    let mut s = RpcSession::new();
    s.register_tunnel(9);
    assert_eq!(s.tunnel_channel_ids(), vec![9]);
    let chunk = desc(9, FrameFlags::data());
    assert_eq!(s.route_frame(&chunk), FrameRoute::Tunnel { closes: false });
    let last = desc(9, FrameFlags::data().union(FrameFlags::eos()));
    assert_eq!(s.route_frame(&last), FrameRoute::Tunnel { closes: true });
    assert!(!s.has_tunnel(9));
    // Without a tunnel or an open channel, data is rejected.
    assert_eq!(s.route_frame(&chunk), FrameRoute::RejectUnopened);
}

#[test]
fn control_skip_reject_and_dispatch_routes() {
    let mut s = RpcSession::new_acceptor();
    assert_eq!(s.route_frame(&desc(0, FrameFlags::control())), FrameRoute::Control);
    assert_eq!(s.route_frame(&desc(4, FrameFlags::empty())), FrameRoute::Skip);
    assert_eq!(s.route_frame(&desc(4, FrameFlags::data())), FrameRoute::RejectUnopened);
    assert!(s.open_channel(4));
    assert!(s.is_open(4));
    assert_eq!(
        s.route_frame(&desc(4, FrameFlags::data())),
        FrameRoute::Dispatch { no_reply: false }
    );
    assert_eq!(
        s.route_frame(&desc(4, FrameFlags::data().union(FrameFlags::no_reply()))),
        FrameRoute::Dispatch { no_reply: true }
    );
}

#[test]
fn channel_zero_cannot_be_opened() {
    let mut s = RpcSession::new();
    assert!(!s.open_channel(0));
    assert!(!s.is_open(0));
}

#[test]
fn control_actions_by_verb() {
    assert_eq!(control_action(control_verb::PING), ControlAction::ReplyPong);
    assert_eq!(control_action(control_verb::OPEN_CHANNEL), ControlAction::OpenChannel);
    assert_eq!(control_action(control_verb::CANCEL_CHANNEL), ControlAction::Ignore);
    assert_eq!(control_action(control_verb::PONG), ControlAction::Ignore);
    assert_eq!(control_action(999), ControlAction::Ignore);
}

#[test]
fn outgoing_descriptors() {
    let mut s = RpcSession::new();
    let call = s.call_desc(3, 42);
    assert_eq!(call.msg_id, 1);
    assert_eq!(call.channel_id, 3);
    assert_eq!(call.method_id, 42);
    assert_eq!(call.flags.bits(), 0x1 | 0x4);
    assert_eq!(call.payload_slot, INLINE_PAYLOAD_SLOT);
    assert_eq!(call.deadline_ns, NO_DEADLINE);
    let note = s.notify_desc(8);
    assert_eq!((note.msg_id, note.channel_id, note.flags.bits()), (2, 0, 0x1 | 0x4 | 0x100));
    let ctrl = s.control_desc(control_verb::PONG);
    assert_eq!((ctrl.msg_id, ctrl.channel_id, ctrl.method_id), (3, 0, 6));
    assert_eq!(ctrl.flags.bits(), 0x2);
    let chunk = s.chunk_desc(11);
    assert_eq!((chunk.method_id, chunk.flags.bits()), (0, 0x1));
    let close = s.close_tunnel_desc(11);
    assert_eq!((close.msg_id, close.flags.bits()), (5, 0x1 | 0x4));
    let err = error_response_desc(11);
    assert_eq!((err.msg_id, err.channel_id, err.flags.bits()), (0, 11, 0x10 | 0x4));
}

#[test]
fn streaming_call_registers_a_tunnel() {
    let mut s = RpcSession::new();
    let (channel, f) = s.start_streaming_call(77, b"range".to_vec());
    let d = f.desc;
    assert_eq!(channel, 1);
    assert_eq!(d.channel_id, 1);
    assert_eq!(d.method_id, 77);
    assert_eq!(d.flags.bits(), 0x1 | 0x4 | 0x100);
    assert_eq!(f.payload_bytes(), b"range");
    assert!(s.has_tunnel(1));
    assert_eq!(s.next_channel_id(), 3);
}

#[test]
fn our_hello_carries_role_and_features() {
    let s = RpcSession::new_acceptor();
    let hello = s.hello();
    assert_eq!(hello.role, Role::Acceptor);
    assert_eq!(hello.protocol_version, 0x0001_0000);
    assert_eq!(hello.required_features, 0x3);
    assert_eq!(hello.supported_features, 0xF);
}

#[test]
fn complementary_hello_is_accepted() {
    let s = RpcSession::new_initiator();
    let mut peer = RpcSession::new_acceptor().hello();
    assert!(s.check_peer_hello(&peer).is_ok());
    peer.protocol_version = 0x0001_0003;
    assert!(s.check_peer_hello(&peer).is_ok());
}

#[test]
fn hello_with_same_role_is_refused() {
    let s = RpcSession::new_initiator();
    let peer = Hello::default();
    let (code, message) = status(s.check_peer_hello(&peer).unwrap_err());
    assert_eq!(code, ErrorCode::InvalidArgument);
    assert_eq!(
        message,
        "[verify handshake.role.validation]: expected peer role Acceptor, got Initiator"
    );
}

#[test]
fn hello_with_other_major_version_is_refused() {
    let s = RpcSession::new_acceptor();
    let mut peer = Hello::default();
    peer.protocol_version = 0x0002_0000;
    let (_, message) = status(s.check_peer_hello(&peer).unwrap_err());
    assert_eq!(message, "[verify handshake.version.major]: expected major version 1, got 2");
}

#[test]
fn hello_missing_features_is_refused() {
    let s = RpcSession::new_acceptor();
    let mut peer = Hello::default();
    peer.supported_features = 0x1d;
    let (_, message) = status(s.check_peer_hello(&peer).unwrap_err());
    assert_eq!(
        message,
        "[verify handshake.features.required]: peer doesn't support required features (need 3, got 1d)"
    );
}

#[test]
fn first_frame_must_be_hello() {
    let hello = desc(0, FrameFlags::control());
    assert!(check_hello_frame(&hello).is_ok());
    let (_, m) = status(check_hello_frame(&desc(3, FrameFlags::control())).unwrap_err());
    assert_eq!(m, "[verify handshake.ordering]: first frame must be on channel 0, got 3");
    let (_, m) = status(check_hello_frame(&desc(0, FrameFlags::data())).unwrap_err());
    assert_eq!(m, "[verify core.control.flag-set]: Hello must have CONTROL flag set");
    let mut ping = desc(0, FrameFlags::control());
    ping.method_id = control_verb::PING;
    let (code, m) = status(check_hello_frame(&ping).unwrap_err());
    assert_eq!(code, ErrorCode::InvalidArgument);
    assert_eq!(m, "[verify handshake.ordering]: first frame must be Hello (method_id=0), got 5");
}

#[test]
fn error_payload_roundtrip() {
    let bytes = encode_error_payload(3, "test error message");
    assert_eq!(&bytes[0..4], &[3, 0, 0, 0]);
    assert_eq!(&bytes[4..8], &[18, 0, 0, 0]);
    let (code, message) = status(parse_error_payload(&bytes));
    assert_eq!(code, ErrorCode::InvalidArgument);
    assert_eq!(message, "test error message");
}

#[test]
fn error_payload_with_unknown_code_is_internal() {
    let bytes = encode_error_payload(4242, "héllo");
    let (code, message) = status(parse_error_payload(&bytes));
    assert_eq!(code, ErrorCode::Internal);
    assert_eq!(message, "héllo");
}

#[test]
fn malformed_error_payloads() {
    let (code, m) = status(parse_error_payload(&[1, 2, 3]));
    assert_eq!(code, ErrorCode::Internal);
    assert_eq!(m, "malformed error response");
    let (_, m) = status(parse_error_payload(&[3, 0, 0, 0, 9, 0, 0, 0, b'a']));
    assert_eq!(m, "malformed error response");
    let (_, m) = status(parse_error_payload(&[3, 0, 0, 0, 1, 0, 0, 0, 0xFF]));
    assert_eq!(m, "\u{FFFD}");
}

#[test]
fn error_response_parts_per_variant() {
    let (c, m) = error_response_parts(&RpcError::Status {
        code: ErrorCode::NotFound,
        message: "gone".to_string(),
    });
    assert_eq!((c, m.as_str()), (4, "gone"));
    let (c, m) = error_response_parts(&RpcError::Transport(TransportError::Closed));
    assert_eq!((c, m.as_str()), (12, "transport error"));
    let (c, m) = error_response_parts(&RpcError::Cancelled);
    assert_eq!((c, m.as_str()), (1, "cancelled"));
    let (c, m) = error_response_parts(&RpcError::DeadlineExceeded);
    assert_eq!((c, m.as_str()), (2, "deadline exceeded"));
    let (c, m) = error_response_parts(&RpcError::Serialize("x".to_string()));
    assert_eq!((c, m.as_str()), (12, "serialize error: x"));
    let (c, m) = error_response_parts(&RpcError::Deserialize("y".to_string()));
    assert_eq!((c, m.as_str()), (12, "deserialize error: y"));
}

#[test]
fn error_response_frames_parse_back() {
    let e = RpcError::Status { code: ErrorCode::PermissionDenied, message: "no".to_string() };
    let frame = rapace::session::error_response_frame(9, &e);
    assert_eq!(frame.desc.channel_id, 9);
    assert_eq!(frame.desc.flags.bits(), 0x10 | 0x4);
    let (code, message) = status(parse_error_payload(frame.payload_bytes()));
    assert_eq!(code, ErrorCode::PermissionDenied);
    assert_eq!(message, "no");
}

#[test]
fn calls_register_and_abandon_waiters() {
    let mut s = RpcSession::new();
    let frame = s.start_call(1, 42, b"hello".to_vec(), 4).unwrap();
    assert!(s.has_pending(1));
    assert_eq!(frame.desc.method_id, 42);
    assert_eq!(frame.desc.flags.bits(), 0x1 | 0x4);
    assert_eq!(frame.payload_bytes(), b"hello");
    assert!(frame.payload.is_inline());
    let big = s.start_call(3, 42, vec![1u8; 40], 4).unwrap();
    assert!(!big.payload.is_inline());
    assert_eq!(big.desc.msg_id, 2);
    assert!(matches!(s.abandon_call(1, CallWaitEnd::TimedOut), RpcError::DeadlineExceeded));
    assert!(!s.has_pending(1));
    let (code, m) = status(s.abandon_call(3, CallWaitEnd::ChannelClosed));
    assert_eq!(code, ErrorCode::Internal);
    assert_eq!(m, "response channel closed");
    assert!(s.pending_channel_ids().is_empty());
}

#[test]
fn calls_beyond_the_limit_are_refused() {
    let mut s = RpcSession::new();
    s.start_call(1, 7, Vec::new(), 1).unwrap();
    let refused = match s.start_call(3, 7, Vec::new(), 1) {
        Err(e) => e,
        Ok(_) => panic!("the call beyond the limit went through"),
    };
    let (code, _) = status(refused);
    assert_eq!(code, ErrorCode::ResourceExhausted);
    assert!(!s.has_pending(3));
}

use rapace::buffer_pool::{BufferPool, PooledBuf};
use rapace::frame::Payload;

#[test]
fn pooled_call_keeps_large_payload_in_its_buffer() {
    let pool = BufferPool::with_capacity(2, 64);
    let mut s = RpcSession::new();
    let small = s.start_call_pooled(1, 9, PooledBuf::from_slice(&pool, b"tiny"), 8);
    let small = match small {
        Ok(f) => f,
        Err(e) => panic!("unexpected {:?}", e),
    };
    assert!(matches!(small.payload, Payload::Inline));
    assert_eq!(small.payload_bytes(), b"tiny");
    assert_eq!(small.desc.flags.bits(), 0x1 | 0x4);
    let big = match s.start_call_pooled(3, 9, PooledBuf::from_slice(&pool, &[5u8; 40]), 8) {
        Ok(f) => f,
        Err(e) => panic!("unexpected {:?}", e),
    };
    assert!(matches!(big.payload, Payload::Pooled(ref b) if b.is_pooled()));
    assert_eq!(big.payload_bytes(), &[5u8; 40][..]);
    assert_eq!(big.desc.msg_id, small.desc.msg_id + 1);
    assert!(s.has_pending(1) && s.has_pending(3));
}

#[test]
fn abandoned_pooled_call_reports_closed_transport() {
    let mut s = RpcSession::new();
    s.register_pending(5, 8).unwrap();
    assert!(matches!(
        s.abandon_pooled_call(5, CallWaitEnd::ChannelClosed),
        RpcError::Transport(TransportError::Closed)
    ));
    assert!(!s.has_pending(5));
    s.register_pending(7, 8).unwrap();
    assert!(matches!(s.abandon_pooled_call(7, CallWaitEnd::TimedOut), RpcError::DeadlineExceeded));
}

#[test]
fn pooled_streaming_call_registers_a_tunnel() {
    let pool = BufferPool::with_capacity(1, 64);
    let mut s = RpcSession::new();
    let (channel, frame) = s.start_streaming_call_pooled(77, PooledBuf::from_slice(&pool, &[1u8; 20]));
    assert_eq!(channel, 1);
    assert_eq!(frame.desc.flags.bits(), 0x1 | 0x4 | 0x100);
    assert_eq!(frame.payload_bytes(), &[1u8; 20][..]);
    assert!(s.has_tunnel(1));
}

#[test]
fn notification_chunk_and_close_frames() {
    let pool = BufferPool::with_capacity(1, 64);
    let mut s = RpcSession::new();
    let note = s.notify(8, b"event".to_vec());
    assert_eq!((note.desc.channel_id, note.desc.method_id), (0, 8));
    assert_eq!(note.desc.flags.bits(), 0x1 | 0x4 | 0x100);
    assert_eq!(note.payload_bytes(), b"event");
    let chunk = s.send_chunk(11, PooledBuf::from_slice(&pool, &[9u8; 30]));
    assert_eq!((chunk.desc.channel_id, chunk.desc.method_id), (11, 0));
    assert_eq!(chunk.desc.flags.bits(), 0x1);
    assert_eq!(chunk.payload_bytes(), &[9u8; 30][..]);
    let close = s.close_tunnel(11);
    assert_eq!(close.desc.flags.bits(), 0x1 | 0x4);
    assert!(close.payload_bytes().is_empty());
    assert_eq!(close.desc.msg_id, note.desc.msg_id + 2);
}
