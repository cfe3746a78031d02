use rapace::cell::{
    is_truthy, next_ready_delay, ready_timeout_ms,
    parse_args, parse_i32, parse_u16, unimplemented_method, CellError, DispatcherBuilder,
};
use rapace::error::{ErrorCode, RpcError, TransportError};

fn args(list: &[&str]) -> Vec<String> {
    list.iter().map(|s| s.to_string()).collect()
}

fn hub_args_error(r: Result<rapace::cell::ParsedArgs, CellError>) -> String {
    match r {
        Err(CellError::HubArgs(m)) => m,
        other => panic!("expected a hub argument error, got {:?}", other),
    }
}

#[test]
fn parses_hub_arguments() {
    let parsed = parse_args(&args(&[
        "--hub-path=/tmp/hub.shm",
        "--peer-id=3",
        "--doorbell-fd=17",
    ]))
    .unwrap();
    assert_eq!(parsed.hub_path, "/tmp/hub.shm");
    assert_eq!(parsed.peer_id, 3);
    assert_eq!(parsed.doorbell_fd, 17);
}

#[test]
fn later_arguments_override_and_others_are_ignored() {
    let parsed = parse_args(&args(&[
        "--verbose",
        "--hub-path=a",
        "--peer-id=1",
        "--doorbell-fd=-1",
        "--hub-path=b",
        "--peer-id=+65535",
    ]))
    .unwrap();
    assert_eq!(parsed.hub_path, "b");
    assert_eq!(parsed.peer_id, 65535);
    assert_eq!(parsed.doorbell_fd, -1);
}

#[test]
fn missing_hub_arguments_in_order() {
    assert_eq!(hub_args_error(parse_args(&args(&[]))), "Missing --hub-path");
    assert_eq!(hub_args_error(parse_args(&args(&["--hub-path=x"]))), "Missing --peer-id");
    assert_eq!(
        hub_args_error(parse_args(&args(&["--hub-path=x", "--peer-id=2"]))),
        "Missing --doorbell-fd"
    );
}

#[test]
fn unparsable_peer_id_unsets_it() {
    let r = parse_args(&args(&[
        "--hub-path=x",
        "--peer-id=4",
        "--peer-id=70000",
        "--doorbell-fd=3",
    ]));
    assert_eq!(hub_args_error(r), "Missing --peer-id");
}

#[test]
fn integer_parsing_matches_std() {
    for s in ["0", "65535", "+7", "007", "65536", "", "+", "-0", "1a", " 1", "-1"] {
        assert_eq!(parse_u16(s), s.parse::<u16>().ok(), "u16 {:?}", s);
    }
    for s in [
        "0", "-0", "+5", "-2147483648", "2147483647", "2147483648", "-2147483649", "-", "--1",
        "12x", "",
    ] {
        assert_eq!(parse_i32(s), s.parse::<i32>().ok(), "i32 {:?}", s);
    }
}

#[test]
fn method_table_routes_to_services() {
    let mut b = DispatcherBuilder::new();
    assert_eq!(b.add_service(&[10, 11]), Ok(0));
    assert_eq!(b.add_service(&[20]), Ok(1));
    assert_eq!(b.lookup(10), Some(0));
    assert_eq!(b.lookup(11), Some(0));
    assert_eq!(b.lookup(20), Some(1));
    assert_eq!(b.lookup(30), None);
}

#[test]
fn method_table_refuses_collisions() {
    let mut b = DispatcherBuilder::new();
    assert_eq!(b.add_service(&[10, 11]), Ok(0));
    assert_eq!(b.add_service(&[12, 11, 13]), Err(11));
    assert_eq!(b.lookup(12), None);
    assert_eq!(b.add_service(&[5, 6, 5]), Err(5));
    assert_eq!(b.add_service(&[12]), Ok(1));
}

#[test]
fn unimplemented_method_messages() {
    match unimplemented_method(42, Some("Calc.add")) {
        RpcError::Status { code, message } => {
            assert_eq!(code, ErrorCode::Unimplemented);
            assert_eq!(
                message,
                "Method 'Calc.add' (id=42) exists in registry but is not implemented by any service in this cell"
            );
        }
        other => panic!("{:?}", other),
    }
    match unimplemented_method(7, None) {
        RpcError::Status { message, .. } => {
            assert_eq!(message, "Unknown method_id: 7 (not registered in global registry)");
        }
        other => panic!("{:?}", other),
    }
}

#[test]
fn cell_errors_wrap() {
    let e: CellError = TransportError::Closed.into();
    assert!(matches!(e, CellError::Transport(TransportError::Closed)));
    let e: CellError = RpcError::Cancelled.into();
    assert!(matches!(e, CellError::Rpc(RpcError::Cancelled)));
}

#[test]
fn truthy_environment_values() {
    assert!(!is_truthy(None));
    assert!(!is_truthy(Some("")));
    assert!(!is_truthy(Some("0")));
    assert!(!is_truthy(Some("false")));
    assert!(!is_truthy(Some("FaLsE")));
    assert!(is_truthy(Some("1")));
    assert!(is_truthy(Some("yes")));
    assert!(is_truthy(Some("falsey")));
    assert!(is_truthy(Some("00")));
}

#[test]
fn ready_pacing() {
    assert_eq!(ready_timeout_ms(Some(5), Some(7)), 5);
    assert_eq!(ready_timeout_ms(None, Some(7)), 7);
    assert_eq!(ready_timeout_ms(None, None), 10_000);
    assert_eq!(next_ready_delay(10), 20);
    assert_eq!(next_ready_delay(80), 160);
    assert_eq!(next_ready_delay(160), 200);
    assert_eq!(next_ready_delay(200), 200);
}

use rapace::cell::{address_response, hub_wait_checks, hub_wait_step, HubWaitStep};

#[test]
fn hub_wait_checks_every_hundred_ms() {
    assert_eq!(hub_wait_checks(5_000), 50);
    assert_eq!(hub_wait_checks(99), 0);
    assert_eq!(hub_wait_step(0, 3, true), HubWaitStep::Found);
    assert_eq!(hub_wait_step(0, 3, false), HubWaitStep::SleepThenCheck);
    assert_eq!(hub_wait_step(1, 3, false), HubWaitStep::SleepThenCheck);
    assert_eq!(hub_wait_step(2, 3, false), HubWaitStep::TimedOut);
    assert_eq!(hub_wait_step(2, 3, true), HubWaitStep::Found);
}

#[test]
fn cell_error_messages() {
    assert_eq!(CellError::Args("bad flag".to_string()).to_string(), "Argument error: bad flag");
    assert_eq!(
        CellError::HubTimeout("/tmp/hub".to_string()).to_string(),
        "Hub file not created by host: /tmp/hub"
    );
    assert_eq!(CellError::HubOpen("gone".to_string()).to_string(), "Failed to open hub: gone");
    assert_eq!(CellError::HubArgs("no id".to_string()).to_string(), "Hub argument error: no id");
    assert_eq!(CellError::DoorbellFd("-1".to_string()).to_string(), "Doorbell fd error: -1");
    assert_eq!(CellError::Rpc(RpcError::DeadlineExceeded).to_string(), "RPC error: DeadlineExceeded");
    assert_eq!(CellError::Transport(TransportError::Closed).to_string(), "Transport error: Closed");
}

#[test]
fn responses_go_back_to_the_request() {
    let mut req = rapace::descriptor::MsgDescHot::new();
    req.channel_id = 7;
    req.msg_id = 41;
    let mut d = rapace::descriptor::MsgDescHot::new();
    d.method_id = 5;
    let resp = rapace::frame::Frame::for_payload(d, b"ok".to_vec());
    let r = address_response(resp, &req);
    assert_eq!((r.desc.channel_id, r.desc.msg_id, r.desc.method_id), (7, 41, 5));
    assert_eq!(r.payload_bytes(), b"ok");
}
