use rapace::descriptor::{MsgDescHot, INLINE_PAYLOAD_SLOT};
use rapace::error::{EncodeError, TransportError, ValidationError};
use rapace::shm::hub_alloc::{hub_size_class, HubAllocator, HubSlotError};
use rapace::shm::hub_session::{
    extent_offsets, hub_peer_rings, peer_ring_offsets, slots_per_extent, HubConfig, HubSessionError,
    PeerInfo,
};
use rapace::shm::hub_transport::{
    detach_slot_payload, set_inline_payload, set_slot_payload, slot_error_to_transport,
};
use rapace::shm::metrics::ShmMetrics;
use rapace::shm::slot_guard::SlotGuard;

#[test]
fn size_classes() {
    assert_eq!(hub_size_class(0), (1024, 1024));
    assert_eq!(hub_size_class(4), (16777216, 4));
    let a = HubAllocator::new();
    assert_eq!(a.find_class_for_size(0), Some(0));
    assert_eq!(a.find_class_for_size(1024), Some(0));
    assert_eq!(a.find_class_for_size(1025), Some(1));
    assert_eq!(a.find_class_for_size(16777216), Some(4));
    assert_eq!(a.find_class_for_size(16777217), None);
    assert_eq!(a.slot_size(2), 262144);
}

#[test]
fn hub_allocation_cycle() {
    let mut a = HubAllocator::new();
    let (class, index, generation) = a.allocate(100, 7).unwrap();
    assert_eq!(class, 0);
    assert!(a.mark_in_flight(class, index, generation).is_ok());
    assert!(a.free(class, index, generation).is_ok());
    // The freed slot moved to the next generation: the old reference is stale.
    assert_eq!(a.free(class, index, generation), Err(HubSlotError::StaleGeneration));
}

#[test]
fn oversized_payload_is_refused() {
    let mut a = HubAllocator::new();
    assert_eq!(
        a.allocate(16777217, 1),
        Err(HubSlotError::PayloadTooLarge { len: 16777217, max: 16777216 })
    );
}

#[test]
fn allocation_spills_into_larger_classes() {
    let mut a = HubAllocator::new();
    for _ in 0..4 {
        let (class, _, _) = a.allocate(16777216, 1).unwrap();
        assert_eq!(class, 4);
    }
    assert_eq!(a.allocate(16777216, 1), Err(HubSlotError::NoFreeSlots));
    for _ in 0..8 {
        assert_eq!(a.allocate(4194304, 1).unwrap().0, 3);
    }
    assert_eq!(a.allocate(4194304, 1), Err(HubSlotError::NoFreeSlots));
}

#[test]
fn reclaiming_a_peer_frees_its_slots() {
    let mut a = HubAllocator::new();
    let mut held = Vec::new();
    for _ in 0..4 {
        held.push(a.allocate(16777216, 9).unwrap());
    }
    assert_eq!(a.allocate(16777216, 1), Err(HubSlotError::NoFreeSlots));
    a.reclaim_peer_slots(9);
    assert_eq!(a.allocate(16777216, 1).unwrap().0, 4);
}

#[test]
fn slot_guard_frees_and_counts() {
    let mut a = HubAllocator::new();
    let mut m = ShmMetrics::new();
    let (class, index, generation) = a.allocate(10, 2).unwrap();
    a.mark_in_flight(class, index, generation).unwrap();
    let guard = SlotGuard::new(class, index, generation, 10, true);
    assert_eq!(guard.len(), 10);
    assert!(!guard.is_empty());
    assert!(guard.free(&mut a, &mut m).is_ok());
    assert_eq!(m.slot_frees, 1);
    let stale = SlotGuard::new(class, index, generation, 10, true);
    assert_eq!(stale.free(&mut a, &mut m), Err(HubSlotError::StaleGeneration));
    assert_eq!(m.slot_frees, 1);
}

#[test]
fn slot_errors_as_transport_errors() {
    assert!(matches!(
        slot_error_to_transport(HubSlotError::NoFreeSlots),
        TransportError::Encode(EncodeError::NoSlotAvailable)
    ));
    assert!(matches!(
        slot_error_to_transport(HubSlotError::PayloadTooLarge { len: 9, max: 4 }),
        TransportError::Validation(ValidationError::PayloadTooLarge { len: 9, max: 4 })
    ));
    match slot_error_to_transport(HubSlotError::InvalidExtent) {
        TransportError::Encode(EncodeError::EncodeFailed(m)) => assert_eq!(m, "invalid extent"),
        other => panic!("{:?}", other),
    }
}

#[test]
fn metrics_count_with_wrapping() {
    let mut m = ShmMetrics::new();
    m.record_zero_copy(100);
    m.record_copy(7);
    m.record_alloc_success();
    m.record_alloc_failure();
    m.record_ring_full();
    assert_eq!(m.zero_copy_count(), 1);
    assert_eq!(m.zero_copy_bytes, 100);
    assert_eq!(m.copy_count(), 1);
    assert_eq!(m.copied_bytes, 7);
    assert_eq!(m.alloc_success_count(), 1);
    assert_eq!(m.alloc_failure_count(), 1);
    assert_eq!(m.ring_full_count(), 1);
    m.ring_enqueues = u64::MAX;
    m.record_ring_enqueue();
    assert_eq!(m.ring_enqueues, 0);
}

#[test]
fn inline_payload_preparation() {
    let mut d = MsgDescHot::new();
    d.payload_slot = 3;
    d.payload_generation = 9;
    d.payload_offset = 100;
    d.msg_id = 77;
    set_inline_payload(&mut d, b"hello");
    assert_eq!(d.payload_slot, INLINE_PAYLOAD_SLOT);
    assert_eq!((d.payload_generation, d.payload_offset, d.payload_len), (0, 0, 5));
    assert_eq!(&d.inline_payload[..5], b"hello");
    assert_eq!(d.msg_id, 77);
}

#[test]
fn slot_payload_preparation_and_detach() {
    let mut d = MsgDescHot::new();
    set_slot_payload(&mut d, 0x0001_0002, 4, 5000);
    assert_eq!((d.payload_slot, d.payload_generation, d.payload_offset, d.payload_len), (0x0001_0002, 4, 0, 5000));
    detach_slot_payload(&mut d, 5000);
    assert_eq!((d.payload_slot, d.payload_generation, d.payload_offset, d.payload_len), (0, 0, 0, 5000));
}

#[test]
fn hub_peer_checks_and_ring_offsets() {
    let config = HubConfig { max_peers: 4, ring_capacity: 8 };
    assert!(config.check_peer_id(3).is_ok());
    assert!(matches!(config.check_peer_id(4), Err(HubSessionError::InvalidPeerId)));
    assert!(matches!(config.check_new_peer(4), Err(HubSessionError::TooManyPeers)));
    // Each ring is 192 + 8 * 64 = 704 bytes; peer 2's rings follow 4 rings.
    assert_eq!(peer_ring_offsets(1000, 8, 2), (1000 + 4 * 704, 1000 + 5 * 704));
    assert_eq!(peer_ring_offsets(0, 8, 0), (0, 704));
}

#[test]
fn hub_session_error_messages() {
    assert_eq!(HubSessionError::TooManyPeers.to_string(), "too many peers");
    assert_eq!(HubSessionError::InvalidPeerId.to_string(), "invalid peer id");
    assert_eq!(HubSessionError::Layout("bad".to_string()).to_string(), "layout error: bad");
    let io = HubSessionError::Io(std::io::Error::new(std::io::ErrorKind::Other, "boom"));
    assert_eq!(io.to_string(), "I/O error: boom");
}

use rapace::shm::hub_transport::PeerDeathLatch;

#[test]
fn peer_death_is_reported_once() {
    let mut latch = PeerDeathLatch::new();
    assert!(!latch.on_signal(false));
    assert!(latch.on_signal(true));
    assert!(!latch.on_signal(true));
    assert!(!latch.on_signal(false));
    assert!(!latch.on_signal(true));
}

use rapace::shm::hub_transport::{hub_send_step, HubSendAction, HubSendEvent, HubSendState};

fn send_desc() -> MsgDescHot {
    let mut d = MsgDescHot::new();
    d.channel_id = 3;
    d.method_id = 9;
    d
}

#[test]
fn hub_send_small_payload_goes_inline() {
    let (s, a) = hub_send_step(
        HubSendState::Idle,
        HubSendEvent::Send { desc: send_desc(), payload: b"hi".to_vec(), closed: false },
    );
    let d = match a {
        HubSendAction::Enqueue { desc, wait: false } => desc,
        other => panic!("unexpected {:?}", other),
    };
    assert_eq!(d.payload_slot, INLINE_PAYLOAD_SLOT);
    assert_eq!(d.payload_len, 2);
    assert_eq!(&d.inline_payload[..2], b"hi");
    let (s, a) = hub_send_step(s, HubSendEvent::Enqueued { ok: true, closed: false });
    assert!(matches!(a, HubSendAction::Signal));
    let (s, a) = hub_send_step(s, HubSendEvent::Signaled { peer_dead: false });
    assert!(matches!(a, HubSendAction::Finish(Ok(()))));
    assert!(matches!(s, HubSendState::Idle));
}

#[test]
fn hub_send_large_payload_takes_a_slot() {
    let (s, a) = hub_send_step(
        HubSendState::Idle,
        HubSendEvent::Send { desc: send_desc(), payload: vec![1u8; 100], closed: false },
    );
    assert!(matches!(a, HubSendAction::Allocate { len: 100, wait: false }));
    let (s, a) = hub_send_step(
        s,
        HubSendEvent::Allocated { result: Err(HubSlotError::NoFreeSlots), elapsed_ms: 5, closed: false },
    );
    assert!(matches!(a, HubSendAction::Allocate { len: 100, wait: true }));
    let (s, a) = hub_send_step(
        s,
        HubSendEvent::Allocated { result: Ok((1, 7, 4)), elapsed_ms: 60, closed: false },
    );
    assert!(matches!(a, HubSendAction::CopyAndMark { class: 1, index: 7, generation: 4 }));
    let (s, a) = hub_send_step(s, HubSendEvent::Marked { result: Ok(()), slot_ref: 0x0001_0007 });
    let d = match a {
        HubSendAction::Enqueue { desc, wait: false } => desc,
        other => panic!("unexpected {:?}", other),
    };
    assert_eq!((d.payload_slot, d.payload_generation, d.payload_len), (0x0001_0007, 4, 100));
    assert_eq!((d.channel_id, d.method_id), (3, 9));
    let (s, a) = hub_send_step(s, HubSendEvent::Enqueued { ok: false, closed: false });
    assert!(matches!(a, HubSendAction::Enqueue { wait: true, .. }));
    let (s, _) = hub_send_step(s, HubSendEvent::Enqueued { ok: true, closed: false });
    let (_, a) = hub_send_step(s, HubSendEvent::Signaled { peer_dead: true });
    assert!(matches!(a, HubSendAction::Finish(Err(TransportError::Closed))));
}

#[test]
fn hub_send_gives_up_on_slots_after_ten_seconds() {
    let s = HubSendState::Allocating { desc: send_desc(), len: 100 };
    let (_, a) = hub_send_step(
        s,
        HubSendEvent::Allocated { result: Err(HubSlotError::NoFreeSlots), elapsed_ms: 10_000, closed: false },
    );
    assert!(matches!(
        a,
        HubSendAction::Finish(Err(TransportError::Encode(EncodeError::NoSlotAvailable)))
    ));
    let (_, a) = hub_send_step(
        s,
        HubSendEvent::Allocated { result: Err(HubSlotError::NoFreeSlots), elapsed_ms: 10, closed: true },
    );
    assert!(matches!(a, HubSendAction::Finish(Err(TransportError::Closed))));
    let (_, a) = hub_send_step(
        s,
        HubSendEvent::Allocated {
            result: Err(HubSlotError::PayloadTooLarge { len: 100, max: 64 }),
            elapsed_ms: 0,
            closed: false,
        },
    );
    assert!(matches!(a, HubSendAction::Finish(Err(TransportError::Validation(_)))));
}

#[test]
fn hub_send_on_closed_transport_fails() {
    let (_, a) = hub_send_step(
        HubSendState::Idle,
        HubSendEvent::Send { desc: send_desc(), payload: vec![], closed: true },
    );
    assert!(matches!(a, HubSendAction::Finish(Err(TransportError::Closed))));
    let s = HubSendState::Marking { desc: send_desc(), class: 0, index: 1, generation: 2, len: 40 };
    let (_, a) = hub_send_step(s, HubSendEvent::Marked { result: Err(HubSlotError::StaleGeneration), slot_ref: 0 });
    assert!(matches!(a, HubSendAction::Finish(Err(TransportError::Validation(_)))));
}

#[test]
fn every_peer_gets_its_pair_of_rings() {
    // A ring of 4 descriptors takes 192 + 4 * 64 = 448 bytes.
    let rings = hub_peer_rings(1000, 4, 3);
    assert_eq!(rings, vec![(1000, 1448), (1896, 2344), (2792, 3240)]);
    assert_eq!(rings[2], peer_ring_offsets(1000, 4, 2));
    assert!(hub_peer_rings(1000, 4, 0).is_empty());
}

#[test]
fn extents_follow_one_another() {
    assert_eq!(extent_offsets(5000, &vec![100, 200, 50]), vec![5000, 5100, 5300]);
    assert!(extent_offsets(5000, &vec![]).is_empty());
}

#[test]
fn extent_room_is_the_next_power_of_two() {
    assert_eq!(slots_per_extent(0), 1);
    assert_eq!(slots_per_extent(1), 1);
    assert_eq!(slots_per_extent(5), 8);
    assert_eq!(slots_per_extent(8), 8);
    assert_eq!(slots_per_extent(1024), 1024);
    assert_eq!(slots_per_extent(1025), 2048);
    for class in 0..5 {
        let (_, count) = hub_size_class(class);
        assert!(slots_per_extent(count) >= count);
    }
}

#[test]
fn peer_info_carries_the_doorbell() {
    let info = PeerInfo { peer_id: 3, doorbell: 7u8, peer_doorbell_fd: 11 };
    assert_eq!((info.peer_id, info.doorbell, info.peer_doorbell_fd), (3, 7, 11));
}
