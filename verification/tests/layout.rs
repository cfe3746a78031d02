use rapace::descriptor::MsgDescHot;
use rapace::shm::layout::{
    calculate_segment_size, calculate_segment_size_checked, is_power_of_two, DataSegment,
    DataSegmentHeader, DescRing, DescRingHeader, LayoutError, RingError, SegmentHeader,
    SegmentOffsets, SlotError, DEFAULT_RING_CAPACITY, DEFAULT_SLOT_COUNT, DEFAULT_SLOT_SIZE,
};
use rapace::shm::slab::{SlotMeta, SlotState};

#[test]
fn test_segment_header_size() {
    assert_eq!(core::mem::size_of::<SegmentHeader>(), 128);
}

#[test]
fn test_desc_ring_header_size() {
    assert_eq!(core::mem::size_of::<DescRingHeader>(), 192);
}

#[test]
fn test_slot_meta_size() {
    assert_eq!(core::mem::size_of::<SlotMeta>(), 8);
}

#[test]
fn test_data_segment_header_size() {
    assert_eq!(core::mem::size_of::<DataSegmentHeader>(), 64);
}

#[test]
fn test_calculate_segment_size() {
    let size = calculate_segment_size(DEFAULT_RING_CAPACITY, DEFAULT_SLOT_SIZE, DEFAULT_SLOT_COUNT);
    assert!(size > 0);
    assert_eq!(size, 296000);
}

#[test]
fn test_segment_offsets() {
    let offsets = SegmentOffsets::calculate(DEFAULT_RING_CAPACITY, DEFAULT_SLOT_COUNT);

    assert_eq!(offsets.header, 0);
    assert_eq!(offsets.ring_a_to_b_header, 128);
    assert_eq!(offsets.ring_a_to_b_descs, 128 + 192);
    assert_eq!(offsets.ring_b_to_a_header, 320 + 16384);
}

#[test]
fn test_segment_header_validate() {
    let mut header = SegmentHeader::default();
    header.init(DEFAULT_RING_CAPACITY, DEFAULT_SLOT_SIZE, DEFAULT_SLOT_COUNT);
    assert!(header.validate().is_ok());

    header.magic[0] = b'X';
    assert!(matches!(header.validate(), Err(LayoutError::InvalidMagic)));
}

#[test]
fn stress_alloc_enqueue_dequeue_free_single_threaded() {
    let slot_count = 16u32;
    let ring_capacity = 32u32;
    let mut data_segment = DataSegment::new(64, slot_count);
    let mut ring = DescRing::new(ring_capacity);

    let mut local_head = 0u64;
    let iterations = 1000;

    for i in 0..iterations {
        let (slot_idx, slot_gen) = data_segment.allocate().expect("alloc should succeed");

        let mut desc = MsgDescHot::new();
        desc.channel_id = i as u32;
        desc.payload_slot = slot_idx;
        desc.payload_generation = slot_gen;

        data_segment
            .mark_in_flight(slot_idx, slot_gen)
            .expect("mark_in_flight should succeed");
        ring.enqueue(&mut local_head, &desc)
            .expect("enqueue should succeed");

        let dequeued = ring.dequeue().expect("dequeue should return descriptor");
        assert_eq!(dequeued.channel_id, i as u32);
        data_segment
            .free(dequeued.payload_slot, dequeued.payload_generation)
            .expect("free should succeed");
    }

    assert!(ring.dequeue().is_none());
}

#[test]
fn stress_no_slot_leak() {
    let slot_count = 8u32;
    let mut data_segment = DataSegment::new(64, slot_count);

    let mut handles = Vec::new();
    for _ in 0..slot_count {
        let result = data_segment.allocate();
        assert!(result.is_ok(), "should be able to allocate all slots");
        handles.push(result.unwrap());
    }

    assert!(
        matches!(data_segment.allocate(), Err(SlotError::NoFreeSlots)),
        "should be out of slots"
    );

    for (idx, generation) in handles {
        data_segment
            .free_allocated(idx, generation)
            .expect("free_allocated should succeed");
    }

    for _ in 0..slot_count {
        let result = data_segment.allocate();
        assert!(result.is_ok(), "should be able to reallocate all slots");
    }
}

#[test]
fn segment_header_reports_version_mismatch_and_config() {
    let mut header = SegmentHeader::default();
    header.init(64, 1024, 8);
    assert_eq!(header.config(), (64, 1024, 8));
    header.version = 0x0002_0000;
    assert_eq!(
        header.validate(),
        Err(LayoutError::IncompatibleVersion { expected: 0x0001_0000, found: 0x0002_0000 })
    );
}

#[test]
fn zeroed_header_has_bad_magic() {
    let header = SegmentHeader::default();
    assert_eq!(header.validate(), Err(LayoutError::InvalidMagic));
}

#[test]
fn segment_size_formula_for_small_segment() {
    // 128 + 2 * (192 + 4 * 64) + 64 + 2 * 8 + 2 * 100
    assert_eq!(calculate_segment_size(4, 100, 2), 128 + 2 * (192 + 256) + 64 + 16 + 200);
    assert_eq!(calculate_segment_size_checked(4, 100, 2), Ok(1304));
}

#[test]
fn segment_offsets_are_contiguous() {
    let o = SegmentOffsets::calculate(8, 3);
    assert_eq!(o.ring_a_to_b_descs, o.ring_a_to_b_header + 192);
    assert_eq!(o.ring_b_to_a_header, o.ring_a_to_b_descs + 8 * 64);
    assert_eq!(o.ring_b_to_a_descs, o.ring_b_to_a_header + 192);
    assert_eq!(o.data_header, o.ring_b_to_a_descs + 8 * 64);
    assert_eq!(o.slot_meta, o.data_header + 64);
    assert_eq!(o.slot_data, o.slot_meta + 3 * 8);
}

#[test]
fn desc_ring_is_fifo_and_reports_full() {
    let mut ring = DescRing::new(2);
    let mut head = 0u64;
    let mut a = MsgDescHot::new();
    a.channel_id = 1;
    let mut b = MsgDescHot::new();
    b.channel_id = 2;
    let mut c = MsgDescHot::new();
    c.channel_id = 3;
    assert!(ring.is_empty());
    assert!(ring.enqueue(&mut head, &a).is_ok());
    assert!(ring.enqueue(&mut head, &b).is_ok());
    assert_eq!(ring.enqueue(&mut head, &c), Err(RingError::Full));
    let status = ring.ring_status();
    assert_eq!(status.len, 2);
    assert_eq!(status.capacity, 2);
    assert_eq!(ring.dequeue().unwrap().channel_id, 1);
    assert!(ring.enqueue(&mut head, &c).is_ok());
    assert_eq!(ring.dequeue().unwrap().channel_id, 2);
    assert_eq!(ring.dequeue().unwrap().channel_id, 3);
    assert!(ring.dequeue().is_none());
    assert_eq!(ring.capacity(), 2);
}

#[test]
fn data_segment_refuses_stale_generation_and_bad_index() {
    let mut seg = DataSegment::new(128, 2);
    let (idx, generation) = seg.allocate().unwrap();
    assert_eq!(idx, 0);
    assert_eq!(seg.mark_in_flight(idx, generation.wrapping_add(1)), Err(SlotError::StaleGeneration));
    assert_eq!(seg.mark_in_flight(7, generation), Err(SlotError::InvalidIndex));
    assert!(seg.mark_in_flight(idx, generation).is_ok());
    assert!(seg.free(idx, generation).is_ok());
    // The freed slot's generation moved on: the old handle is refused.
    assert_eq!(seg.free(idx, generation), Err(SlotError::StaleGeneration));
    let status = seg.slot_status();
    assert_eq!(status.total, 2);
    assert_eq!(status.free, 2);
    assert_eq!(seg.slot_size(), 128);
    assert_eq!(seg.slot_count(), 2);
}

#[test]
fn free_in_wrong_state_is_invalid_state() {
    let mut seg = DataSegment::new(16, 1);
    let (idx, generation) = seg.allocate().unwrap();
    // Allocated, not in flight: `free` wants an in-flight slot.
    assert_eq!(seg.free(idx, generation), Err(SlotError::InvalidState));
    assert!(seg.free_allocated(idx, generation).is_ok());
}

#[test]
fn slot_meta_starts_free() {
    let meta = SlotMeta::new();
    assert_eq!(meta.generation(), 0);
    assert_eq!(meta.state(), SlotState::Free);
}

#[test]
fn power_of_two_check() {
    assert!(is_power_of_two(1));
    assert!(is_power_of_two(256));
    assert!(!is_power_of_two(0));
    assert!(!is_power_of_two(96));
}

#[test]
fn slot_data_reads_back_what_was_written() {
    let mut seg = DataSegment::new(8, 3);
    let (a, ga) = seg.allocate().unwrap();
    let (b, gb) = seg.allocate().unwrap();
    assert!(seg.copy_to_slot(a, b"hello").is_ok());
    assert!(seg.copy_to_slot(b, b"12345678").is_ok());
    // Not in flight yet: reading is refused.
    assert_eq!(seg.read_slot(a, ga, 0, 5), Err(SlotError::InvalidState));
    seg.mark_in_flight(a, ga).unwrap();
    seg.mark_in_flight(b, gb).unwrap();
    assert_eq!(seg.read_slot(a, ga, 0, 5).unwrap(), b"hello");
    assert_eq!(seg.read_slot(a, ga, 5, 3).unwrap(), &[0, 0, 0]);
    assert_eq!(seg.read_slot(b, gb, 2, 3).unwrap(), b"345");
    assert_eq!(seg.read_slot(b, gb + 1, 0, 1), Err(SlotError::StaleGeneration));
    assert_eq!(
        seg.read_slot(b, gb, 4, 5),
        Err(SlotError::PayloadTooLarge { len: 9, max: 8 })
    );
    assert_eq!(seg.read_slot(9, 0, 0, 1), Err(SlotError::InvalidIndex));
}

#[test]
fn slot_copy_checks_index_and_size() {
    let mut seg = DataSegment::new(4, 1);
    assert_eq!(seg.copy_to_slot(1, b"ab"), Err(SlotError::InvalidIndex));
    assert_eq!(
        seg.copy_to_slot(0, b"abcde"),
        Err(SlotError::PayloadTooLarge { len: 5, max: 4 })
    );
    assert!(seg.copy_to_slot(0, b"abcd").is_ok());
}

use rapace::frame::Frame;
use rapace::shm::pipe::{PipeSendError, SegmentPipe};

fn frame_with(channel_id: u32, payload: Vec<u8>) -> Frame {
    let mut d = MsgDescHot::new();
    d.channel_id = channel_id;
    d.msg_id = channel_id as u64 + 100;
    Frame::for_payload(d, payload)
}

#[test]
fn segment_pipe_delivers_frames_in_order_with_payloads() {
    let mut pipe = SegmentPipe::new(4, 32, 2);
    pipe.send(&frame_with(1, b"tiny".to_vec())).unwrap();
    pipe.send(&frame_with(2, vec![9u8; 20])).unwrap();
    pipe.send(&frame_with(3, vec![5u8; 32])).unwrap();
    assert_eq!(pipe.len(), 3);

    let a = pipe.recv().unwrap();
    assert_eq!((a.desc.channel_id, a.desc.msg_id), (1, 101));
    assert_eq!(a.payload_bytes(), b"tiny");
    let b = pipe.recv().unwrap();
    assert_eq!(b.desc.channel_id, 2);
    assert_eq!(b.payload_bytes(), &[9u8; 20][..]);
    assert_eq!((b.desc.payload_slot, b.desc.payload_offset, b.desc.payload_len), (0, 0, 20));
    let c = pipe.recv().unwrap();
    assert_eq!(c.payload_bytes(), &[5u8; 32][..]);
    assert!(pipe.recv().is_none());
}

#[test]
fn segment_pipe_refusals() {
    let mut pipe = SegmentPipe::new(2, 16, 1);
    assert_eq!(
        pipe.send(&frame_with(1, vec![0u8; 17])),
        Err(PipeSendError::Slot(SlotError::PayloadTooLarge { len: 17, max: 16 }))
    );
    let mut pipe = SegmentPipe::new(3, 32, 1);
    pipe.send(&frame_with(1, vec![1u8; 20])).unwrap();
    assert_eq!(
        pipe.send(&frame_with(2, vec![2u8; 20])),
        Err(PipeSendError::Slot(SlotError::NoFreeSlots))
    );
    pipe.send(&frame_with(3, b"inline".to_vec())).unwrap();
    pipe.send(&frame_with(4, b"x".to_vec())).unwrap();
    assert_eq!(pipe.send(&frame_with(5, b"y".to_vec())), Err(PipeSendError::Ring(RingError::Full)));
    // Receiving the slot frame frees its slot for the next one.
    assert_eq!(pipe.recv().unwrap().payload_bytes(), &[1u8; 20][..]);
    pipe.send(&frame_with(6, vec![6u8; 20])).unwrap();
    assert_eq!(pipe.recv().unwrap().payload_bytes(), b"inline");
    assert_eq!(pipe.recv().unwrap().payload_bytes(), b"x");
    assert_eq!(pipe.recv().unwrap().payload_bytes(), &[6u8; 20][..]);
}

use rapace::shm::layout::{RingStatus, SlotStatus};

#[test]
fn layout_messages() {
    assert_eq!(LayoutError::InvalidMagic.to_string(), "invalid magic bytes");
    assert_eq!(
        LayoutError::IncompatibleVersion { expected: 0x0001_0000, found: 0x0002_0003 }.to_string(),
        "incompatible version: expected 1.0, found 2.3"
    );
    assert_eq!(
        LayoutError::SegmentTooSmall { required: 4096, found: 100 }.to_string(),
        "segment too small: need 4096 bytes, got 100"
    );
    assert_eq!(
        LayoutError::InvalidConfig("slot_size must be > 0").to_string(),
        "invalid config: slot_size must be > 0"
    );
    assert_eq!(RingError::Full.to_string(), "ring is full");
    assert_eq!(
        SlotError::PayloadTooLarge { len: 9, max: 8 }.to_string(),
        "payload too large for slot: 9 bytes, max 8"
    );
    assert_eq!(SlotError::InvalidIndex.to_string(), "invalid slot index");
}

#[test]
fn status_lines() {
    let ring = RingStatus { visible_head: 10, tail: 7, capacity: 8, len: 3 };
    assert_eq!(ring.to_string(), "head=10 tail=7 len=3/8 (37%)");
    let empty = RingStatus { visible_head: 0, tail: 0, capacity: 0, len: 0 };
    assert_eq!(empty.to_string(), "head=0 tail=0 len=0/0 (0%)");
    let ok = SlotStatus { total: 4, free: 2, allocated: 1, in_flight: 1, unknown: 0, free_list_len: 2 };
    assert_eq!(ok.to_string(), "slots: 2/4 free, 1 allocated, 1 in_flight (free_list_len=2)");
    let odd = SlotStatus { total: 4, free: 2, allocated: 1, in_flight: 0, unknown: 1, free_list_len: 1 };
    assert_eq!(
        odd.to_string(),
        "slots: 2/4 free, 1 allocated, 0 in_flight (free_list_len=1), 1 UNKNOWN [MISMATCH: free=2 != free_list=1]"
    );
}

#[test]
fn valid_header_gives_its_configuration() {
    let mut header = SegmentHeader::default();
    header.init(256, 4096, 32);
    assert_eq!(header.validate(), Ok((256, 4096, 32)));
}
