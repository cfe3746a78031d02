use rapace::descriptor::{MsgDescHot, INLINE_PAYLOAD_SLOT, NO_DEADLINE};
use rapace::flags::{Encoding, FrameFlags, ALL_BITS, DATA_BIT, EOS_BIT};
use rapace::tracing::{event_message, Field};

#[test]
fn flag_set_operations() {
    let mut f = FrameFlags::data();
    assert!(f.contains(FrameFlags::data()));
    assert!(!f.contains(FrameFlags::eos()));
    f.insert(FrameFlags::eos());
    assert_eq!(f.bits(), DATA_BIT | EOS_BIT);
    assert!(f.intersects(FrameFlags::eos()));
    f.remove(FrameFlags::data());
    assert_eq!(f.bits(), EOS_BIT);
    assert!(FrameFlags::empty().is_empty());
    assert!(FrameFlags::from_bits(0x400).is_none());
    assert_eq!(FrameFlags::from_bits(0x3).map(|f| f.bits()), Some(0x3));
    assert_eq!(FrameFlags::from_bits_truncate(0xFFFF_FFFF).bits(), ALL_BITS);
    assert_eq!(FrameFlags::from_bits_retain(0x400).bits(), 0x400);
}

#[test]
fn encodings_from_numbers() {
    for v in 0u16..8 {
        if let Some(e) = Encoding::from_u16(v) {
            assert_eq!(e.to_u16(), v);
        }
    }
    assert!(Encoding::from_u16(0xFFFF).is_none());
}

#[test]
fn descriptor_queries() {
    let mut d = MsgDescHot::new();
    assert_eq!(d.payload_slot, INLINE_PAYLOAD_SLOT);
    assert!(d.is_inline());
    assert!(d.is_control());
    assert!(!d.has_deadline());
    assert!(!d.is_expired(u64::MAX));
    d.deadline_ns = 1000;
    assert!(d.has_deadline());
    assert!(!d.is_expired(1000));
    assert!(d.is_expired(1001));
    d.payload_len = 2;
    d.inline_payload[0] = 9;
    d.inline_payload[1] = 8;
    assert_eq!(d.inline_payload(), &[9, 8]);
    d.channel_id = 3;
    assert!(!d.is_control());
    d.deadline_ns = NO_DEADLINE;
    assert!(!d.has_deadline());
}

#[test]
fn event_message_is_first_message_field() {
    let fields = vec![
        Field { name: "user".to_string(), value: "ana".to_string() },
        Field { name: "message".to_string(), value: "logged in".to_string() },
        Field { name: "message".to_string(), value: "second".to_string() },
    ];
    assert_eq!(event_message(&fields), "logged in");
    assert_eq!(event_message(&vec![]), "");
}

use rapace::buffer_pool::{BufferPool, PooledBuf};
use rapace::pooled_writer::PooledWriter;

#[test]
fn pooled_writer_stays_pooled_within_capacity() {
    let pool = BufferPool::with_capacity(1, 8);
    let mut w = PooledWriter::new(pool.get());
    w.write_bytes(b"abc");
    w.write_byte(b'd');
    w.write_bytes(b"efgh");
    let buf = w.into_pooled_buf(&pool);
    assert_eq!(buf.as_slice(), b"abcdefgh");
    assert!(buf.is_pooled());
}

#[test]
fn pooled_writer_overflows_to_heap_keeping_all_bytes() {
    let pool = BufferPool::with_capacity(1, 4);
    let mut w = PooledWriter::new(pool.get());
    w.write_bytes(b"abc");
    w.write_bytes(&[7u8; 100]);
    w.write_byte(b'h');
    let buf = w.into_pooled_buf(&pool);
    assert_eq!(buf.len(), 104);
    assert_eq!(&buf.as_slice()[..3], b"abc");
    assert_eq!(buf.as_slice()[103], b'h');
    assert!(!buf.is_pooled());
    assert_eq!(buf.pool_buffer_size(), 4);

    let mut w = PooledWriter::new(pool.get());
    for i in 0..200u32 {
        w.write_byte((i % 256) as u8);
    }
    let buf = w.into_pooled_buf(&pool);
    assert_eq!(buf.len(), 200);
    assert_eq!(buf.as_slice()[199], 199);
    assert!(!buf.is_pooled());
}

use rapace::frame::{Frame, Payload};

#[test]
fn inline_frames_hold_up_to_sixteen_bytes() {
    let mut d = MsgDescHot::new();
    d.msg_id = 5;
    let f = Frame::with_inline_payload(d, b"sixteen bytes!!!").unwrap();
    assert_eq!(f.payload_bytes(), b"sixteen bytes!!!");
    assert!(f.payload.is_inline());
    assert_eq!(f.desc.msg_id, 5);
    assert_eq!(f.desc.payload_len, 16);
    assert!(Frame::with_inline_payload(d, b"seventeen bytes!!").is_none());
}

#[test]
fn frames_for_payloads_choose_inline_or_owned() {
    let small = Frame::for_payload(MsgDescHot::new(), b"hi".to_vec());
    assert!(small.payload.is_inline());
    assert_eq!(small.payload_bytes(), b"hi");
    let big = Frame::for_payload(MsgDescHot::new(), vec![7u8; 100]);
    assert!(!big.payload.is_inline());
    assert_eq!(big.desc.payload_slot, 0);
    assert_eq!(big.desc.payload_len, 100);
    assert_eq!(big.payload.len(&big.desc), 100);
    assert_eq!(big.payload_bytes(), &[7u8; 100][..]);
    let copy = small.to_owned();
    assert!(matches!(copy.payload, Payload::Owned(ref v) if v == b"hi"));
    let pool = BufferPool::with_capacity(1, 64);
    let pooled = Frame::with_pooled_payload(MsgDescHot::new(), PooledBuf::from_slice(&pool, b"pool"));
    assert_eq!(pooled.payload.external_slice(), Some(&b"pool"[..]));
    assert_eq!(Frame::new(MsgDescHot::new()).payload_bytes(), b"");
}

use rapace::tracing::FieldVisitor;

#[test]
fn field_visitor_renders_values_as_text() {
    let mut v = FieldVisitor::new();
    v.record_str("user", "ana");
    v.record_i64("delta", -42);
    v.record_i64("min", i64::MIN);
    v.record_u64("count", 7);
    v.record_bool("ok", true);
    v.record_debug("opt", "Some(1)".to_string());
    let rendered: Vec<(&str, &str)> =
        v.fields.iter().map(|f| (f.name.as_str(), f.value.as_str())).collect();
    assert_eq!(
        rendered,
        vec![
            ("user", "ana"),
            ("delta", "-42"),
            ("min", "-9223372036854775808"),
            ("count", "7"),
            ("ok", "true"),
            ("opt", "Some(1)"),
        ]
    );
    assert_eq!(event_message(&v.fields), "");
}

use rapace::tracing::{EventMeta, HostTracingSink, SpanMeta, TraceRecord};

fn span_meta(name: &str) -> SpanMeta {
    SpanMeta {
        name: name.to_string(),
        target: "app".to_string(),
        level: "INFO".to_string(),
        file: None,
        line: Some(7),
        fields: vec![],
    }
}

#[test]
fn host_sink_numbers_spans_from_one() {
    let mut sink = HostTracingSink::new();
    assert_eq!(sink.new_span(span_meta("a")), 1);
    assert_eq!(sink.new_span(span_meta("b")), 2);
    sink.enter(2);
    sink.exit(2);
    sink.drop_span(1);
    let records = sink.records();
    assert_eq!(records.len(), 5);
    assert!(matches!(&records[0], TraceRecord::NewSpan { id: 1, meta } if meta.name == "a"));
    assert!(matches!(&records[1], TraceRecord::NewSpan { id: 2, .. }));
    assert!(matches!(records[2], TraceRecord::Enter { span_id: 2 }));
    assert!(matches!(records[3], TraceRecord::Exit { span_id: 2 }));
    assert!(matches!(records[4], TraceRecord::DropSpan { span_id: 1 }));
}

#[test]
fn host_sink_clear_keeps_numbering() {
    let mut sink = HostTracingSink::default();
    sink.new_span(span_meta("a"));
    sink.record(1, vec![Field { name: "k".to_string(), value: "v".to_string() }]);
    sink.event(EventMeta {
        message: "hi".to_string(),
        target: "app".to_string(),
        level: "WARN".to_string(),
        file: None,
        line: None,
        fields: vec![],
        parent_span_id: Some(1),
    });
    assert_eq!(sink.records().len(), 3);
    sink.clear();
    assert!(sink.records().is_empty());
    assert_eq!(sink.new_span(span_meta("c")), 2);
}

use rapace::frame::{ReceivedFrame, TunnelChunk};

#[test]
fn tunnel_chunk_flags_and_bytes() {
    let mut d = MsgDescHot::new();
    d.flags = FrameFlags::data().union(FrameFlags::eos());
    let chunk = TunnelChunk { frame: Frame::for_payload(d, b"tail".to_vec()) };
    assert!(chunk.is_eos());
    assert!(!chunk.is_error());
    assert_eq!(chunk.payload_bytes(), b"tail");
    let mut d = MsgDescHot::new();
    d.flags = FrameFlags::error();
    let chunk = TunnelChunk { frame: Frame::new(d) };
    assert!(chunk.is_error());
    assert!(!chunk.is_eos());
}

#[test]
fn received_frame_accessors() {
    let mut d = MsgDescHot::new();
    d.channel_id = 9;
    d.method_id = 0xABCD;
    d.flags = FrameFlags::response();
    let f = ReceivedFrame { frame: Frame::for_payload(d, vec![1, 2, 3]) };
    assert_eq!(f.channel_id(), 9);
    assert_eq!(f.method_id(), 0xABCD);
    assert_eq!(f.flags(), FrameFlags::response());
    assert_eq!(f.payload_bytes(), &[1, 2, 3]);
}

use rapace::tracing::{layer_enabled, max_level_enabled, Level, LevelFilter};

#[test]
fn layer_skips_internal_targets() {
    assert!(!layer_enabled("rapace_core::session", Level::Error, None));
    assert!(!layer_enabled("rapace_tracing", Level::Error, None));
    assert!(!layer_enabled("rapace_transport_shm::hub", Level::Warn, Some(LevelFilter::Trace)));
    assert!(layer_enabled("rapace_cell", Level::Info, None));
}

#[test]
fn layer_applies_the_max_level() {
    assert!(layer_enabled("app", Level::Warn, Some(LevelFilter::Warn)));
    assert!(layer_enabled("app", Level::Error, Some(LevelFilter::Warn)));
    assert!(!layer_enabled("app", Level::Debug, Some(LevelFilter::Warn)));
    assert!(!layer_enabled("app", Level::Error, Some(LevelFilter::Off)));
    assert!(layer_enabled("app", Level::Trace, None));
    assert!(max_level_enabled(LevelFilter::Info, Some(LevelFilter::Trace)));
    assert!(!max_level_enabled(LevelFilter::Trace, Some(LevelFilter::Info)));
}

use rapace::tracing::SpanIds;

#[test]
fn span_ids_live_from_creation_to_close() {
    let mut ids = SpanIds::new();
    assert_eq!(ids.local_id(40), None);
    ids.on_new_span(40, 1);
    ids.on_new_span(41, 2);
    assert_eq!(ids.local_id(40), Some(1));
    assert_eq!(ids.on_record(41, 2), Some(2));
    assert_eq!(ids.on_record(41, 0), None);
    assert_eq!(ids.on_record(99, 1), None);
    assert_eq!(ids.on_close(40), Some(1));
    assert_eq!(ids.local_id(40), None);
    assert_eq!(ids.on_close(40), None);
    assert_eq!(ids.local_id(41), Some(2));
}

#[test]
fn event_meta_takes_its_message_from_fields() {
    let fields = vec![
        Field { name: "user".to_string(), value: "ann".to_string() },
        Field { name: "message".to_string(), value: "logged in".to_string() },
    ];
    let e = EventMeta::from_fields(
        "app".to_string(),
        "INFO".to_string(),
        Some("main.rs".to_string()),
        Some(3),
        fields,
        Some(7),
    );
    assert_eq!(e.message, "logged in");
    assert_eq!(e.fields.len(), 2);
    assert_eq!(e.parent_span_id, Some(7));
    let quiet = EventMeta::from_fields("app".to_string(), "WARN".to_string(), None, None, vec![], None);
    assert_eq!(quiet.message, "");
}
