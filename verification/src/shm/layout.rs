//! Shared-memory segment layout: the segment header, the descriptor rings,
//! the data segment (slab of payload slots), and the size and offset
//! computations for a segment.
//!
//! ```text
//! segment header (128 bytes)
//! A->B ring: header (192 bytes) + capacity x 64-byte descriptors
//! B->A ring: header (192 bytes) + capacity x 64-byte descriptors
//! data segment header (64 bytes)
//! slot metadata (slot_count x 8 bytes)
//! slot data (slot_count x slot_size bytes)
//! ```

use vstd::prelude::*;

use crate::descriptor::{is_fresh_desc, MsgDescHot};
use crate::text::{decimal_text, push_decimal};
use crate::shm::ring::{SpscRing, SpscRingHeader};
use crate::shm::slab::{
    alloc_run, alloc_step, check_handle, free_run, mark_step, release_step, slab_wf, SlabError, SlabView, SlotHandle,
    SlotMeta,
    SlotState, TreiberSlab, TreiberSlabHeader,
};

verus! {

/// Header of a descriptor ring.
pub type DescRingHeader = SpscRingHeader;

/// Header of the data segment.
pub type DataSegmentHeader = TreiberSlabHeader;

/// Current protocol version: major in the high 16 bits, minor in the low 16.
pub const PROTOCOL_VERSION: u32 = 0x0001_0000;

/// Default descriptor ring capacity.
pub const DEFAULT_RING_CAPACITY: u32 = 256;

/// Default slot size in bytes.
pub const DEFAULT_SLOT_SIZE: u32 = 4096;

/// Default number of slots.
pub const DEFAULT_SLOT_COUNT: u32 = 64;

/// Size of the segment header in bytes.
pub const SEGMENT_HEADER_SIZE: usize = 128;

/// Size of a descriptor ring header in bytes.
pub const RING_HEADER_SIZE: usize = 192;

/// Size of one descriptor in bytes.
pub const DESC_SIZE: usize = 64;

/// Size of the data segment header in bytes.
pub const DATA_HEADER_SIZE: usize = 64;

/// Size of one slot's metadata in bytes.
pub const SLOT_META_SIZE: usize = 8;

/// The magic bytes `RAPACE\0\0` that open a segment.
pub open spec fn magic_bytes() -> Seq<u8> {
    seq![82u8, 65u8, 80u8, 65u8, 67u8, 69u8, 0u8, 0u8]
}

/// The magic bytes `RAPACE\0\0`.
pub fn magic() -> (r: [u8; 8])
    ensures
        r@ == magic_bytes(),
{
    let r: [u8; 8] = [82, 65, 80, 65, 67, 69, 0, 0];
    assert(r@ =~= magic_bytes());
    r
}

/// `n` is a power of two.
pub open spec fn is_pow2(n: nat) -> bool
    decreases n,
{
    if n == 1 {
        true
    } else if n < 2 || n % 2 != 0 {
        false
    } else {
        is_pow2(n / 2)
    }
}

/// True when `x` is a power of two.
pub fn is_power_of_two(x: u32) -> (r: bool)
    ensures
        r == is_pow2(x as nat),
{
    if x == 0 {
        return false;
    }
    let mut v = x;
    while v > 1 && v % 2 == 0
        invariant
            v >= 1,
            is_pow2(v as nat) == is_pow2(x as nat),
        decreases v,
    {
        v = v / 2;
    }
    v == 1
}

/// Segment header at the start of the shared-memory region (128 bytes):
/// version, configuration, peer liveness and signal words.
#[derive(Clone, Copy, Debug)]
pub struct SegmentHeader {
    /// Magic bytes `RAPACE\0\0`.
    pub magic: [u8; 8],
    /// Protocol version (major.minor packed).
    pub version: u32,
    /// Feature flags.
    pub flags: u32,
    /// Descriptor ring capacity (a power of two).
    pub ring_capacity: u32,
    /// Size of each data slot in bytes.
    pub slot_size: u32,
    /// Number of data slots.
    pub slot_count: u32,
    /// Reserved.
    pub _config_reserved: u32,
    /// Incremented by peer A periodically.
    pub peer_a_epoch: u64,
    /// Incremented by peer B periodically.
    pub peer_b_epoch: u64,
    /// Last heartbeat of peer A (nanoseconds since the epoch).
    pub peer_a_last_seen: u64,
    /// Last heartbeat of peer B (nanoseconds since the epoch).
    pub peer_b_last_seen: u64,
    /// A signals after enqueue to the A->B ring.
    pub a_to_b_data_futex: u32,
    /// B signals after dequeue from the A->B ring.
    pub a_to_b_space_futex: u32,
    /// B signals after enqueue to the B->A ring.
    pub b_to_a_data_futex: u32,
    /// A signals after dequeue from the B->A ring.
    pub b_to_a_space_futex: u32,
    /// Padding to 128 bytes.
    pub _pad: [u8; 48],
}

/// Errors from layout validation.
#[derive(Clone, Copy, Debug, PartialEq, Eq)]
pub enum LayoutError {
    /// Invalid magic bytes.
    InvalidMagic,
    /// Incompatible protocol version.
    IncompatibleVersion { expected: u32, found: u32 },
    /// Segment too small.
    SegmentTooSmall { required: usize, found: usize },
    /// Invalid configuration in the header.
    InvalidConfig(&'static str),
}

/// The configuration fields of a header after `init` with these arguments.
pub open spec fn header_initialized(h: SegmentHeader, ring_capacity: u32, slot_size: u32, slot_count: u32) -> bool {
    &&& h.magic@ == magic_bytes()
    &&& h.version == PROTOCOL_VERSION
    &&& h.flags == 0
    &&& h.ring_capacity == ring_capacity
    &&& h.slot_size == slot_size
    &&& h.slot_count == slot_count
    &&& h._config_reserved == 0
    &&& h.peer_a_epoch == 0
    &&& h.peer_b_epoch == 0
    &&& h.peer_a_last_seen == 0
    &&& h.peer_b_last_seen == 0
    &&& h.a_to_b_data_futex == 0
    &&& h.a_to_b_space_futex == 0
    &&& h.b_to_a_data_futex == 0
    &&& h.b_to_a_space_futex == 0
    &&& h._pad@ == Seq::new(48, |i: int| 0u8)
}

/// Which check a header fails first, if any: magic, then major version,
/// then ring capacity, slot size and slot count.
pub open spec fn header_validation(h: SegmentHeader) -> Option<LayoutError> {
    if h.magic@ != magic_bytes() {
        Some(LayoutError::InvalidMagic)
    } else if h.version >> 16u32 != 1 {
        Some(LayoutError::IncompatibleVersion { expected: PROTOCOL_VERSION, found: h.version })
    } else {
        None
    }
}

impl SegmentHeader {
    /// Initialize the header with the given configuration: magic, version,
    /// configuration fields, and zeroed liveness and signal words.
    pub fn init(&mut self, ring_capacity: u32, slot_size: u32, slot_count: u32)
        ensures
            header_initialized(*final(self), ring_capacity, slot_size, slot_count),
    {
        self.magic = magic();
        self.version = PROTOCOL_VERSION;
        self.flags = 0;
        self.ring_capacity = ring_capacity;
        self.slot_size = slot_size;
        self.slot_count = slot_count;
        self._config_reserved = 0;
        self.peer_a_epoch = 0;
        self.peer_b_epoch = 0;
        self.peer_a_last_seen = 0;
        self.peer_b_last_seen = 0;
        self.a_to_b_data_futex = 0;
        self.a_to_b_space_futex = 0;
        self.b_to_a_data_futex = 0;
        self.b_to_a_space_futex = 0;
        self._pad = [0u8; 48];
        assert(self._pad@ =~= Seq::new(48, |i: int| 0u8));
    }

    /// Validate the header: magic bytes, major version, then a non-zero
    /// power-of-two ring capacity, a non-zero slot size and slot count. A
    /// valid header gives its configuration: (ring capacity, slot size, slot
    /// count).
    pub fn validate(&self) -> (r: Result<(u32, u32, u32), LayoutError>)
        ensures
            header_validation(*self) matches Some(e) ==> r == Err::<(u32, u32, u32), LayoutError>(e),
            header_validation(*self) is None ==> {
                if !is_pow2(self.ring_capacity as nat) {
                    r == Err::<(u32, u32, u32), LayoutError>(LayoutError::InvalidConfig("ring_capacity must be non-zero power of 2"))
                } else if self.slot_size == 0 {
                    r == Err::<(u32, u32, u32), LayoutError>(LayoutError::InvalidConfig("slot_size must be > 0"))
                } else if self.slot_count == 0 {
                    r == Err::<(u32, u32, u32), LayoutError>(LayoutError::InvalidConfig("slot_count must be > 0"))
                } else {
                    r == Ok::<(u32, u32, u32), LayoutError>(
                        (self.ring_capacity, self.slot_size, self.slot_count),
                    )
                }
            },
    {
        let m = magic();
        let mut i: usize = 0;
        while i < 8
            invariant
                i <= 8,
                m@ == magic_bytes(),
                forall|j: int| 0 <= j < i ==> self.magic@[j] == m@[j],
            decreases 8 - i,
        {
            if self.magic[i] != m[i] {
                return Err(LayoutError::InvalidMagic);
            }
            i = i + 1;
        }
        assert(self.magic@ =~= magic_bytes());
        let major = self.version >> 16u32;
        let our_major = PROTOCOL_VERSION >> 16u32;
        assert(our_major == 1) by (bit_vector)
            requires
                our_major == 0x0001_0000u32 >> 16u32,
        ;
        if major != our_major {
            return Err(
                LayoutError::IncompatibleVersion { expected: PROTOCOL_VERSION, found: self.version },
            );
        }
        if !is_power_of_two(self.ring_capacity) || self.ring_capacity == 0 {
            return Err(LayoutError::InvalidConfig("ring_capacity must be non-zero power of 2"));
        }
        if self.slot_size == 0 {
            return Err(LayoutError::InvalidConfig("slot_size must be > 0"));
        }
        if self.slot_count == 0 {
            return Err(LayoutError::InvalidConfig("slot_count must be > 0"));
        }
        Ok((self.ring_capacity, self.slot_size, self.slot_count))
    }

    /// The configuration: (ring capacity, slot size, slot count).
    pub fn config(&self) -> (r: (u32, u32, u32))
        ensures
            r == (self.ring_capacity, self.slot_size, self.slot_count),
    {
        (self.ring_capacity, self.slot_size, self.slot_count)
    }
}

impl Default for SegmentHeader {
    /// An all-zero header.
    fn default() -> (r: Self)
        ensures
            r.magic@ == Seq::new(8, |i: int| 0u8),
            r.version == 0,
            r.ring_capacity == 0,
            r.slot_size == 0,
            r.slot_count == 0,
    {
        let r = SegmentHeader {
            magic: [0u8; 8],
            version: 0,
            flags: 0,
            ring_capacity: 0,
            slot_size: 0,
            slot_count: 0,
            _config_reserved: 0,
            peer_a_epoch: 0,
            peer_b_epoch: 0,
            peer_a_last_seen: 0,
            peer_b_last_seen: 0,
            a_to_b_data_futex: 0,
            a_to_b_space_futex: 0,
            b_to_a_data_futex: 0,
            b_to_a_space_futex: 0,
            _pad: [0u8; 48],
        };
        assert(r.magic@ =~= Seq::new(8, |i: int| 0u8));
        r
    }
}

/// A header initialized with a valid configuration passes validation.
pub proof fn lemma_init_then_validate(h: SegmentHeader, ring_capacity: u32, slot_size: u32, slot_count: u32)
    requires
        header_initialized(h, ring_capacity, slot_size, slot_count),
    ensures
        header_validation(h) is None,
{
    assert(PROTOCOL_VERSION >> 16u32 == 1) by (bit_vector);
}

/// Errors from ring operations.
#[derive(Clone, Copy, Debug, PartialEq, Eq, Structural)]
pub enum RingError {
    /// The ring is full.
    Full,
}

/// Snapshot of a descriptor ring's positions.
#[derive(Clone, Copy, Debug, PartialEq, Eq, Structural)]
pub struct RingStatus {
    /// Producer's published head: items `0..visible_head` have been enqueued.
    pub visible_head: u64,
    /// Consumer's tail: items `0..tail` have been dequeued.
    pub tail: u64,
    /// Ring capacity.
    pub capacity: u32,
    /// Current length (`visible_head - tail`).
    pub len: u32,
}

/// A descriptor ring.
pub struct DescRing {
    inner: SpscRing<MsgDescHot>,
}

impl DescRing {
    /// The invariant of the underlying ring.
    pub closed spec fn wf(&self) -> bool {
        self.inner.wf()
    }

    /// The descriptors in the ring, oldest first.
    pub closed spec fn view(&self) -> Seq<MsgDescHot> {
        self.inner@
    }

    /// Ring capacity.
    pub closed spec fn spec_capacity(&self) -> nat {
        self.inner.spec_capacity()
    }

    /// The producer's published head.
    pub closed spec fn spec_head(&self) -> u64 {
        self.inner.spec_head()
    }

    /// The consumer's tail.
    pub closed spec fn spec_tail(&self) -> u64 {
        self.inner.spec_tail()
    }

    /// The positions of a well-formed ring: the tail never passes the head,
    /// the ring holds `head - tail` descriptors, at most its capacity, which
    /// is positive.
    pub proof fn lemma_positions(&self)
        requires
            self.wf(),
        ensures
            self.spec_tail() <= self.spec_head(),
            self@.len() == self.spec_head() - self.spec_tail(),
            self@.len() <= self.spec_capacity(),
            self.spec_capacity() > 0,
    {
        self.inner.lemma_positions();
    }

    /// An empty ring of `capacity` descriptors.
    pub fn new(capacity: u32) -> (r: Self)
        requires
            capacity > 0,
        ensures
            r.wf(),
            r@.len() == 0,
            r.spec_capacity() == capacity,
            r.spec_head() == 0,
            r.spec_tail() == 0,
    {
        DescRing { inner: SpscRing::new(capacity, MsgDescHot::new()) }
    }

    /// Enqueue a descriptor (producer side). `local_head` is the producer's
    /// private head; on success it is advanced and published.
    pub fn enqueue(&mut self, local_head: &mut u64, desc: &MsgDescHot) -> (r: Result<(), RingError>)
        requires
            old(self).wf(),
            *old(local_head) == old(self).spec_head(),
            old(self).spec_head() < u64::MAX,
        ensures
            *final(local_head) == final(self).spec_head(),
            enqueue_post(*old(self), *final(self), *desc, r),
    {
        proof {
            old(self).lemma_positions();
        }
        match self.inner.enqueue(local_head, *desc) {
            Ok(()) => Ok(()),
            Err(_) => Err(RingError::Full),
        }
    }

    /// Dequeue the oldest descriptor (consumer side), if any.
    pub fn dequeue(&mut self) -> (r: Option<MsgDescHot>)
        requires
            old(self).wf(),
        ensures
            dequeue_post(*old(self), *final(self), r),
    {
        self.inner.dequeue()
    }

    /// True when the ring holds no descriptor.
    pub fn is_empty(&self) -> (r: bool)
        requires
            self.wf(),
        ensures
            r == (self@.len() == 0),
    {
        self.inner.is_empty()
    }

    /// Ring capacity.
    pub fn capacity(&self) -> (r: u32)
        ensures
            r == self.spec_capacity(),
    {
        self.inner.capacity()
    }

    /// Snapshot of the ring's head, tail, capacity and length.
    pub fn ring_status(&self) -> (r: RingStatus)
        requires
            self.wf(),
        ensures
            r.visible_head == self.spec_head(),
            r.tail == self.spec_tail(),
            r.capacity == self.spec_capacity(),
            r.len == self@.len(),
            r.tail <= r.visible_head,
            r.len == r.visible_head - r.tail,
            r.len <= r.capacity,
    {
        proof {
            self.lemma_positions();
        }
        let s = self.inner.status();
        RingStatus { visible_head: s.visible_head, tail: s.tail, capacity: s.capacity, len: s.len }
    }
}

/// What an `enqueue` of `d` that returned `r` makes of the ring `before`:
/// it succeeds exactly when fewer than `capacity` descriptors are queued;
/// on success `d` is queued behind the others and the head advances, on
/// failure (`Full`) nothing changes. Capacity and tail stay.
pub open spec fn enqueue_post(before: DescRing, after: DescRing, d: MsgDescHot, r: Result<(), RingError>) -> bool {
    &&& after.wf()
    &&& after.spec_capacity() == before.spec_capacity()
    &&& after.spec_tail() == before.spec_tail()
    &&& (r is Ok) == (before.spec_head() - before.spec_tail() < before.spec_capacity())
    &&& r is Ok ==> {
        &&& after@ == before@.push(d)
        &&& after.spec_head() == before.spec_head() + 1
    }
    &&& r is Err ==> {
        &&& r == Err::<(), RingError>(RingError::Full)
        &&& after@ == before@
        &&& after.spec_head() == before.spec_head()
    }
}

/// What a `dequeue` that returned `r` makes of the ring `before`: from an
/// empty ring `None` and no change; otherwise the oldest descriptor, which
/// leaves the ring, and the tail advances. Capacity and head stay.
pub open spec fn dequeue_post(before: DescRing, after: DescRing, r: Option<MsgDescHot>) -> bool {
    &&& after.wf()
    &&& after.spec_capacity() == before.spec_capacity()
    &&& after.spec_head() == before.spec_head()
    &&& before@.len() == 0 ==> {
        &&& r is None
        &&& after@ == before@
        &&& after.spec_tail() == before.spec_tail()
    }
    &&& before@.len() > 0 ==> {
        &&& r == Some(before@[0])
        &&& after@ == before@.drop_first()
        &&& after.spec_tail() == before.spec_tail() + 1
    }
}

/// The first `k` enqueues of a run into an empty ring all succeed, and leave
/// the first `k` items queued.
proof fn lemma_fifo_fill(
    states: Seq<DescRing>,
    items: Seq<MsgDescHot>,
    enq: Seq<Result<(), RingError>>,
    k: nat,
)
    requires
        states.len() > items.len(),
        enq.len() == items.len(),
        k <= items.len(),
        states[0].wf(),
        states[0]@.len() == 0,
        items.len() <= states[0].spec_capacity(),
        forall|i: int| 0 <= i < items.len() ==> enqueue_post(#[trigger] states[i], states[i + 1], items[i], enq[i]),
    ensures
        states[k as int].wf(),
        states[k as int]@ == items.take(k as int),
        states[k as int].spec_capacity() == states[0].spec_capacity(),
        forall|i: int| 0 <= i < k ==> #[trigger] enq[i] is Ok,
    decreases k,
{
    if k > 0 {
        let i = k - 1;
        lemma_fifo_fill(states, items, enq, i as nat);
        states[i].lemma_positions();
        assert(enqueue_post(states[i], states[i + 1], items[i], enq[i]));
        assert(items.take(k as int) =~= items.take(i).push(items[i]));
    } else {
        assert(items.take(0) =~= states[0]@);
    }
}

/// The first `j` dequeues after the run of enqueues give the first `j` items
/// back, in order, and leave the rest queued.
proof fn lemma_fifo_drain(
    states: Seq<DescRing>,
    items: Seq<MsgDescHot>,
    deq: Seq<Option<MsgDescHot>>,
    j: nat,
)
    requires
        states.len() == 2 * items.len() + 1,
        deq.len() == items.len(),
        j <= items.len(),
        states[items.len() as int].wf(),
        states[items.len() as int]@ == items,
        forall|i: int| 0 <= i < items.len() ==> dequeue_post(
            #[trigger] states[items.len() + i],
            states[items.len() + i + 1],
            deq[i],
        ),
    ensures
        states[items.len() + j as int].wf(),
        states[items.len() + j as int]@ == items.skip(j as int),
        forall|i: int| 0 <= i < j ==> #[trigger] deq[i] == Some(items[i]),
    decreases j,
{
    let n = items.len() as int;
    if j > 0 {
        let i = j - 1;
        lemma_fifo_drain(states, items, deq, i as nat);
        assert(dequeue_post(states[n + i], states[n + i + 1], deq[i]));
        assert(items.skip(i)[0] == items[i]);
        assert(items.skip(j as int) =~= items.skip(i).drop_first());
    } else {
        assert(items.skip(0) =~= items);
    }
}

/// First in, first out over a run of calls. Into an empty ring, the items
/// `items` (no more than its capacity) are enqueued one by one, then as many
/// dequeues follow; `states` are the ring before and after each call, each
/// call relating them as its contract states, `enq` and `deq` what the calls
/// returned. Then every enqueue succeeded, the dequeues gave the items back
/// in the order they went in, and the ring is empty again, so that the next
/// dequeue gives nothing.
pub proof fn lemma_desc_ring_fifo(
    states: Seq<DescRing>,
    items: Seq<MsgDescHot>,
    enq: Seq<Result<(), RingError>>,
    deq: Seq<Option<MsgDescHot>>,
)
    requires
        states.len() == 2 * items.len() + 1,
        enq.len() == items.len(),
        deq.len() == items.len(),
        states[0].wf(),
        states[0]@.len() == 0,
        items.len() <= states[0].spec_capacity(),
        forall|i: int| 0 <= i < items.len() ==> enqueue_post(#[trigger] states[i], states[i + 1], items[i], enq[i]),
        forall|i: int| 0 <= i < items.len() ==> dequeue_post(
            #[trigger] states[items.len() + i],
            states[items.len() + i + 1],
            deq[i],
        ),
    ensures
        forall|i: int| 0 <= i < items.len() ==> #[trigger] enq[i] is Ok,
        forall|i: int| 0 <= i < items.len() ==> #[trigger] deq[i] == Some(items[i]),
        states[2 * items.len() as int]@.len() == 0,
{
    let n = items.len();
    lemma_fifo_fill(states, items, enq, n);
    assert(items.take(n as int) =~= items);
    lemma_fifo_drain(states, items, deq, n);
    assert(items.skip(n as int).len() == 0);
}

/// Errors from slot operations.
#[derive(Clone, Copy, Debug, PartialEq, Eq, Structural)]
pub enum SlotError {
    /// No free slots available.
    NoFreeSlots,
    /// Invalid slot index.
    InvalidIndex,
    /// Generation mismatch (stale reference).
    StaleGeneration,
    /// Slot in an unexpected state.
    InvalidState,
    /// Payload too large for a slot.
    PayloadTooLarge { len: usize, max: usize },
}

/// The slot error that reports a slab error.
pub open spec fn slot_error_of(e: SlabError) -> SlotError {
    match e {
        SlabError::InvalidIndex => SlotError::InvalidIndex,
        SlabError::GenerationMismatch { .. } => SlotError::StaleGeneration,
        SlabError::InvalidState { .. } => SlotError::InvalidState,
    }
}

/// The slot error that reports a slab error.
pub fn convert_slot_error(e: SlabError) -> (r: SlotError)
    ensures
        r == slot_error_of(e),
{
    match e {
        SlabError::InvalidIndex => SlotError::InvalidIndex,
        SlabError::GenerationMismatch { .. } => SlotError::StaleGeneration,
        SlabError::InvalidState { .. } => SlotError::InvalidState,
    }
}

/// A slab result seen as a slot result.
pub open spec fn slot_result(r: Result<(), SlabError>) -> Result<(), SlotError> {
    match r {
        Ok(()) => Ok(()),
        Err(e) => Err(slot_error_of(e)),
    }
}

/// Counts of slots in each state.
#[derive(Clone, Copy, Debug, PartialEq, Eq, Structural)]
pub struct SlotStatus {
    /// Total number of slots.
    pub total: u32,
    /// Slots in `Free` state.
    pub free: u32,
    /// Slots in `Allocated` state.
    pub allocated: u32,
    /// Slots in `InFlight` state.
    pub in_flight: u32,
    /// Slots in an unknown state (always 0).
    pub unknown: u32,
    /// Length of the free list.
    pub free_list_len: u32,
}

/// Number of slots among `slots` in state `s`.
pub open spec fn count_state(slots: Seq<SlotMeta>, s: SlotState) -> nat
    decreases slots.len(),
{
    if slots.len() == 0 {
        0
    } else {
        count_state(slots.drop_last(), s) + (if slots.last().state == s {
            1nat
        } else {
            0nat
        })
    }
}

proof fn lemma_count_state_bound(slots: Seq<SlotMeta>, s: SlotState)
    ensures
        count_state(slots, s) <= slots.len(),
    decreases slots.len(),
{
    if slots.len() > 0 {
        lemma_count_state_bound(slots.drop_last(), s);
    }
}

/// The data segment: a slab of payload slots with a slot-availability signal.
pub struct DataSegment {
    inner: TreiberSlab,
    data: Vec<u8>,
}

/// `d` with the bytes from `start` on overwritten by `src`.
pub open spec fn write_bytes(d: Seq<u8>, start: int, src: Seq<u8>) -> Seq<u8> {
    d.take(start) + src + d.skip(start + src.len())
}

/// The bytes of slot `index` in the slot data `d` of slots of `size` bytes.
pub open spec fn slot_bytes(d: Seq<u8>, size: u32, index: int) -> Seq<u8> {
    d.subrange(index * size, (index + 1) * size)
}

/// Slot `index` of `count` slots of `size` bytes ends within the slot data.
pub proof fn lemma_slot_in_data(index: int, count: int, size: int)
    requires
        0 <= index < count,
        0 <= size,
    ensures
        0 <= index * size,
        index * size + size == (index + 1) * size,
        (index + 1) * size <= count * size,
{
    assert(index * size + size == (index + 1) * size) by (nonlinear_arith);
    assert((index + 1) * size <= count * size) by (nonlinear_arith)
        requires
            index + 1 <= count,
            0 <= size,
    ;
    assert(0 <= index * size) by (nonlinear_arith)
        requires
            0 <= index,
            0 <= size,
    ;
}

impl DataSegment {
    /// The invariant of the slab; the slot data holds every slot's bytes.
    pub closed spec fn wf(&self) -> bool {
        &&& self.inner.wf()
        &&& self.data@.len() == self.inner@.slots.len() * self.inner.spec_slot_size()
    }

    /// The bytes of all slots, slot after slot.
    pub closed spec fn spec_data(&self) -> Seq<u8> {
        self.data@
    }

    /// A well-formed segment has a well-formed slab view and slot data for
    /// every slot.
    pub proof fn lemma_view_wf(&self)
        requires
            self.wf(),
        ensures
            slab_wf(self@),
            self.spec_data().len() == self@.slots.len() * self.spec_slot_size(),
    {
        self.inner.lemma_view_wf();
    }

    /// No slot leaks over a run of calls. `allocate` moves the view as
    /// `alloc_step` does and `free_allocated` as `release_step` does, so from
    /// this segment, whose `f` slots are free: `f` allocations in a row
    /// succeed with distinct slots, the next fails and changes nothing, and
    /// once those slots are freed `f` slots are free again and another `f`
    /// allocations succeed. A fresh segment has all its slots free.
    pub proof fn lemma_no_slot_leak(&self)
        requires
            self.wf(),
        ensures
            ({
                let f = self@.free.len();
                let (v2, hs) = alloc_run(self@, f);
                let v3 = free_run(v2, hs);
                &&& hs.len() == f
                &&& forall|j: int, k: int| 0 <= j < k < hs.len() ==> (#[trigger] hs[j]).index
                    != (#[trigger] hs[k]).index
                &&& alloc_step(v2).1 is None
                &&& alloc_step(v2).0 == v2
                &&& slab_wf(v3)
                &&& v3.free.len() == f
                &&& alloc_run(v3, f).1.len() == f
            }),
    {
        self.lemma_view_wf();
        crate::shm::slab::lemma_no_slot_leak(self@);
    }

    /// Abstract state: slot metadata and free list.
    pub closed spec fn view(&self) -> SlabView {
        self.inner@
    }

    /// Size of each slot in bytes.
    pub closed spec fn spec_slot_size(&self) -> u32 {
        self.inner.spec_slot_size()
    }

    /// The slot-availability signal word, bumped by every successful free.
    pub closed spec fn spec_slot_available(&self) -> u32 {
        self.inner.spec_slot_available()
    }

    /// A data segment of `slot_count` free slots of `slot_size` bytes, its free
    /// list initialized to hand out slot 0 first.
    pub fn new(slot_size: u32, slot_count: u32) -> (r: Self)
        requires
            slot_count * slot_size <= usize::MAX,
        ensures
            r.wf(),
            r.spec_slot_size() == slot_size,
            r.spec_slot_available() == 0,
            r@.slots == Seq::new(slot_count as nat, |i: int| SlotMeta { generation: 0, state: SlotState::Free }),
            r@.free == Seq::new(slot_count as nat, |k: int| (slot_count - 1 - k) as u32),
            r.spec_data() == Seq::new((slot_count * slot_size) as nat, |i: int| 0u8),
    {
        let n = slot_count as usize * slot_size as usize;
        let mut data: Vec<u8> = Vec::new();
        let mut i: usize = 0;
        while i < n
            invariant
                i <= n,
                data@ == Seq::new(i as nat, |k: int| 0u8),
            decreases n - i,
        {
            data.push(0u8);
            i = i + 1;
            assert(data@ =~= Seq::new(i as nat, |k: int| 0u8));
        }
        DataSegment { inner: TreiberSlab::new(slot_size, slot_count), data }
    }

    /// Allocate a slot, returning (slot index, generation).
    pub fn allocate(&mut self) -> (r: Result<(u32, u32), SlotError>)
        requires
            old(self).wf(),
        ensures
            final(self).spec_data() == old(self).spec_data(),
            final(self).wf(),
            final(self).spec_slot_size() == old(self).spec_slot_size(),
            final(self).spec_slot_available() == old(self).spec_slot_available(),
            final(self)@ == alloc_step(old(self)@).0,
            match alloc_step(old(self)@).1 {
                Some(h) => r == Ok::<(u32, u32), SlotError>((h.index, h.generation)),
                None => r == Err::<(u32, u32), SlotError>(SlotError::NoFreeSlots),
            },
    {
        proof {
            self.inner.lemma_view_wf();
        }
        match self.inner.try_alloc() {
            Some(h) => Ok((h.index, h.generation)),
            None => Err(SlotError::NoFreeSlots),
        }
    }

    /// Mark an allocated slot in flight (after enqueuing its descriptor).
    pub fn mark_in_flight(&mut self, index: u32, expected_gen: u32) -> (r: Result<(), SlotError>)
        requires
            old(self).wf(),
        ensures
            final(self).spec_data() == old(self).spec_data(),
            final(self).wf(),
            final(self).spec_slot_size() == old(self).spec_slot_size(),
            final(self).spec_slot_available() == old(self).spec_slot_available(),
            r == slot_result(check_handle(old(self)@, SlotHandle { index, generation: expected_gen }, SlotState::Allocated)),
            final(self)@ == mark_step(old(self)@, SlotHandle { index, generation: expected_gen }),
    {
        match self.inner.mark_in_flight(SlotHandle { index, generation: expected_gen }) {
            Ok(()) => Ok(()),
            Err(e) => Err(convert_slot_error(e)),
        }
    }

    /// Free an in-flight slot (receiver side, after processing); the slot goes
    /// back on the free list and the availability signal is bumped.
    pub fn free(&mut self, index: u32, expected_gen: u32) -> (r: Result<(), SlotError>)
        requires
            old(self).wf(),
        ensures
            final(self).spec_data() == old(self).spec_data(),
            final(self).wf(),
            final(self).spec_slot_size() == old(self).spec_slot_size(),
            r == slot_result(check_handle(old(self)@, SlotHandle { index, generation: expected_gen }, SlotState::InFlight)),
            final(self)@ == release_step(old(self)@, SlotHandle { index, generation: expected_gen }, SlotState::InFlight),
            final(self).spec_slot_available() == (if r is Ok {
                vstd::wrapping::u32_specs::wrapping_add(old(self).spec_slot_available(), 1)
            } else {
                old(self).spec_slot_available()
            }),
    {
        match self.inner.free(SlotHandle { index, generation: expected_gen }) {
            Ok(()) => Ok(()),
            Err(e) => Err(convert_slot_error(e)),
        }
    }

    /// Free a slot still in `Allocated` state (never sent).
    pub fn free_allocated(&mut self, index: u32, expected_gen: u32) -> (r: Result<(), SlotError>)
        requires
            old(self).wf(),
        ensures
            final(self).spec_data() == old(self).spec_data(),
            final(self).wf(),
            final(self).spec_slot_size() == old(self).spec_slot_size(),
            r == slot_result(check_handle(old(self)@, SlotHandle { index, generation: expected_gen }, SlotState::Allocated)),
            final(self)@ == release_step(old(self)@, SlotHandle { index, generation: expected_gen }, SlotState::Allocated),
            final(self).spec_slot_available() == (if r is Ok {
                vstd::wrapping::u32_specs::wrapping_add(old(self).spec_slot_available(), 1)
            } else {
                old(self).spec_slot_available()
            }),
    {
        match self.inner.free_allocated(SlotHandle { index, generation: expected_gen }) {
            Ok(()) => Ok(()),
            Err(e) => Err(convert_slot_error(e)),
        }
    }

    /// Copies `data` to the start of slot `index`; the other bytes of the
    /// slot data are untouched. The index must exist and the data fit in a
    /// slot.
    pub fn copy_to_slot(&mut self, index: u32, data: &[u8]) -> (r: Result<(), SlotError>)
        requires
            old(self).wf(),
        ensures
            final(self).wf(),
            final(self)@ == old(self)@,
            final(self).spec_slot_size() == old(self).spec_slot_size(),
            final(self).spec_slot_available() == old(self).spec_slot_available(),
            index >= old(self)@.slots.len() ==> r == Err::<(), SlotError>(SlotError::InvalidIndex),
            index < old(self)@.slots.len() && data@.len() > old(self).spec_slot_size() ==> r
                == Err::<(), SlotError>(
                SlotError::PayloadTooLarge {
                    len: data@.len() as usize,
                    max: old(self).spec_slot_size() as usize,
                },
            ),
            r is Err ==> final(self).spec_data() == old(self).spec_data(),
            r is Ok <==> (index < old(self)@.slots.len() && data@.len()
                <= old(self).spec_slot_size()),
            r is Ok ==> final(self).spec_data() == write_bytes(
                old(self).spec_data(),
                index * old(self).spec_slot_size(),
                data@,
            ),
    {
        let count = self.inner.slot_count();
        let size = self.inner.slot_size();
        if index >= count {
            return Err(SlotError::InvalidIndex);
        }
        if data.len() > size as usize {
            return Err(SlotError::PayloadTooLarge { len: data.len(), max: size as usize });
        }
        let dlen = self.data.len();
        proof {
            lemma_slot_in_data(index as int, count as int, size as int);
            assert(index * size + size <= dlen);
        }
        let start = index as usize * size as usize;
        let ghost before = self.data@;
        let mut i: usize = 0;
        while i < data.len()
            invariant
                i <= data@.len() <= size,
                start == index * size,
                start + size <= before.len() <= usize::MAX,
                self.data@.len() == before.len(),
                self.inner == old(self).inner,
                forall|k: int| 0 <= k < start ==> self.data@[k] == before[k],
                forall|k: int| 0 <= k < i ==> self.data@[start + k] == data@[k],
                forall|k: int| start + i <= k < before.len() ==> self.data@[k] == before[k],
            decreases data@.len() - i,
        {
            self.data.set(start + i, data[i]);
            i = i + 1;
        }
        assert(self.data@ =~= write_bytes(before, start as int, data@));
        Ok(())
    }

    /// The `len` bytes from `offset` of slot `index`, which must exist, be in
    /// flight with generation `expected_gen`, and hold the whole range; a
    /// range past the slot is reported with its end saturated at `u32::MAX`.
    pub fn read_slot(&self, index: u32, expected_gen: u32, offset: u32, len: u32) -> (r: Result<
        &[u8],
        SlotError,
    >)
        requires
            self.wf(),
        ensures
            index >= self@.slots.len() ==> r == Err::<&[u8], SlotError>(SlotError::InvalidIndex),
            index < self@.slots.len() && self@.slots[index as int].generation != expected_gen ==> r
                == Err::<&[u8], SlotError>(SlotError::StaleGeneration),
            index < self@.slots.len() && self@.slots[index as int].generation == expected_gen
                && self@.slots[index as int].state != SlotState::InFlight ==> r == Err::<
                &[u8],
                SlotError,
            >(SlotError::InvalidState),
            index < self@.slots.len() && self@.slots[index as int].generation == expected_gen
                && self@.slots[index as int].state == SlotState::InFlight && offset + len
                > self.spec_slot_size() ==> r == Err::<&[u8], SlotError>(
                SlotError::PayloadTooLarge {
                    len: crate::validation::saturating_end(offset, len) as usize,
                    max: self.spec_slot_size() as usize,
                },
            ),
            r matches Ok(bytes) ==> {
                &&& index < self@.slots.len()
                &&& self@.slots[index as int].generation == expected_gen
                &&& self@.slots[index as int].state == SlotState::InFlight
                &&& offset + len <= self.spec_slot_size()
                &&& bytes@ == slot_bytes(self.spec_data(), self.spec_slot_size(), index as int).subrange(
                    offset as int,
                    offset + len,
                )
            },
            r is Ok <==> (index < self@.slots.len() && self@.slots[index as int].generation
                == expected_gen && self@.slots[index as int].state == SlotState::InFlight && offset
                + len <= self.spec_slot_size()),
    {
        let count = self.inner.slot_count();
        let size = self.inner.slot_size();
        if index >= count {
            return Err(SlotError::InvalidIndex);
        }
        let meta = self.inner.meta(index);
        if meta.generation() != expected_gen {
            return Err(SlotError::StaleGeneration);
        }
        if meta.state() != SlotState::InFlight {
            return Err(SlotError::InvalidState);
        }
        let end = offset.saturating_add(len);
        if end > size || offset as u64 + len as u64 > size as u64 {
            return Err(SlotError::PayloadTooLarge { len: end as usize, max: size as usize });
        }
        let dlen = self.data.len();
        proof {
            lemma_slot_in_data(index as int, count as int, size as int);
            assert(index * size + size <= dlen);
            assert(index * size + offset + len <= dlen);
        }
        let start = index as usize * size as usize + offset as usize;
        let bytes = vstd::slice::slice_subrange(self.data.as_slice(), start, start + len as usize);
        assert(bytes@ =~= slot_bytes(self.data@, size, index as int).subrange(
            offset as int,
            offset + len,
        ));
        Ok(bytes)
    }

    /// The slot-availability signal word.
    pub fn slot_available(&self) -> (r: u32)
        ensures
            r == self.spec_slot_available(),
    {
        self.inner.slot_available()
    }

    /// Size of each slot in bytes.
    pub fn slot_size(&self) -> (r: u32)
        ensures
            r == self.spec_slot_size(),
    {
        self.inner.slot_size()
    }

    /// Number of slots.
    pub fn slot_count(&self) -> (r: u32)
        requires
            self.wf(),
        ensures
            r == self@.slots.len(),
    {
        self.inner.slot_count()
    }

    /// Counts of slots in each state, and the free list's length.
    pub fn slot_status(&self) -> (r: SlotStatus)
        requires
            self.wf(),
        ensures
            r.total == self@.slots.len(),
            r.free == count_state(self@.slots, SlotState::Free),
            r.allocated == count_state(self@.slots, SlotState::Allocated),
            r.in_flight == count_state(self@.slots, SlotState::InFlight),
            r.unknown == 0,
            r.free_list_len == self@.free.len(),
    {
        let slot_count = self.inner.slot_count();
        let mut free: u32 = 0;
        let mut allocated: u32 = 0;
        let mut in_flight: u32 = 0;
        let mut i: u32 = 0;
        let ghost slots = self@.slots;
        while i < slot_count
            invariant
                self.wf(),
                slots == self@.slots,
                slot_count == slots.len(),
                i <= slot_count,
                free == count_state(slots.take(i as int), SlotState::Free),
                allocated == count_state(slots.take(i as int), SlotState::Allocated),
                in_flight == count_state(slots.take(i as int), SlotState::InFlight),
            decreases slot_count - i,
        {
            proof {
                assert(slots.take(i + 1).drop_last() =~= slots.take(i as int));
                lemma_count_state_bound(slots.take(i as int), SlotState::Free);
                lemma_count_state_bound(slots.take(i as int), SlotState::Allocated);
                lemma_count_state_bound(slots.take(i as int), SlotState::InFlight);
            }
            let meta = self.inner.meta(i);
            match meta.state {
                SlotState::Free => free = free + 1,
                SlotState::Allocated => allocated = allocated + 1,
                SlotState::InFlight => in_flight = in_flight + 1,
            }
            i = i + 1;
        }
        assert(slots.take(slot_count as int) =~= slots);
        let free_list_len = self.inner.free_count();
        SlotStatus { total: slot_count, free, allocated, in_flight, unknown: 0, free_list_len }
    }
}

// =============================================================================
// Layout computations
// =============================================================================

/// Total bytes of a segment with these parameters.
pub open spec fn segment_size(ring_capacity: u32, slot_size: u32, slot_count: u32) -> int {
    SEGMENT_HEADER_SIZE + 2 * (RING_HEADER_SIZE + DESC_SIZE * ring_capacity) + DATA_HEADER_SIZE
        + SLOT_META_SIZE * slot_count + slot_size * slot_count
}

/// The message naming the first size computation that overflows `usize`.
pub open spec fn segment_size_overflow(ring_capacity: u32, slot_size: u32, slot_count: u32) -> Seq<char> {
    if DESC_SIZE * ring_capacity > usize::MAX {
        "SHM size overflow (ring descs)"@
    } else if RING_HEADER_SIZE + DESC_SIZE * ring_capacity > usize::MAX {
        "SHM size overflow (ring)"@
    } else if SLOT_META_SIZE * slot_count > usize::MAX {
        "SHM size overflow (slot meta)"@
    } else if slot_size * slot_count > usize::MAX {
        "SHM size overflow (slot data)"@
    } else {
        "SHM size overflow (total)"@
    }
}

/// Total bytes of a segment, or a message naming the computation that
/// overflowed.
pub fn calculate_segment_size_checked(ring_capacity: u32, slot_size: u32, slot_count: u32) -> (r: Result<usize, &'static str>)
    ensures
        segment_size(ring_capacity, slot_size, slot_count) <= usize::MAX ==> r == Ok::<usize, &'static str>(
            segment_size(ring_capacity, slot_size, slot_count) as usize,
        ),
        segment_size(ring_capacity, slot_size, slot_count) > usize::MAX ==> (r matches Err(m) && m@
            == segment_size_overflow(ring_capacity, slot_size, slot_count)),
{
    proof {
        assert(0 <= slot_size * slot_count) by (nonlinear_arith);
    }
    let ring_descs_size = match (ring_capacity as usize).checked_mul(DESC_SIZE) {
        Some(v) => v,
        None => return Err("SHM size overflow (ring descs)"),
    };
    let ring_size = match RING_HEADER_SIZE.checked_add(ring_descs_size) {
        Some(v) => v,
        None => return Err("SHM size overflow (ring)"),
    };
    let slot_meta_total = match SLOT_META_SIZE.checked_mul(slot_count as usize) {
        Some(v) => v,
        None => return Err("SHM size overflow (slot meta)"),
    };
    let slot_data_total = match (slot_size as usize).checked_mul(slot_count as usize) {
        Some(v) => v,
        None => return Err("SHM size overflow (slot data)"),
    };
    let total = match SEGMENT_HEADER_SIZE.checked_add(ring_size) {
        Some(v) => v,
        None => return Err("SHM size overflow (total)"),
    };
    let total = match total.checked_add(ring_size) {
        Some(v) => v,
        None => return Err("SHM size overflow (total)"),
    };
    let total = match total.checked_add(DATA_HEADER_SIZE) {
        Some(v) => v,
        None => return Err("SHM size overflow (total)"),
    };
    let total = match total.checked_add(slot_meta_total) {
        Some(v) => v,
        None => return Err("SHM size overflow (total)"),
    };
    let total = match total.checked_add(slot_data_total) {
        Some(v) => v,
        None => return Err("SHM size overflow (total)"),
    };
    Ok(total)
}

/// Total bytes of a segment. The size must fit in `usize`.
pub fn calculate_segment_size(ring_capacity: u32, slot_size: u32, slot_count: u32) -> (r: usize)
    requires
        segment_size(ring_capacity, slot_size, slot_count) <= usize::MAX,
    ensures
        r == segment_size(ring_capacity, slot_size, slot_count),
{
    match calculate_segment_size_checked(ring_capacity, slot_size, slot_count) {
        Ok(v) => v,
        Err(_) => 0,
    }
}

/// What a slot write leaves: the written slot starts with the written bytes
/// and keeps the rest of its bytes; every other slot keeps all of its bytes.
pub proof fn lemma_slot_write_read(
    d: Seq<u8>,
    size: u32,
    count: int,
    index: int,
    src: Seq<u8>,
    other: int,
)
    requires
        d.len() == count * size,
        0 <= index < count,
        0 <= other < count,
        src.len() <= size,
    ensures
        slot_bytes(write_bytes(d, index * size, src), size, index).take(src.len() as int) == src,
        slot_bytes(write_bytes(d, index * size, src), size, index).skip(src.len() as int)
            == slot_bytes(d, size, index).skip(src.len() as int),
        other != index ==> slot_bytes(write_bytes(d, index * size, src), size, other)
            == slot_bytes(d, size, other),
{
    lemma_slot_in_data(index, count, size as int);
    lemma_slot_in_data(other, count, size as int);
    let w = write_bytes(d, index * size, src);
    assert(w.len() == d.len());
    assert(slot_bytes(w, size, index).take(src.len() as int) =~= src);
    assert(slot_bytes(w, size, index).skip(src.len() as int) =~= slot_bytes(d, size, index).skip(
        src.len() as int,
    ));
    if other != index {
        if other < index {
            assert((other + 1) * size <= index * size) by (nonlinear_arith)
                requires
                    other + 1 <= index,
                    size >= 0,
            ;
        } else {
            assert((index + 1) * size <= other * size) by (nonlinear_arith)
                requires
                    index + 1 <= other,
                    size >= 0,
            ;
        }
        assert(slot_bytes(w, size, other) =~= slot_bytes(d, size, other));
    }
}

/// Offsets of the parts of a segment.
#[derive(Clone, Copy, Debug, PartialEq, Eq, Structural)]
pub struct SegmentOffsets {
    pub header: usize,
    pub ring_a_to_b_header: usize,
    pub ring_a_to_b_descs: usize,
    pub ring_b_to_a_header: usize,
    pub ring_b_to_a_descs: usize,
    pub data_header: usize,
    pub slot_meta: usize,
    pub slot_data: usize,
}

/// Offset of the slot data: the last and largest offset of the layout.
pub open spec fn slot_data_offset(ring_capacity: u32, slot_count: u32) -> int {
    SEGMENT_HEADER_SIZE + 2 * (RING_HEADER_SIZE + DESC_SIZE * ring_capacity) + DATA_HEADER_SIZE
        + SLOT_META_SIZE * slot_count
}

/// The offsets of a segment with these parameters, computed in integers.
pub open spec fn offsets_match(o: SegmentOffsets, ring_capacity: u32, slot_count: u32) -> bool {
    let rd = DESC_SIZE * ring_capacity;
    &&& o.header == 0
    &&& o.ring_a_to_b_header == SEGMENT_HEADER_SIZE
    &&& o.ring_a_to_b_descs == SEGMENT_HEADER_SIZE + RING_HEADER_SIZE
    &&& o.ring_b_to_a_header == SEGMENT_HEADER_SIZE + RING_HEADER_SIZE + rd
    &&& o.ring_b_to_a_descs == SEGMENT_HEADER_SIZE + 2 * RING_HEADER_SIZE + rd
    &&& o.data_header == SEGMENT_HEADER_SIZE + 2 * RING_HEADER_SIZE + 2 * rd
    &&& o.slot_meta == SEGMENT_HEADER_SIZE + 2 * RING_HEADER_SIZE + 2 * rd + DATA_HEADER_SIZE
    &&& o.slot_data == slot_data_offset(ring_capacity, slot_count)
}

/// The message naming the first offset computation that overflows `usize`.
pub open spec fn offsets_overflow(ring_capacity: u32, slot_count: u32) -> Seq<char> {
    let rd = DESC_SIZE * ring_capacity;
    if rd > usize::MAX {
        "SHM offset overflow (ring descs)"@
    } else if SLOT_META_SIZE * slot_count > usize::MAX {
        "SHM offset overflow (slot meta)"@
    } else if SEGMENT_HEADER_SIZE + RING_HEADER_SIZE + rd > usize::MAX {
        "SHM offset overflow (ring B->A header)"@
    } else if SEGMENT_HEADER_SIZE + 2 * RING_HEADER_SIZE + rd > usize::MAX {
        "SHM offset overflow (ring B->A descs)"@
    } else if SEGMENT_HEADER_SIZE + 2 * RING_HEADER_SIZE + 2 * rd > usize::MAX {
        "SHM offset overflow (data header)"@
    } else if SEGMENT_HEADER_SIZE + 2 * RING_HEADER_SIZE + 2 * rd + DATA_HEADER_SIZE > usize::MAX {
        "SHM offset overflow (slot meta)"@
    } else {
        "SHM offset overflow (slot data)"@
    }
}

impl SegmentOffsets {
    /// Offsets for the given parameters, or a message naming the computation
    /// that overflowed.
    pub fn calculate_checked(ring_capacity: u32, slot_count: u32) -> (r: Result<Self, &'static str>)
        ensures
            slot_data_offset(ring_capacity, slot_count) <= usize::MAX ==> (r matches Ok(o)
                && offsets_match(o, ring_capacity, slot_count)),
            slot_data_offset(ring_capacity, slot_count) > usize::MAX ==> (r matches Err(m) && m@
                == offsets_overflow(ring_capacity, slot_count)),
    {
        let ring_descs_size = match (ring_capacity as usize).checked_mul(DESC_SIZE) {
            Some(v) => v,
            None => return Err("SHM offset overflow (ring descs)"),
        };
        let slot_meta_total = match SLOT_META_SIZE.checked_mul(slot_count as usize) {
            Some(v) => v,
            None => return Err("SHM offset overflow (slot meta)"),
        };
        let header: usize = 0;
        let ring_a_to_b_header = match header.checked_add(SEGMENT_HEADER_SIZE) {
            Some(v) => v,
            None => return Err("SHM offset overflow (ring A->B header)"),
        };
        let ring_a_to_b_descs = match ring_a_to_b_header.checked_add(RING_HEADER_SIZE) {
            Some(v) => v,
            None => return Err("SHM offset overflow (ring A->B descs)"),
        };
        let ring_b_to_a_header = match ring_a_to_b_descs.checked_add(ring_descs_size) {
            Some(v) => v,
            None => return Err("SHM offset overflow (ring B->A header)"),
        };
        let ring_b_to_a_descs = match ring_b_to_a_header.checked_add(RING_HEADER_SIZE) {
            Some(v) => v,
            None => return Err("SHM offset overflow (ring B->A descs)"),
        };
        let data_header = match ring_b_to_a_descs.checked_add(ring_descs_size) {
            Some(v) => v,
            None => return Err("SHM offset overflow (data header)"),
        };
        let slot_meta = match data_header.checked_add(DATA_HEADER_SIZE) {
            Some(v) => v,
            None => return Err("SHM offset overflow (slot meta)"),
        };
        let slot_data = match slot_meta.checked_add(slot_meta_total) {
            Some(v) => v,
            None => return Err("SHM offset overflow (slot data)"),
        };
        Ok(
            SegmentOffsets {
                header,
                ring_a_to_b_header,
                ring_a_to_b_descs,
                ring_b_to_a_header,
                ring_b_to_a_descs,
                data_header,
                slot_meta,
                slot_data,
            },
        )
    }

    /// Offsets for the given parameters. They must fit in `usize`.
    pub fn calculate(ring_capacity: u32, slot_count: u32) -> (r: Self)
        requires
            slot_data_offset(ring_capacity, slot_count) <= usize::MAX,
        ensures
            offsets_match(r, ring_capacity, slot_count),
    {
        match Self::calculate_checked(ring_capacity, slot_count) {
            Ok(o) => o,
            Err(_) => SegmentOffsets {
                header: 0,
                ring_a_to_b_header: 0,
                ring_a_to_b_descs: 0,
                ring_b_to_a_header: 0,
                ring_b_to_a_descs: 0,
                data_header: 0,
                slot_meta: 0,
                slot_data: 0,
            },
        }
    }
}

/// The parts of a segment are laid out in order without overlapping: each part
/// starts where the previous one ends, and the slot data ends at the segment size.
pub proof fn lemma_layout_contiguous(o: SegmentOffsets, ring_capacity: u32, slot_size: u32, slot_count: u32)
    requires
        offsets_match(o, ring_capacity, slot_count),
    ensures
        o.ring_a_to_b_header == o.header + SEGMENT_HEADER_SIZE,
        o.ring_a_to_b_descs == o.ring_a_to_b_header + RING_HEADER_SIZE,
        o.ring_b_to_a_header == o.ring_a_to_b_descs + DESC_SIZE * ring_capacity,
        o.ring_b_to_a_descs == o.ring_b_to_a_header + RING_HEADER_SIZE,
        o.data_header == o.ring_b_to_a_descs + DESC_SIZE * ring_capacity,
        o.slot_meta == o.data_header + DATA_HEADER_SIZE,
        o.slot_data == o.slot_meta + SLOT_META_SIZE * slot_count,
        o.slot_data + slot_size * slot_count == segment_size(ring_capacity, slot_size, slot_count),
{
}

// =============================================================================
// Messages
// =============================================================================

/// The message of a layout error; versions are written major.minor.
pub open spec fn layout_error_text(e: LayoutError) -> Seq<char> {
    match e {
        LayoutError::InvalidMagic => "invalid magic bytes"@,
        LayoutError::IncompatibleVersion { expected, found } => "incompatible version: expected "@
            + decimal_text((expected >> 16u32) as nat) + "."@ + decimal_text(
            (expected & 0xFFFFu32) as nat,
        ) + ", found "@ + decimal_text((found >> 16u32) as nat) + "."@ + decimal_text(
            (found & 0xFFFFu32) as nat,
        ),
        LayoutError::SegmentTooSmall { required, found } => "segment too small: need "@
            + decimal_text(required as nat) + " bytes, got "@ + decimal_text(found as nat),
        LayoutError::InvalidConfig(msg) => "invalid config: "@ + msg@,
    }
}

impl LayoutError {
    /// The error's message.
    pub fn to_string(&self) -> (r: String)
        ensures
            r@ == layout_error_text(*self),
    {
        match *self {
            LayoutError::InvalidMagic => String::from_str("invalid magic bytes"),
            LayoutError::IncompatibleVersion { expected, found } => {
                let mut s = String::from_str("incompatible version: expected ");
                push_decimal(&mut s, (expected >> 16u32) as u64);
                s.append(".");
                push_decimal(&mut s, (expected & 0xFFFFu32) as u64);
                s.append(", found ");
                push_decimal(&mut s, (found >> 16u32) as u64);
                s.append(".");
                push_decimal(&mut s, (found & 0xFFFFu32) as u64);
                s
            },
            LayoutError::SegmentTooSmall { required, found } => {
                let mut s = String::from_str("segment too small: need ");
                push_decimal(&mut s, required as u64);
                s.append(" bytes, got ");
                push_decimal(&mut s, found as u64);
                s
            },
            LayoutError::InvalidConfig(msg) => {
                let mut s = String::from_str("invalid config: ");
                s.append(msg);
                s
            },
        }
    }
}

impl RingError {
    /// The error's message.
    pub fn to_string(&self) -> (r: String)
        ensures
            r@ == "ring is full"@,
    {
        String::from_str("ring is full")
    }
}

/// The message of a slot error.
pub open spec fn slot_error_text(e: SlotError) -> Seq<char> {
    match e {
        SlotError::NoFreeSlots => "no free slots available"@,
        SlotError::InvalidIndex => "invalid slot index"@,
        SlotError::StaleGeneration => "stale generation"@,
        SlotError::InvalidState => "invalid slot state"@,
        SlotError::PayloadTooLarge { len, max } => "payload too large for slot: "@ + decimal_text(
            len as nat,
        ) + " bytes, max "@ + decimal_text(max as nat),
    }
}

impl SlotError {
    /// The error's message.
    pub fn to_string(&self) -> (r: String)
        ensures
            r@ == slot_error_text(*self),
    {
        match *self {
            SlotError::NoFreeSlots => String::from_str("no free slots available"),
            SlotError::InvalidIndex => String::from_str("invalid slot index"),
            SlotError::StaleGeneration => String::from_str("stale generation"),
            SlotError::InvalidState => String::from_str("invalid slot state"),
            SlotError::PayloadTooLarge { len, max } => {
                let mut s = String::from_str("payload too large for slot: ");
                push_decimal(&mut s, len as u64);
                s.append(" bytes, max ");
                push_decimal(&mut s, max as u64);
                s
            },
        }
    }
}

/// The summary line of a ring status: positions, fill and fill percentage.
pub open spec fn ring_status_text(st: RingStatus) -> Seq<char> {
    "head="@ + decimal_text(st.visible_head as nat) + " tail="@ + decimal_text(st.tail as nat)
        + " len="@ + decimal_text(st.len as nat) + "/"@ + decimal_text(st.capacity as nat) + " ("@
        + decimal_text(
        if st.capacity > 0 {
            ((st.len * 100) / (st.capacity as int)) as nat
        } else {
            0
        },
    ) + "%)"@
}

impl RingStatus {
    /// The status as one line. The percentage is computed in 32 bits, so the
    /// length times 100 must fit.
    pub fn to_string(&self) -> (r: String)
        requires
            self.capacity > 0 ==> self.len * 100 <= u32::MAX,
        ensures
            r@ == ring_status_text(*self),
    {
        let mut s = String::from_str("head=");
        push_decimal(&mut s, self.visible_head);
        s.append(" tail=");
        push_decimal(&mut s, self.tail);
        s.append(" len=");
        push_decimal(&mut s, self.len as u64);
        s.append("/");
        push_decimal(&mut s, self.capacity as u64);
        s.append(" (");
        let pct: u32 = if self.capacity > 0 {
            self.len * 100 / self.capacity
        } else {
            0
        };
        push_decimal(&mut s, pct as u64);
        s.append("%)");
        s
    }
}

/// The summary line of a slot status, with the unknown count and a
/// free-list mismatch added when they occur.
pub open spec fn slot_status_text(st: SlotStatus) -> Seq<char> {
    "slots: "@ + decimal_text(st.free as nat) + "/"@ + decimal_text(st.total as nat) + " free, "@
        + decimal_text(st.allocated as nat) + " allocated, "@ + decimal_text(st.in_flight as nat)
        + " in_flight (free_list_len="@ + decimal_text(st.free_list_len as nat) + ")"@ + (if st.unknown
        > 0 {
        ", "@ + decimal_text(st.unknown as nat) + " UNKNOWN"@
    } else {
        Seq::empty()
    }) + (if st.free != st.free_list_len {
        " [MISMATCH: free="@ + decimal_text(st.free as nat) + " != free_list="@ + decimal_text(
            st.free_list_len as nat,
        ) + "]"@
    } else {
        Seq::empty()
    })
}

impl SlotStatus {
    /// The status as one line.
    pub fn to_string(&self) -> (r: String)
        ensures
            r@ == slot_status_text(*self),
    {
        let mut s = String::from_str("slots: ");
        push_decimal(&mut s, self.free as u64);
        s.append("/");
        push_decimal(&mut s, self.total as u64);
        s.append(" free, ");
        push_decimal(&mut s, self.allocated as u64);
        s.append(" allocated, ");
        push_decimal(&mut s, self.in_flight as u64);
        s.append(" in_flight (free_list_len=");
        push_decimal(&mut s, self.free_list_len as u64);
        s.append(")");
        if self.unknown > 0 {
            s.append(", ");
            push_decimal(&mut s, self.unknown as u64);
            s.append(" UNKNOWN");
        }
        if self.free != self.free_list_len {
            s.append(" [MISMATCH: free=");
            push_decimal(&mut s, self.free as u64);
            s.append(" != free_list=");
            push_decimal(&mut s, self.free_list_len as u64);
            s.append("]");
        }
        assert(s@ =~= slot_status_text(*self));
        s
    }
}

} // verus!
