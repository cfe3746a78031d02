//! One direction of a shared-memory segment: the producer puts each frame's
//! payload inline or in a data slot and enqueues its descriptor; the consumer
//! dequeues the descriptor, copies the payload out of its slot and frees the
//! slot. Frames come out in the order they went in, with their payloads.

use vstd::prelude::*;

use crate::buffer_pool::BufferPool;
use crate::descriptor::{MsgDescHot, INLINE_PAYLOAD_SIZE, INLINE_PAYLOAD_SLOT};
use crate::frame::{payload_bytes_of, payload_fits, Frame, Payload};
use crate::shm::hub_transport::{
    detach_slot_payload, same_but_payload, set_inline_payload, set_slot_payload,
};
use crate::shm::layout::{
    lemma_slot_in_data, lemma_slot_write_read, slot_bytes, DataSegment, DescRing, RingError,
    SlotError,
};
use crate::shm::slab::{SlotMeta, SlotState};

verus! {

/// The payload that a queued descriptor carries: its inline bytes, or the
/// start of its slot in the slot data `data` of slots of `size` bytes.
pub open spec fn carried_payload(d: MsgDescHot, data: Seq<u8>, size: u32) -> Seq<u8> {
    if d.payload_slot == INLINE_PAYLOAD_SLOT {
        d.inline_payload@.take(d.payload_len as int)
    } else {
        slot_bytes(data, size, d.payload_slot as int).take(d.payload_len as int)
    }
}

/// A queued descriptor is consistent with the slots: an inline payload fits
/// the inline area; a slot payload starts its slot, fits it, and the slot is
/// in flight with the descriptor's generation.
pub open spec fn queued_ok(d: MsgDescHot, slots: Seq<SlotMeta>, size: u32) -> bool {
    if d.payload_slot == INLINE_PAYLOAD_SLOT {
        d.payload_len <= INLINE_PAYLOAD_SIZE
    } else {
        &&& d.payload_slot < slots.len()
        &&& slots[d.payload_slot as int] == SlotMeta {
            generation: d.payload_generation,
            state: SlotState::InFlight,
        }
        &&& d.payload_offset == 0
        &&& d.payload_len <= size
    }
}

/// Why a frame could not be sent.
#[derive(Clone, Copy, Debug, PartialEq, Eq, Structural)]
pub enum PipeSendError {
    /// The descriptor ring is full.
    Ring(RingError),
    /// No slot could hold the payload.
    Slot(SlotError),
}

/// One direction of a segment: a descriptor ring and the data slots its
/// descriptors point into, with the producer's private head.
pub struct SegmentPipe {
    slots: DataSegment,
    ring: DescRing,
    head: u64,
    buffer_pool: BufferPool,
}

impl SegmentPipe {
    /// The frames in transit, oldest first: each queued descriptor with the
    /// payload it carries.
    pub closed spec fn view(&self) -> Seq<(MsgDescHot, Seq<u8>)> {
        self.ring@.map_values(
            |d: MsgDescHot|
                (d, carried_payload(d, self.slots.spec_data(), self.slots.spec_slot_size())),
        )
    }

    /// Size of a data slot.
    pub closed spec fn spec_slot_size(&self) -> u32 {
        self.slots.spec_slot_size()
    }

    /// Capacity of the descriptor ring.
    pub closed spec fn spec_capacity(&self) -> nat {
        self.ring.spec_capacity()
    }

    /// How many descriptors were ever enqueued (the producer's head).
    pub closed spec fn spec_head(&self) -> u64 {
        self.head
    }

    /// How many slots are free.
    pub closed spec fn spec_free_slots(&self) -> nat {
        self.slots@.free.len()
    }

    /// Every queued descriptor is consistent with the slots, and no two
    /// queued descriptors share a slot.
    pub closed spec fn wf(&self) -> bool {
        &&& self.slots.wf()
        &&& self.ring.wf()
        &&& self.head == self.ring.spec_head()
        &&& forall|i: int|
            0 <= i < self.ring@.len() ==> queued_ok(
                #[trigger] self.ring@[i],
                self.slots@.slots,
                self.slots.spec_slot_size(),
            )
        &&& forall|i: int, j: int|
            0 <= i < j < self.ring@.len() && self.ring@[i].payload_slot != INLINE_PAYLOAD_SLOT
                ==> #[trigger] self.ring@[i].payload_slot != #[trigger] self.ring@[j].payload_slot
    }

    /// An empty pipe with a ring of `ring_capacity` descriptors and
    /// `slot_count` slots of `slot_size` bytes; received payloads are copied
    /// into buffers of a default buffer pool.
    pub fn new(ring_capacity: u32, slot_size: u32, slot_count: u32) -> (r: Self)
        requires
            ring_capacity > 0,
            slot_count * slot_size <= usize::MAX,
        ensures
            r.wf(),
            r@.len() == 0,
            r.spec_slot_size() == slot_size,
            r.spec_capacity() == ring_capacity,
    {
        Self::with_buffer_pool(ring_capacity, slot_size, slot_count, BufferPool::new())
    }

    /// An empty pipe like `new`, whose received payloads are copied into
    /// buffers of `buffer_pool`.
    pub fn with_buffer_pool(
        ring_capacity: u32,
        slot_size: u32,
        slot_count: u32,
        buffer_pool: BufferPool,
    ) -> (r: Self)
        requires
            ring_capacity > 0,
            slot_count * slot_size <= usize::MAX,
        ensures
            r.wf(),
            r@.len() == 0,
            r.spec_slot_size() == slot_size,
            r.spec_capacity() == ring_capacity,
            r.spec_buffer_pool() == buffer_pool,
    {
        let r = SegmentPipe {
            slots: DataSegment::new(slot_size, slot_count),
            ring: DescRing::new(ring_capacity),
            head: 0,
            buffer_pool,
        };
        assert(r@ =~= Seq::<(MsgDescHot, Seq<u8>)>::empty());
        r
    }

    /// The pool that received payloads are copied into.
    pub closed spec fn spec_buffer_pool(&self) -> BufferPool {
        self.buffer_pool
    }

    /// The pool that received payloads are copied into.
    pub fn buffer_pool(&self) -> (r: &BufferPool)
        ensures
            *r == self.spec_buffer_pool(),
    {
        &self.buffer_pool
    }

    /// Sends `frame`: a payload of at most 16 bytes goes inline in the
    /// descriptor; a longer one is copied into a newly allocated slot, which
    /// is marked in flight. The frame's descriptor, with the payload's
    /// location filled in, is then enqueued. A full ring (or an exhausted
    /// head counter), a payload longer than a slot, or the lack of a free
    /// slot refuses the frame and changes nothing that is in transit.
    pub fn send(&mut self, frame: &Frame) -> (r: Result<(), PipeSendError>)
        requires
            old(self).wf(),
            payload_fits(frame.payload, frame.desc),
        ensures
            final(self).wf(),
            final(self).spec_slot_size() == old(self).spec_slot_size(),
            final(self).spec_capacity() == old(self).spec_capacity(),
            r is Err ==> final(self)@ == old(self)@,
            ({
                let p = payload_bytes_of(frame.payload, frame.desc);
                let full = old(self)@.len() >= old(self).spec_capacity() || old(self).spec_head()
                    == u64::MAX;
                &&& full ==> r == Err::<(), PipeSendError>(PipeSendError::Ring(RingError::Full))
                &&& !full && p.len() <= INLINE_PAYLOAD_SIZE ==> r is Ok
                &&& !full && p.len() > INLINE_PAYLOAD_SIZE && p.len() > old(self).spec_slot_size()
                    ==> r == Err::<(), PipeSendError>(
                    PipeSendError::Slot(
                        SlotError::PayloadTooLarge {
                            len: p.len() as usize,
                            max: old(self).spec_slot_size() as usize,
                        },
                    ),
                )
                &&& !full && INLINE_PAYLOAD_SIZE < p.len() <= old(self).spec_slot_size() ==> (if old(
                    self,
                ).spec_free_slots() == 0 {
                    r == Err::<(), PipeSendError>(PipeSendError::Slot(SlotError::NoFreeSlots))
                } else {
                    r is Ok
                })
            }),
            r is Ok ==> exists|d: MsgDescHot|
                {
                    &&& same_but_payload(frame.desc, d)
                    &&& d.payload_len == payload_bytes_of(frame.payload, frame.desc).len()
                    &&& final(self)@ == old(self)@.push(
                        (d, payload_bytes_of(frame.payload, frame.desc)),
                    )
                },
    {
        let ghost ring0 = self.ring@;
        let ghost data0 = self.slots.spec_data();
        let ghost size = self.slots.spec_slot_size();
        let ghost metas0 = self.slots@.slots;
        proof {
            self.slots.lemma_view_wf();
        }
        let status = self.ring.ring_status();
        if status.len >= status.capacity || self.head == u64::MAX {
            return Err(PipeSendError::Ring(RingError::Full));
        }
        let payload = frame.payload_bytes();
        let len = payload.len();
        let mut desc = frame.desc;
        if len <= INLINE_PAYLOAD_SIZE {
            set_inline_payload(&mut desc, payload);
            assert(desc.inline_payload@.take(len as int) =~= payload@);
            let e = self.ring.enqueue(&mut self.head, &desc);
            assert(e is Ok);
            proof {
                assert forall|i: int| 0 <= i < self.ring@.len() implies queued_ok(
                    #[trigger] self.ring@[i],
                    self.slots@.slots,
                    self.slots.spec_slot_size(),
                ) by {
                    if i < ring0.len() {
                        assert(self.ring@[i] == ring0[i]);
                    }
                }
                assert forall|i: int, j: int|
                    0 <= i < j < self.ring@.len() && self.ring@[i].payload_slot
                        != INLINE_PAYLOAD_SLOT implies #[trigger] self.ring@[i].payload_slot
                    != #[trigger] self.ring@[j].payload_slot by {
                    assert(self.ring@[i] == ring0[i]);
                    if j < ring0.len() {
                        assert(self.ring@[j] == ring0[j]);
                    }
                }
                assert(self@ =~= old(self)@.push((desc, payload@)));
            }
            return Ok(());
        }
        let slot_size = self.slots.slot_size();
        if len > slot_size as usize {
            return Err(PipeSendError::Slot(SlotError::PayloadTooLarge { len, max: slot_size as usize }));
        }
        let (index, generation) = match self.slots.allocate() {
            Ok(h) => h,
            Err(e) => {
                return Err(PipeSendError::Slot(e));
            },
        };
        let ghost metas1 = self.slots@.slots;
        proof {
            // The allocated slot was free, so no queued descriptor uses it.
            assert(metas0[index as int].state == SlotState::Free);
            assert(metas1[index as int] == SlotMeta { generation, state: SlotState::Allocated });
            assert forall|i: int| 0 <= i < ring0.len() && ring0[i].payload_slot
                != INLINE_PAYLOAD_SLOT implies #[trigger] ring0[i].payload_slot != index by {
                assert(queued_ok(ring0[i], metas0, size));
            }
        }
        let copied = self.slots.copy_to_slot(index, payload);
        assert(copied is Ok);
        let marked = self.slots.mark_in_flight(index, generation);
        assert(marked is Ok);
        let ghost metas2 = self.slots@.slots;
        let ghost data2 = self.slots.spec_data();
        set_slot_payload(&mut desc, index, generation, len as u32);
        let e = self.ring.enqueue(&mut self.head, &desc);
        assert(e is Ok);
        proof {
            lemma_slot_write_read(data0, size, metas0.len() as int, index as int, payload@, index as int);
            assert(carried_payload(desc, data2, size) =~= payload@);
            assert forall|i: int| 0 <= i < ring0.len() implies carried_payload(
                #[trigger] ring0[i],
                data2,
                size,
            ) == carried_payload(ring0[i], data0, size) by {
                let e = ring0[i];
                if e.payload_slot != INLINE_PAYLOAD_SLOT {
                    assert(queued_ok(e, metas0, size));
                    lemma_slot_write_read(
                        data0,
                        size,
                        metas0.len() as int,
                        index as int,
                        payload@,
                        e.payload_slot as int,
                    );
                }
            }
            assert forall|i: int| 0 <= i < self.ring@.len() implies queued_ok(
                #[trigger] self.ring@[i],
                self.slots@.slots,
                self.slots.spec_slot_size(),
            ) by {
                if i < ring0.len() {
                    let e = ring0[i];
                    assert(self.ring@[i] == e);
                    assert(queued_ok(e, metas0, size));
                    if e.payload_slot != INLINE_PAYLOAD_SLOT {
                        assert(metas2[e.payload_slot as int] == metas0[e.payload_slot as int]);
                    }
                } else {
                    assert(self.ring@[i] == desc);
                }
            }
            assert forall|i: int, j: int|
                0 <= i < j < self.ring@.len() && self.ring@[i].payload_slot
                    != INLINE_PAYLOAD_SLOT implies #[trigger] self.ring@[i].payload_slot
                != #[trigger] self.ring@[j].payload_slot by {
                assert(self.ring@[i] == ring0[i]);
                if j < ring0.len() {
                    assert(self.ring@[j] == ring0[j]);
                } else {
                    assert(self.ring@[j] == desc);
                }
            }
            assert(self@ =~= old(self)@.push((desc, payload@)));
        }
        Ok(())
    }

    /// Takes the oldest frame in transit, if any: an inline payload stays in
    /// the descriptor; a slot payload is copied out into a buffer of its own,
    /// the slot is freed, and the descriptor's slot, generation and offset
    /// become 0.
    pub fn recv(&mut self) -> (r: Option<Frame>)
        requires
            old(self).wf(),
        ensures
            final(self).wf(),
            final(self).spec_slot_size() == old(self).spec_slot_size(),
            final(self).spec_capacity() == old(self).spec_capacity(),
            old(self)@.len() == 0 ==> r is None && final(self)@ == old(self)@,
            old(self)@.len() > 0 ==> {
                &&& final(self)@ == old(self)@.drop_first()
                &&& r matches Some(f) && {
                    &&& same_but_payload(old(self)@[0].0, f.desc)
                    &&& payload_fits(f.payload, f.desc)
                    &&& payload_bytes_of(f.payload, f.desc) == old(self)@[0].1
                    &&& f.desc.payload_len == old(self)@[0].1.len()
                }
            },
    {
        let ghost ring0 = self.ring@;
        let ghost data0 = self.slots.spec_data();
        let ghost size = self.slots.spec_slot_size();
        let ghost metas0 = self.slots@.slots;
        proof {
            self.slots.lemma_view_wf();
        }
        let d = match self.ring.dequeue() {
            None => {
                return None;
            },
            Some(d) => d,
        };
        assert(d == ring0[0]);
        assert(queued_ok(ring0[0], metas0, size));
        if d.payload_slot == INLINE_PAYLOAD_SLOT {
            proof {
                assert(self@ =~= old(self)@.drop_first());
                assert forall|i: int| 0 <= i < self.ring@.len() implies queued_ok(
                    #[trigger] self.ring@[i],
                    self.slots@.slots,
                    self.slots.spec_slot_size(),
                ) by {
                    assert(self.ring@[i] == ring0[i + 1]);
                }
                assert forall|i: int, j: int|
                    0 <= i < j < self.ring@.len() && self.ring@[i].payload_slot
                        != INLINE_PAYLOAD_SLOT implies #[trigger] self.ring@[i].payload_slot
                    != #[trigger] self.ring@[j].payload_slot by {
                    assert(self.ring@[i] == ring0[i + 1]);
                    assert(self.ring@[j] == ring0[j + 1]);
                }
            }
            return Some(Frame { desc: d, payload: Payload::Inline });
        }
        let len = d.payload_len;
        proof {
            lemma_slot_in_data(d.payload_slot as int, metas0.len() as int, size as int);
        }
        let mut copied = self.buffer_pool.get();
        match self.slots.read_slot(d.payload_slot, d.payload_generation, 0, len) {
            Ok(bytes) => copied.extend_from_slice(bytes),
            Err(_) => {
                assert(false);
            },
        };
        assert(copied@ =~= carried_payload(d, data0, size));
        let freed = self.slots.free(d.payload_slot, d.payload_generation);
        assert(freed is Ok);
        let mut desc = d;
        detach_slot_payload(&mut desc, len);
        proof {
            let metas1 = self.slots@.slots;
            assert(self.slots.spec_data() == data0);
            assert forall|i: int| 0 <= i < self.ring@.len() implies queued_ok(
                #[trigger] self.ring@[i],
                self.slots@.slots,
                self.slots.spec_slot_size(),
            ) by {
                let e = ring0[i + 1];
                assert(self.ring@[i] == e);
                assert(queued_ok(e, metas0, size));
                if e.payload_slot != INLINE_PAYLOAD_SLOT {
                    assert(ring0[0].payload_slot != ring0[i + 1].payload_slot);
                    assert(metas1[e.payload_slot as int] == metas0[e.payload_slot as int]);
                }
            }
            assert forall|i: int, j: int|
                0 <= i < j < self.ring@.len() && self.ring@[i].payload_slot
                    != INLINE_PAYLOAD_SLOT implies #[trigger] self.ring@[i].payload_slot
                != #[trigger] self.ring@[j].payload_slot by {
                assert(self.ring@[i] == ring0[i + 1]);
                assert(self.ring@[j] == ring0[j + 1]);
            }
            assert(self@ =~= old(self)@.drop_first());
        }
        Some(Frame { desc, payload: Payload::Pooled(copied) })
    }

    /// The number of frames in transit.
    pub fn len(&self) -> (r: u32)
        requires
            self.wf(),
        ensures
            r == self@.len(),
    {
        self.ring.ring_status().len
    }
}

} // verus!
