//! Guard for a payload slot of the hub allocator: it records which slot a
//! received payload occupies and frees it back to the allocator.

use vstd::prelude::*;

use crate::shm::hub_alloc::{hub_free_outcome, hub_result, HubAllocator, HubSlotError, NUM_SIZE_CLASSES};
use crate::shm::metrics::{bump, ShmMetrics};
use crate::shm::slab::{check_handle, SlotHandle, SlotState};

verus! {

/// Guard for a shared-memory payload slot.
#[derive(Debug)]
pub struct SlotGuard {
    /// Size class of the slot.
    class: u16,
    /// Index of the slot within its size class.
    global_index: u32,
    /// Generation, for ABA protection.
    generation: u32,
    /// Length of the payload in bytes.
    len: u32,
    /// Whether frees are recorded in the transport's metrics.
    track_metrics: bool,
}

impl SlotGuard {
    pub closed spec fn spec_class(&self) -> u16 {
        self.class
    }

    pub closed spec fn spec_global_index(&self) -> u32 {
        self.global_index
    }

    pub closed spec fn spec_generation(&self) -> u32 {
        self.generation
    }

    pub closed spec fn spec_len(&self) -> u32 {
        self.len
    }

    pub closed spec fn spec_track_metrics(&self) -> bool {
        self.track_metrics
    }

    /// A guard for the slot (`class`, `global_index`, `generation`) holding a
    /// payload of `len` bytes.
    pub fn new(class: u16, global_index: u32, generation: u32, len: u32, track_metrics: bool) -> (r: Self)
        ensures
            r.spec_class() == class,
            r.spec_global_index() == global_index,
            r.spec_generation() == generation,
            r.spec_len() == len,
            r.spec_track_metrics() == track_metrics,
    {
        SlotGuard { class, global_index, generation, len, track_metrics }
    }

    /// Length of the payload in bytes.
    pub fn len(&self) -> (r: usize)
        ensures
            r == self.spec_len(),
    {
        self.len as usize
    }

    /// True when the payload is empty.
    pub fn is_empty(&self) -> (r: bool)
        ensures
            r == (self.spec_len() == 0),
    {
        self.len == 0
    }

    /// Free the slot back to the allocator; a successful free is recorded in
    /// `metrics` when the guard tracks metrics.
    pub fn free(self, allocator: &mut HubAllocator, metrics: &mut ShmMetrics) -> (r: Result<(), HubSlotError>)
        requires
            old(allocator).wf(),
            (self.spec_class() as int) < NUM_SIZE_CLASSES ==> self.spec_global_index() < old(
                allocator,
            )@[self.spec_class() as int].slab.slots.len(),
        ensures
            final(allocator).wf(),
            (self.spec_class() as int) >= NUM_SIZE_CLASSES ==> {
                &&& r == Err::<(), HubSlotError>(HubSlotError::InvalidSizeClass)
                &&& final(allocator)@ == old(allocator)@
            },
            (self.spec_class() as int) < NUM_SIZE_CLASSES ==> {
                let h = SlotHandle { index: self.spec_global_index(), generation: self.spec_generation() };
                &&& r == hub_result(check_handle(old(allocator)@[self.spec_class() as int].slab, h, SlotState::InFlight))
                &&& final(allocator)@ == hub_free_outcome(old(allocator)@, self.spec_class() as int, h)
            },
            (r is Ok && self.spec_track_metrics()) ==> *final(metrics) == (ShmMetrics {
                slot_frees: bump(old(metrics).slot_frees),
                ..*old(metrics)
            }),
            !(r is Ok && self.spec_track_metrics()) ==> *final(metrics) == *old(metrics),
    {
        let r = allocator.free(self.class, self.global_index, self.generation);
        if r.is_ok() && self.track_metrics {
            metrics.record_slot_free();
        }
        r
    }
}

} // verus!
