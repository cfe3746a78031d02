//! Hub allocator: one slab of slots per size class, each slot recording the
//! peer that owns it, so that the slots of a dead peer can be reclaimed.

use vstd::prelude::*;
use vstd::wrapping::u32_specs;

use crate::shm::slab::{
    alloc_step, check_handle, mark_step, release_step, slab_wf, SlabError, SlabView, SlotHandle,
    SlotMeta, SlotState, TreiberSlab,
};

verus! {

/// Number of size classes.
pub const NUM_SIZE_CLASSES: usize = 5;

/// Owner value of a slot that no peer owns.
pub const NO_OWNER: u32 = 0xFFFF_FFFF;

/// Largest payload a slot can hold (the slot size of the last class).
pub const MAX_SLOT_SIZE: u32 = 16777216;

/// Slot size and slot count of each size class, from 1 KiB to 16 MiB.
pub open spec fn class_geometry(class: int) -> (u32, u32) {
    if class == 0 {
        (1024, 1024)
    } else if class == 1 {
        (16384, 256)
    } else if class == 2 {
        (262144, 32)
    } else if class == 3 {
        (4194304, 8)
    } else {
        (16777216, 4)
    }
}

/// Slot size and slot count of size class `class`.
pub fn hub_size_class(class: usize) -> (r: (u32, u32))
    requires
        class < NUM_SIZE_CLASSES,
    ensures
        r == class_geometry(class as int),
{
    match class {
        0 => (1024, 1024),
        1 => (16384, 256),
        2 => (262144, 32),
        3 => (4194304, 8),
        _ => (16777216, 4),
    }
}

/// Errors from hub slot operations.
#[derive(Clone, Copy, Debug, PartialEq, Eq, Structural)]
pub enum HubSlotError {
    NoFreeSlots,
    PayloadTooLarge { len: usize, max: usize },
    StaleGeneration,
    InvalidState,
    InvalidSizeClass,
    InvalidSlotRef,
    InvalidExtent,
}

impl HubSlotError {
    /// A human-readable description of the error.
    pub fn description(&self) -> (r: &'static str)
        ensures
            r@ == hub_slot_error_text(*self),
    {
        match self {
            HubSlotError::NoFreeSlots => "no free slots available",
            HubSlotError::PayloadTooLarge { .. } => "payload too large for any size class",
            HubSlotError::StaleGeneration => "stale generation",
            HubSlotError::InvalidState => "invalid slot state",
            HubSlotError::InvalidSizeClass => "invalid size class",
            HubSlotError::InvalidSlotRef => "invalid slot reference",
            HubSlotError::InvalidExtent => "invalid extent",
        }
    }
}

/// The description of a hub slot error.
pub open spec fn hub_slot_error_text(e: HubSlotError) -> Seq<char> {
    match e {
        HubSlotError::NoFreeSlots => "no free slots available"@,
        HubSlotError::PayloadTooLarge { .. } => "payload too large for any size class"@,
        HubSlotError::StaleGeneration => "stale generation"@,
        HubSlotError::InvalidState => "invalid slot state"@,
        HubSlotError::InvalidSizeClass => "invalid size class"@,
        HubSlotError::InvalidSlotRef => "invalid slot reference"@,
        HubSlotError::InvalidExtent => "invalid extent"@,
    }
}

/// Abstract state of one size class.
pub struct HubClassView {
    /// Slot size of the class.
    pub slot_size: u32,
    /// Slots and free list.
    pub slab: SlabView,
    /// Owning peer of each slot (`NO_OWNER` when free).
    pub owners: Seq<u32>,
    /// Slot-availability signal word, bumped when a slot of the class is
    /// freed (class 0's also when any slot is freed).
    pub slot_available: u32,
}

/// A size class is well formed: exact free list, one owner per slot, and free
/// slots own by no peer.
pub open spec fn class_wf(c: HubClassView) -> bool {
    &&& slab_wf(c.slab)
    &&& c.owners.len() == c.slab.slots.len()
    &&& forall|i: int|
        0 <= i < c.slab.slots.len() && (#[trigger] c.slab.slots[i]).state == SlotState::Free
            ==> c.owners[i] == NO_OWNER
}

/// Allocation from one class: pop a free slot, mark it allocated and owned by `owner`.
pub open spec fn class_alloc(c: HubClassView, owner: u32) -> (HubClassView, Option<SlotHandle>) {
    let (s, h) = alloc_step(c.slab);
    match h {
        Some(h) => (
            HubClassView {
                slab: s,
                owners: c.owners.update(h.index as int, owner),
                ..c
            },
            Some(h),
        ),
        None => (c, None),
    }
}

/// Release of a slot of one class: back on the free list, generation advanced,
/// owner cleared.
pub open spec fn class_release(c: HubClassView, h: SlotHandle, required: SlotState) -> HubClassView {
    if check_handle(c.slab, h, required) is Ok {
        HubClassView {
            slab: release_step(c.slab, h, required),
            owners: c.owners.update(h.index as int, NO_OWNER),
            ..c
        }
    } else {
        c
    }
}

/// The hub error that reports a slab error (indices are checked by callers).
pub open spec fn hub_error_of(e: SlabError) -> HubSlotError {
    match e {
        SlabError::InvalidIndex => HubSlotError::InvalidSlotRef,
        SlabError::GenerationMismatch { .. } => HubSlotError::StaleGeneration,
        SlabError::InvalidState { .. } => HubSlotError::InvalidState,
    }
}

fn hub_error(e: SlabError) -> (r: HubSlotError)
    ensures
        r == hub_error_of(e),
{
    match e {
        SlabError::InvalidIndex => HubSlotError::InvalidSlotRef,
        SlabError::GenerationMismatch { .. } => HubSlotError::StaleGeneration,
        SlabError::InvalidState { .. } => HubSlotError::InvalidState,
    }
}

/// Slot `j` was reclaimed for the dead peer `peer` (freed, generation
/// advanced, owner cleared) if it was a non-free slot of that peer, and is
/// unchanged otherwise.
pub open spec fn reclaimed_or_kept(before: HubClassView, after: HubClassView, j: int, peer: u32) -> bool {
    if before.slab.slots[j].state != SlotState::Free && before.owners[j] == peer {
        &&& after.slab.slots[j].state == SlotState::Free
        &&& after.slab.slots[j].generation == u32_specs::wrapping_add(before.slab.slots[j].generation, 1)
        &&& after.owners[j] == NO_OWNER
    } else {
        &&& after.slab.slots[j] == before.slab.slots[j]
        &&& after.owners[j] == before.owners[j]
    }
}

/// One size class: a slab and the owner of each slot.
pub struct HubClass {
    slab: TreiberSlab,
    owners: Vec<u32>,
}

impl HubClass {
    pub closed spec fn view(&self) -> HubClassView {
        HubClassView {
            slot_size: self.slab.spec_slot_size(),
            slab: self.slab@,
            owners: self.owners@,
            slot_available: self.slab.spec_slot_available(),
        }
    }

    pub closed spec fn wf(&self) -> bool {
        &&& self.slab.wf()
        &&& class_wf(self.view())
    }

    /// A class of `slot_count` free slots of `slot_size` bytes.
    pub fn new(slot_size: u32, slot_count: u32) -> (r: Self)
        ensures
            r.wf(),
            r@.slot_size == slot_size,
            r@.slot_available == 0,
            r@.slab.slots.len() == slot_count,
            forall|i: int| 0 <= i < slot_count ==> (#[trigger] r@.slab.slots[i]).state == SlotState::Free
                && r@.slab.slots[i].generation == 0,
    {
        let slab = TreiberSlab::new(slot_size, slot_count);
        let mut owners: Vec<u32> = Vec::new();
        let mut i: u32 = 0;
        while i < slot_count
            invariant
                i <= slot_count,
                owners@ == Seq::new(i as nat, |j: int| NO_OWNER),
            decreases slot_count - i,
        {
            owners.push(NO_OWNER);
            i = i + 1;
            assert(owners@ =~= Seq::new(i as nat, |j: int| NO_OWNER));
        }
        proof {
            slab.lemma_view_wf();
        }
        HubClass { slab, owners }
    }

    /// Number of slots.
    pub fn slot_count(&self) -> (r: u32)
        requires
            self.wf(),
        ensures
            r == self@.slab.slots.len(),
    {
        self.slab.slot_count()
    }

    fn signal(&mut self)
        requires
            old(self).wf(),
        ensures
            final(self).wf(),
            final(self)@ == (HubClassView { slot_available: u32_specs::wrapping_add(old(self)@.slot_available, 1), ..old(self)@ }),
    {
        self.slab.signal_slot_available();
        proof {
            self.slab.lemma_view_wf();
        }
    }

    /// Whether slot `i` belongs to the dead peer `peer` and is not free.
    pub open spec fn reclaimable(c: HubClassView, i: int, peer: u32) -> bool {
        c.slab.slots[i].state != SlotState::Free && c.owners[i] == peer
    }

    /// Return every non-free slot owned by `peer` to the free list.
    fn reclaim(&mut self, peer: u32)
        requires
            old(self).wf(),
        ensures
            final(self).wf(),
            final(self)@.slot_size == old(self)@.slot_size,
            final(self)@.slab.slots.len() == old(self)@.slab.slots.len(),
            forall|j: int| 0 <= j < old(self)@.slab.slots.len() ==> reclaimed_or_kept(old(self)@, final(self)@, j, peer),
    {
        let n = self.slot_count();
        let ghost old_view = self@;
        let mut i: u32 = 0;
        while i < n
            invariant
                self.wf(),
                n == old_view.slab.slots.len(),
                self@.slab.slots.len() == n,
                self@.slot_size == old_view.slot_size,
                i <= n,
                forall|j: int| 0 <= j < i ==> reclaimed_or_kept(old_view, self@, j, peer),
                self@.owners.len() == n,
                old_view.owners.len() == n,
                forall|j: int| #![trigger old_view.slab.slots[j]] i <= j < n ==> self@.slab.slots[j] == old_view.slab.slots[j],
                forall|j: int| #![trigger old_view.owners[j]] i <= j < n ==> self@.owners[j] == old_view.owners[j],
            decreases n - i,
        {
            let meta = self.slab.meta(i);
            let owner = self.owners[i as usize];
            let ghost before = self@;
            assert(before.slab.slots[i as int] == old_view.slab.slots[i as int]);
            assert(before.owners[i as int] == old_view.owners[i as int]);
            assert(meta == old_view.slab.slots[i as int]);
            assert(owner == old_view.owners[i as int]);
            if owner == peer && meta.state != SlotState::Free {
                let h = SlotHandle { index: i, generation: meta.generation };
                if meta.state == SlotState::Allocated {
                    let _ = self.mark(h);
                }
                let ghost mid = self@;
                assert(mid.slab.slots[i as int].state == SlotState::InFlight);
                assert(mid.slab.slots[i as int].generation == meta.generation);
                assert(check_handle(mid.slab, h, SlotState::InFlight) is Ok);
                let _ = self.release(h, SlotState::InFlight);
                assert(self@.slab.slots == mid.slab.slots.update(i as int, crate::shm::slab::SlotMeta { generation: u32_specs::wrapping_add(meta.generation, 1), state: SlotState::Free }));
                assert(self@.owners == mid.owners.update(i as int, NO_OWNER));
                assert forall|j: int| 0 <= j < n && j != i implies self@.slab.slots[j] == before.slab.slots[j] && self@.owners[j] == before.owners[j] by {
                    assert(mid.slab.slots[j] == before.slab.slots[j]);
                    assert(mid.owners[j] == before.owners[j]);
                }
                assert(reclaimed_or_kept(old_view, self@, i as int, peer));
            } else {
                assert(reclaimed_or_kept(old_view, self@, i as int, peer));
            }
            assert forall|j: int| i + 1 <= j < n implies self@.slab.slots[j] == old_view.slab.slots[j] by {
                assert(before.slab.slots[j] == old_view.slab.slots[j]);
            }
            assert forall|j: int| i + 1 <= j < n implies self@.owners[j] == old_view.owners[j] by {
                assert(before.owners[j] == old_view.owners[j]);
            }
            assert forall|j: int| 0 <= j < i + 1 implies reclaimed_or_kept(old_view, self@, j, peer) by {
                if j < i {
                    assert(reclaimed_or_kept(old_view, before, j, peer));
                }
            }
            i = i + 1;
        }
    }

    fn take_slot(&mut self, owner: u32) -> (r: Option<SlotHandle>)
        requires
            old(self).wf(),
        ensures
            final(self).wf(),
            (final(self)@, r) == class_alloc(old(self)@, owner),
    {
        let ghost old_view = self@;
        match self.slab.try_alloc() {
            Some(h) => {
                proof {
                    crate::shm::slab::lemma_alloc_fails_iff_exhausted(old_view.slab);
                }
                self.owners.set(h.index as usize, owner);
                proof {
                    self.slab.lemma_view_wf();
                    let w = self@;
                    assert forall|i: int|
                        0 <= i < w.slab.slots.len() && (#[trigger] w.slab.slots[i]).state
                            == SlotState::Free implies w.owners[i] == NO_OWNER by {
                        if i != h.index as int {
                            assert(w.slab.slots[i] == old_view.slab.slots[i]);
                        }
                    }
                }
                Some(h)
            },
            None => None,
        }
    }

    fn mark(&mut self, h: SlotHandle) -> (r: Result<(), SlabError>)
        requires
            old(self).wf(),
        ensures
            final(self).wf(),
            r == check_handle(old(self)@.slab, h, SlotState::Allocated),
            final(self)@ == (HubClassView { slab: mark_step(old(self)@.slab, h), ..old(self)@ }),
    {
        let ghost old_view = self@;
        let r = self.slab.mark_in_flight(h);
        proof {
            self.slab.lemma_view_wf();
            let w = self@;
            assert forall|i: int|
                0 <= i < w.slab.slots.len() && (#[trigger] w.slab.slots[i]).state
                    == SlotState::Free implies w.owners[i] == NO_OWNER by {
                if i != h.index as int || r.is_err() {
                    assert(w.slab.slots[i] == old_view.slab.slots[i]);
                }
            }
        }
        r
    }

    fn release(&mut self, h: SlotHandle, required: SlotState) -> (r: Result<(), SlabError>)
        requires
            old(self).wf(),
            required != SlotState::Free,
        ensures
            final(self).wf(),
            r == check_handle(old(self)@.slab, h, required),
            final(self)@.slab == class_release(old(self)@, h, required).slab,
            final(self)@.owners == class_release(old(self)@, h, required).owners,
            final(self)@.slot_size == old(self)@.slot_size,
            final(self)@.slot_available == (if r is Ok {
                u32_specs::wrapping_add(old(self)@.slot_available, 1)
            } else {
                old(self)@.slot_available
            }),
    {
        let ghost old_view = self@;
        let r = if required == SlotState::InFlight {
            self.slab.free(h)
        } else {
            self.slab.free_allocated(h)
        };
        if r.is_ok() {
            self.owners.set(h.index as usize, NO_OWNER);
        }
        proof {
            self.slab.lemma_view_wf();
            let w = self@;
            assert forall|i: int|
                0 <= i < w.slab.slots.len() && (#[trigger] w.slab.slots[i]).state
                    == SlotState::Free implies w.owners[i] == NO_OWNER by {
                if i != h.index as int || r.is_err() {
                    assert(w.slab.slots[i] == old_view.slab.slots[i]);
                }
            }
        }
        r
    }
}

/// The first size class, at or after `from`, whose slots hold `size` bytes.
pub open spec fn first_fitting_class(size: int, from: int) -> Option<int>
    decreases 5 - from,
{
    if from >= 5 || from < 0 {
        None
    } else if class_geometry(from).0 >= size {
        Some(from)
    } else {
        first_fitting_class(size, from + 1)
    }
}

/// A fitting class found from `from` lies between `from` and the last class.
pub proof fn lemma_first_fitting_class_range(size: int, from: int)
    ensures
        first_fitting_class(size, from) matches Some(c) ==> from <= c < 5 && class_geometry(c).0 >= size,
    decreases 5 - from,
{
    if 0 <= from < 5 && class_geometry(from).0 < size {
        lemma_first_fitting_class_range(size, from + 1);
    }
}

/// The first size class, at or after `from`, with a free slot (5 if none).
pub open spec fn first_class_with_free(v: Seq<HubClassView>, from: int) -> int
    decreases 5 - from,
{
    if from >= 5 || from < 0 {
        5
    } else if v[from].slab.free.len() > 0 {
        from
    } else {
        first_class_with_free(v, from + 1)
    }
}

/// Allocation for `len` bytes on behalf of `owner`: the smallest class that
/// fits, or the next larger one with a free slot.
pub open spec fn hub_alloc_outcome(v: Seq<HubClassView>, len: int, owner: u32) -> (Seq<HubClassView>, Result<(u16, u32, u32), HubSlotError>) {
    match first_fitting_class(len, 0) {
        None => (v, Err(HubSlotError::PayloadTooLarge { len: len as usize, max: MAX_SLOT_SIZE as usize })),
        Some(fit) => {
            let c = first_class_with_free(v, fit);
            if c >= 5 {
                (v, Err(HubSlotError::NoFreeSlots))
            } else {
                let (cv, h) = class_alloc(v[c], owner);
                (v.update(c, cv), Ok((c as u16, h->0.index, h->0.generation)))
            }
        },
    }
}

/// A slab result seen as a hub result.
pub open spec fn hub_result(r: Result<(), SlabError>) -> Result<(), HubSlotError> {
    match r {
        Ok(()) => Ok(()),
        Err(e) => Err(hub_error_of(e)),
    }
}

/// Bump a class's slot-availability signal word.
pub open spec fn signaled(c: HubClassView) -> HubClassView {
    HubClassView { slot_available: u32_specs::wrapping_add(c.slot_available, 1), ..c }
}

/// Freeing slot `h` of class `class`: when the handle is current and the slot
/// in flight, the slot returns to the free list, and the class's signal word
/// and class 0's are bumped.
pub open spec fn hub_free_outcome(v: Seq<HubClassView>, class: int, h: SlotHandle) -> Seq<HubClassView> {
    if check_handle(v[class].slab, h, SlotState::InFlight) is Ok {
        let v1 = v.update(class, signaled(class_release(v[class], h, SlotState::InFlight)));
        if class != 0 {
            v1.update(0, signaled(v1[0]))
        } else {
            v1
        }
    } else {
        v
    }
}

/// The hub allocator: one size class per entry.
pub struct HubAllocator {
    classes: Vec<HubClass>,
}

impl HubAllocator {
    /// Abstract state: one view per size class.
    pub closed spec fn view(&self) -> Seq<HubClassView> {
        Seq::new(self.classes@.len(), |c: int| self.classes@[c]@)
    }

    /// Five well-formed classes with the configured slot sizes.
    pub closed spec fn wf(&self) -> bool {
        &&& self.classes@.len() == NUM_SIZE_CLASSES
        &&& forall|c: int| 0 <= c < NUM_SIZE_CLASSES ==> (#[trigger] self.classes@[c]).wf()
        &&& forall|c: int| 0 <= c < NUM_SIZE_CLASSES ==> (#[trigger] self.classes@[c])@.slot_size == class_geometry(c).0
    }

    /// A well-formed allocator has well-formed class views.
    pub proof fn lemma_view_wf(&self)
        requires
            self.wf(),
        ensures
            self@.len() == NUM_SIZE_CLASSES,
            forall|c: int| 0 <= c < NUM_SIZE_CLASSES ==> class_wf(#[trigger] self@[c]),
            forall|c: int| 0 <= c < NUM_SIZE_CLASSES ==> (#[trigger] self@[c]).slot_size == class_geometry(c).0,
    {
        assert forall|c: int| 0 <= c < NUM_SIZE_CLASSES implies class_wf(#[trigger] self@[c]) by {
            assert(self.classes@[c].wf());
        }
    }

    /// An allocator with every size class fully free.
    pub fn new() -> (r: Self)
        ensures
            r.wf(),
            forall|c: int| 0 <= c < NUM_SIZE_CLASSES ==> (#[trigger] r@[c]).slab.slots.len() == class_geometry(c).1,
            forall|c: int, i: int| 0 <= c < NUM_SIZE_CLASSES && 0 <= i < class_geometry(c).1 ==> (#[trigger] r@[c].slab.slots[i]).state == SlotState::Free,
    {
        let mut classes: Vec<HubClass> = Vec::new();
        let mut c: usize = 0;
        while c < NUM_SIZE_CLASSES
            invariant
                c <= NUM_SIZE_CLASSES,
                classes@.len() == c,
                forall|k: int| 0 <= k < c ==> (#[trigger] classes@[k]).wf(),
                forall|k: int| 0 <= k < c ==> (#[trigger] classes@[k])@.slot_size == class_geometry(k).0,
                forall|k: int| 0 <= k < c ==> (#[trigger] classes@[k])@.slab.slots.len() == class_geometry(k).1,
                forall|k: int, i: int| 0 <= k < c && 0 <= i < class_geometry(k).1 ==> (#[trigger] classes@[k]@.slab.slots[i]).state == SlotState::Free,
            decreases NUM_SIZE_CLASSES - c,
        {
            let (slot_size, slot_count) = hub_size_class(c);
            classes.push(HubClass::new(slot_size, slot_count));
            c = c + 1;
        }
        HubAllocator { classes }
    }

    /// The smallest size class whose slots hold `size` bytes, if any.
    pub fn find_class_for_size(&self, size: usize) -> (r: Option<usize>)
        ensures
            match first_fitting_class(size as int, 0) {
                Some(c) => r == Some(c as usize),
                None => r is None,
            },
    {
        let mut c: usize = 0;
        while c < NUM_SIZE_CLASSES
            invariant
                c <= NUM_SIZE_CLASSES,
                first_fitting_class(size as int, 0) == first_fitting_class(size as int, c as int),
            decreases NUM_SIZE_CLASSES - c,
        {
            let (slot_size, _) = hub_size_class(c);
            if slot_size as usize >= size {
                return Some(c);
            }
            c = c + 1;
        }
        None
    }

    /// Slot size of size class `class`.
    pub fn slot_size(&self, class: usize) -> (r: u32)
        requires
            class < NUM_SIZE_CLASSES,
        ensures
            r == class_geometry(class as int).0,
    {
        let (slot_size, _) = hub_size_class(class);
        slot_size
    }

    /// The slot-availability signal word of size class `class`.
    pub fn slot_available_futex(&self, class: usize) -> (r: u32)
        requires
            self.wf(),
            class < NUM_SIZE_CLASSES,
        ensures
            r == self@[class as int].slot_available,
    {
        self.classes[class].slab.slot_available()
    }

    /// Allocate a slot for `len` bytes on behalf of `owner_peer`, returning
    /// (size class, slot index, generation).
    pub fn allocate(&mut self, len: usize, owner_peer: u32) -> (r: Result<(u16, u32, u32), HubSlotError>)
        requires
            old(self).wf(),
        ensures
            final(self).wf(),
            (final(self)@, r) == hub_alloc_outcome(old(self)@, len as int, owner_peer),
    {
        let class = match self.find_class_for_size(len) {
            Some(c) => c,
            None => {
                let (max, _) = hub_size_class(NUM_SIZE_CLASSES - 1);
                return Err(HubSlotError::PayloadTooLarge { len, max: max as usize });
            },
        };
        proof {
            lemma_first_fitting_class_range(len as int, 0);
        }
        let ghost v = self@;
        let mut c = class;
        while c < NUM_SIZE_CLASSES
            invariant
                self.wf(),
                self@ == v,
                v == old(self)@,
                first_fitting_class(len as int, 0) == Some(class as int),
                class <= c <= NUM_SIZE_CLASSES,
                first_class_with_free(v, class as int) == first_class_with_free(v, c as int),
            decreases NUM_SIZE_CLASSES - c,
        {
            let ghost before = self.classes@;
            let r = self.classes[c].take_slot(owner_peer);
            proof {
                assert(self.classes@ == before.update(c as int, self.classes@[c as int]));
                assert forall|k: int| 0 <= k < NUM_SIZE_CLASSES implies (#[trigger] self.classes@[k]).wf() by {
                    if k != c {
                        assert(self.classes@[k] == before[k]);
                    }
                }
            }
            match r {
                Some(h) => {
                    proof {
                        assert(v[c as int].slab.free.len() > 0);
                        assert(first_class_with_free(v, c as int) == c as int);
                        assert(first_fitting_class(len as int, 0) == Some(class as int));
                        assert(self@ =~= v.update(c as int, self.classes@[c as int]@));
                        assert((self.classes@[c as int]@, r) == class_alloc(v[c as int], owner_peer));
                    }
                    return Ok((c as u16, h.index, h.generation));
                },
                None => {
                    proof {
                        assert(v[c as int].slab.free.len() == 0);
                        assert(self@ =~= v);
                    }
                },
            }
            c = c + 1;
        }
        Err(HubSlotError::NoFreeSlots)
    }

    /// Mark an allocated slot in flight.
    pub fn mark_in_flight(&mut self, class: u16, global_index: u32, generation: u32) -> (r: Result<(), HubSlotError>)
        requires
            old(self).wf(),
            (class as int) < NUM_SIZE_CLASSES ==> global_index < old(self)@[class as int].slab.slots.len(),
        ensures
            final(self).wf(),
            (class as int) >= NUM_SIZE_CLASSES ==> {
                &&& r == Err::<(), HubSlotError>(HubSlotError::InvalidSizeClass)
                &&& final(self)@ == old(self)@
            },
            (class as int) < NUM_SIZE_CLASSES ==> {
                let h = SlotHandle { index: global_index, generation };
                &&& r == hub_result(check_handle(old(self)@[class as int].slab, h, SlotState::Allocated))
                &&& final(self)@ == old(self)@.update(
                    class as int,
                    HubClassView { slab: mark_step(old(self)@[class as int].slab, h), ..old(self)@[class as int] },
                )
            },
    {
        let c = class as usize;
        if c >= NUM_SIZE_CLASSES {
            return Err(HubSlotError::InvalidSizeClass);
        }
        let ghost before = self.classes@;
        let h = SlotHandle { index: global_index, generation };
        let r = self.classes[c].mark(h);
        proof {
            assert(self.classes@ == before.update(c as int, self.classes@[c as int]));
            assert forall|k: int| 0 <= k < NUM_SIZE_CLASSES implies (#[trigger] self.classes@[k]).wf() by {
                if k != c {
                    assert(self.classes@[k] == before[k]);
                }
            }
            assert(self@ =~= old(self)@.update(c as int, self.classes@[c as int]@));
        }
        match r {
            Ok(()) => Ok(()),
            Err(e) => Err(hub_error(e)),
        }
    }

    /// Free an in-flight slot: it returns to its class's free list with its
    /// generation advanced and its owner cleared, and waiters are signaled on
    /// the class's word and on class 0's.
    pub fn free(&mut self, class: u16, global_index: u32, generation: u32) -> (r: Result<(), HubSlotError>)
        requires
            old(self).wf(),
            (class as int) < NUM_SIZE_CLASSES ==> global_index < old(self)@[class as int].slab.slots.len(),
        ensures
            final(self).wf(),
            (class as int) >= NUM_SIZE_CLASSES ==> {
                &&& r == Err::<(), HubSlotError>(HubSlotError::InvalidSizeClass)
                &&& final(self)@ == old(self)@
            },
            (class as int) < NUM_SIZE_CLASSES ==> {
                let h = SlotHandle { index: global_index, generation };
                &&& r == hub_result(check_handle(old(self)@[class as int].slab, h, SlotState::InFlight))
                &&& final(self)@ == hub_free_outcome(old(self)@, class as int, h)
            },
    {
        let c = class as usize;
        if c >= NUM_SIZE_CLASSES {
            return Err(HubSlotError::InvalidSizeClass);
        }
        let ghost before = self.classes@;
        let h = SlotHandle { index: global_index, generation };
        let r = self.classes[c].release(h, SlotState::InFlight);
        proof {
            assert(self.classes@ == before.update(c as int, self.classes@[c as int]));
            assert forall|k: int| 0 <= k < NUM_SIZE_CLASSES implies (#[trigger] self.classes@[k]).wf() by {
                if k != c {
                    assert(self.classes@[k] == before[k]);
                }
            }
        }
        match r {
            Ok(()) => {
                let ghost mid = self.classes@;
                if c != 0 {
                    self.classes[0].signal();
                    proof {
                        assert(self.classes@ == mid.update(0, self.classes@[0]));
                        assert forall|k: int| 0 <= k < NUM_SIZE_CLASSES implies (#[trigger] self.classes@[k]).wf() by {
                            if k != 0 {
                                assert(self.classes@[k] == mid[k]);
                            }
                        }
                    }
                }
                proof {
                    let v = old(self)@;
                    let v1 = v.update(c as int, signaled(class_release(v[c as int], h, SlotState::InFlight)));
                    assert(Seq::new(mid.len(), |k: int| mid[k]@) =~= v1);
                    if c != 0 {
                        assert(self@ =~= v1.update(0, signaled(v1[0])));
                    } else {
                        assert(self@ =~= v1);
                    }
                }
                Ok(())
            },
            Err(e) => {
                proof {
                    assert(self@ =~= old(self)@);
                }
                Err(hub_error(e))
            },
        }
    }

    /// Reclaim all slots owned by a dead peer: each non-free slot it owns
    /// returns to the free list with its generation advanced; every other slot
    /// is left as it was.
    pub fn reclaim_peer_slots(&mut self, peer_id: u32)
        requires
            old(self).wf(),
        ensures
            final(self).wf(),
            forall|c: int| 0 <= c < NUM_SIZE_CLASSES ==> (#[trigger] final(self)@[c]).slab.slots.len() == old(self)@[c].slab.slots.len(),
            forall|c: int, j: int| 0 <= c < NUM_SIZE_CLASSES && 0 <= j < old(self)@[c].slab.slots.len()
                ==> #[trigger] reclaimed_or_kept(old(self)@[c], final(self)@[c], j, peer_id),
    {
        let mut c: usize = 0;
        while c < NUM_SIZE_CLASSES
            invariant
                self.wf(),
                c <= NUM_SIZE_CLASSES,
                self@.len() == NUM_SIZE_CLASSES,
                old(self)@.len() == NUM_SIZE_CLASSES,
                forall|k: int| 0 <= k < NUM_SIZE_CLASSES ==> (#[trigger] self@[k]).slab.slots.len() == old(self)@[k].slab.slots.len(),
                forall|k: int, j: int| 0 <= k < c && 0 <= j < old(self)@[k].slab.slots.len()
                    ==> #[trigger] reclaimed_or_kept(old(self)@[k], self@[k], j, peer_id),
                forall|k: int| c <= k < NUM_SIZE_CLASSES ==> #[trigger] self@[k] == old(self)@[k],
            decreases NUM_SIZE_CLASSES - c,
        {
            let ghost before = self.classes@;
            let ghost bview = self@;
            self.classes[c].reclaim(peer_id);
            proof {
                assert(self.classes@ == before.update(c as int, self.classes@[c as int]));
                assert forall|k: int| 0 <= k < NUM_SIZE_CLASSES implies (#[trigger] self.classes@[k]).wf() by {
                    if k != c {
                        assert(self.classes@[k] == before[k]);
                    }
                }
                assert forall|k: int| 0 <= k < NUM_SIZE_CLASSES && k != c implies #[trigger] self@[k] == bview[k] by {
                    assert(self.classes@[k] == before[k]);
                }
                assert(bview[c as int] == old(self)@[c as int]);
                assert(self@[c as int] == self.classes@[c as int]@);
                assert forall|k: int, j: int| 0 <= k < c + 1 && 0 <= j < old(self)@[k].slab.slots.len()
                    implies #[trigger] reclaimed_or_kept(old(self)@[k], self@[k], j, peer_id) by {
                    if k < c {
                        assert(self@[k] == bview[k]);
                        assert(reclaimed_or_kept(old(self)@[k], bview[k], j, peer_id));
                    }
                }
            }
            c = c + 1;
        }
    }
}

/// After the slots of a dead peer are reclaimed, no slot is owned by it.
pub proof fn lemma_reclaim_leaves_no_owned_slot(before: HubClassView, after: HubClassView, peer: u32)
    requires
        class_wf(before),
        class_wf(after),
        peer != NO_OWNER,
        after.slab.slots.len() == before.slab.slots.len(),
        forall|j: int| 0 <= j < before.slab.slots.len() ==> #[trigger] reclaimed_or_kept(before, after, j, peer),
    ensures
        forall|j: int| 0 <= j < after.slab.slots.len() ==> #[trigger] after.owners[j] != peer,
{
    assert forall|j: int| 0 <= j < after.slab.slots.len() implies #[trigger] after.owners[j] != peer by {
        assert(reclaimed_or_kept(before, after, j, peer));
        if before.slab.slots[j].state == SlotState::Free {
            assert(before.owners[j] == NO_OWNER);
        }
    }
}

/// The first fitting class from `from` is the least class at or after `from`
/// whose slots hold `size` bytes; there is none when no class from `from` on
/// does.
proof fn lemma_first_fitting_class_least(size: int, from: int)
    requires
        0 <= from <= 5,
    ensures
        first_fitting_class(size, from) matches Some(f) ==> {
            &&& from <= f < 5
            &&& class_geometry(f).0 >= size
            &&& forall|c: int| from <= c < f ==> class_geometry(c).0 < size
        },
        first_fitting_class(size, from) is None ==> forall|c: int|
            from <= c < 5 ==> class_geometry(c).0 < size,
    decreases 5 - from,
{
    if from < 5 && class_geometry(from).0 < size {
        lemma_first_fitting_class_least(size, from + 1);
    }
}

/// The first class with a free slot from `from` has one, and every class
/// between `from` and it has none; 5 means none from `from` on has one.
proof fn lemma_first_class_with_free_least(v: Seq<HubClassView>, from: int)
    requires
        0 <= from <= 5,
    ensures
        from <= first_class_with_free(v, from) <= 5,
        first_class_with_free(v, from) < 5 ==> v[first_class_with_free(v, from)].slab.free.len() > 0,
        forall|c: int|
            from <= c < first_class_with_free(v, from) ==> #[trigger] v[c].slab.free.len() == 0,
    decreases 5 - from,
{
    if from < 5 && v[from].slab.free.len() == 0 {
        lemma_first_class_with_free_least(v, from + 1);
    }
}

/// Class slot sizes grow with the class.
proof fn lemma_class_sizes_grow(a: int, b: int)
    requires
        0 <= a <= b < 5,
    ensures
        class_geometry(a).0 <= class_geometry(b).0,
{
}

/// What an allocation for `len` bytes does, for `before` and `after` the
/// allocator around an `allocate(len, owner)` that returned `r`:
/// - a payload larger than the largest slot is refused as too large;
/// - otherwise there are no free slots exactly when every class whose slots
///   hold `len` bytes has an empty free list;
/// - a successful allocation comes from the smallest class that holds `len`
///   bytes and has a free slot: larger classes are tried when smaller
///   fitting ones are full. The slot was free, becomes allocated to `owner`
///   with its generation kept, and no other class changes;
/// - a failed allocation changes nothing.
pub proof fn lemma_allocate_picks_smallest_free_fitting_class(
    before: HubAllocator,
    after: HubAllocator,
    len: usize,
    owner: u32,
    r: Result<(u16, u32, u32), HubSlotError>,
)
    requires
        before.wf(),
        (after@, r) == hub_alloc_outcome(before@, len as int, owner),
    ensures
        (r is Err && r->Err_0 is PayloadTooLarge) <==> len > MAX_SLOT_SIZE,
        len > MAX_SLOT_SIZE ==> r == Err::<(u16, u32, u32), HubSlotError>(
            HubSlotError::PayloadTooLarge { len, max: MAX_SLOT_SIZE as usize },
        ),
        r == Err::<(u16, u32, u32), HubSlotError>(HubSlotError::NoFreeSlots) <==> (len <= MAX_SLOT_SIZE
            && forall|c: int|
            0 <= c < 5 && class_geometry(c).0 >= len ==> #[trigger] before@[c].slab.free.len() == 0),
        r is Err ==> after@ == before@,
        r is Err ==> (r->Err_0 is NoFreeSlots || r->Err_0 is PayloadTooLarge),
        r matches Ok((c, i, g)) ==> {
            &&& c < 5
            &&& class_geometry(c as int).0 >= len
            &&& before@[c as int].slab.free.len() > 0
            &&& forall|k: int|
                0 <= k < c && class_geometry(k).0 >= len ==> #[trigger] before@[k].slab.free.len() == 0
            &&& i < before@[c as int].slab.slots.len()
            &&& before@[c as int].slab.slots[i as int].state == SlotState::Free
            &&& before@[c as int].slab.slots[i as int].generation == g
            &&& after@[c as int].slab.slots[i as int] == (SlotMeta { generation: g, state: SlotState::Allocated })
            &&& after@[c as int].owners[i as int] == owner
            &&& after@.len() == before@.len()
            &&& forall|k: int| 0 <= k < before@.len() && k != c ==> #[trigger] after@[k] == before@[k]
        },
{
    let v = before@;
    before.lemma_view_wf();
    lemma_first_fitting_class_least(len as int, 0);
    assert(class_geometry(4).0 == MAX_SLOT_SIZE);
    match first_fitting_class(len as int, 0) {
        None => {
            assert(class_geometry(4).0 < len);
        },
        Some(fit) => {
            assert(len <= MAX_SLOT_SIZE) by {
                lemma_class_sizes_grow(fit, 4);
            }
            lemma_first_class_with_free_least(v, fit);
            let c = first_class_with_free(v, fit);
            assert forall|k: int| 0 <= k < c && class_geometry(k).0 >= len implies #[trigger] v[k].slab.free.len() == 0 by {
                if k < fit {
                    assert(class_geometry(k).0 < len);
                } else {
                    assert(fit <= k < c);
                }
            }
            if c < 5 {
                let cv = v[c];
                assert(class_wf(cv));
                let i = cv.slab.free.last();
                assert(cv.slab.free.contains(i)) by {
                    assert(cv.slab.free[cv.slab.free.len() - 1] == i);
                }
                assert(i < cv.slab.slots.len()) by {
                    assert(cv.slab.free[cv.slab.free.len() - 1] < cv.slab.slots.len());
                }
                assert(cv.slab.slots[i as int].state == SlotState::Free);
                assert(class_geometry(c).0 >= len) by {
                    lemma_class_sizes_grow(fit, c);
                }
                assert(r != Err::<(u16, u32, u32), HubSlotError>(HubSlotError::NoFreeSlots));
                assert(!(forall|k: int| 0 <= k < 5 && class_geometry(k).0 >= len ==> #[trigger] v[k].slab.free.len() == 0)) by {
                    assert(v[c].slab.free.len() > 0);
                }
            } else {
                assert forall|k: int| 0 <= k < 5 && class_geometry(k).0 >= len implies #[trigger] v[k].slab.free.len() == 0 by {
                    if k < fit {
                        assert(class_geometry(k).0 < len);
                    }
                }
            }
        },
    }
}

} // verus!
