//! Slab of fixed-size slots with a LIFO free list and per-slot generations.
//!
//! Each slot moves through `Free -> Allocated -> InFlight -> Free`; an
//! allocated slot that is never sent may go straight back to `Free`. Every
//! return to `Free` advances the slot's generation, so a stale handle (one
//! whose generation no longer matches) is refused.

use vstd::prelude::*;
use vstd::wrapping::u32_specs;

verus! {

/// State of one slot.
#[derive(Clone, Copy, Debug, PartialEq, Eq, Structural)]
pub enum SlotState {
    Free,
    Allocated,
    InFlight,
}

/// Numeric encoding of a slot state.
pub open spec fn slot_state_value(s: SlotState) -> u32 {
    match s {
        SlotState::Free => 0,
        SlotState::Allocated => 1,
        SlotState::InFlight => 2,
    }
}

impl SlotState {
    /// The state encoded by `value`, if any.
    pub fn from_u32(value: u32) -> (r: Option<SlotState>)
        ensures
            r matches Some(s) ==> slot_state_value(s) == value,
            r is None <==> value > 2,
    {
        match value {
            0 => Some(SlotState::Free),
            1 => Some(SlotState::Allocated),
            2 => Some(SlotState::InFlight),
            _ => None,
        }
    }

    /// The numeric encoding of this state.
    pub fn to_u32(&self) -> (r: u32)
        ensures
            r == slot_state_value(*self),
    {
        match self {
            SlotState::Free => 0,
            SlotState::Allocated => 1,
            SlotState::InFlight => 2,
        }
    }
}

/// Per-slot metadata: generation and state.
#[derive(Clone, Copy, Debug, PartialEq, Eq, Structural)]
pub struct SlotMeta {
    pub generation: u32,
    pub state: SlotState,
}

impl SlotMeta {
    /// Metadata of a fresh slot: generation 0, free.
    pub fn new() -> (r: Self)
        ensures
            r.generation == 0,
            r.state == SlotState::Free,
    {
        SlotMeta { generation: 0, state: SlotState::Free }
    }

    /// Reset to a fresh slot.
    pub fn init(&mut self)
        ensures
            final(self).generation == 0,
            final(self).state == SlotState::Free,
    {
        self.generation = 0;
        self.state = SlotState::Free;
    }

    /// The slot's generation.
    pub fn generation(&self) -> (r: u32)
        ensures
            r == self.generation,
    {
        self.generation
    }

    /// The slot's state.
    pub fn state(&self) -> (r: SlotState)
        ensures
            r == self.state,
    {
        self.state
    }
}

/// Header of the data segment (64 bytes): slot geometry and the
/// slot-availability signal word.
#[derive(Clone, Copy, Debug)]
pub struct TreiberSlabHeader {
    pub slot_size: u32,
    pub slot_count: u32,
    /// Bumped each time a slot returns to the free list.
    pub slot_available: u32,
    pub _pad: [u8; 52],
}

impl TreiberSlabHeader {
    /// A header for `slot_count` slots of `slot_size` bytes.
    pub fn new(slot_size: u32, slot_count: u32) -> (r: Self)
        ensures
            r.slot_size == slot_size,
            r.slot_count == slot_count,
            r.slot_available == 0,
    {
        TreiberSlabHeader { slot_size, slot_count, slot_available: 0, _pad: [0u8; 52] }
    }

    /// Reset the header for `slot_count` slots of `slot_size` bytes.
    pub fn init(&mut self, slot_size: u32, slot_count: u32)
        ensures
            final(self).slot_size == slot_size,
            final(self).slot_count == slot_count,
            final(self).slot_available == 0,
    {
        *self = TreiberSlabHeader::new(slot_size, slot_count);
    }
}

/// A reference to an allocated slot: its index and the generation it had when
/// it was handed out.
#[derive(Clone, Copy, Debug, PartialEq, Eq, Structural)]
pub struct SlotHandle {
    pub index: u32,
    pub generation: u32,
}

/// Errors of slot state transitions.
#[derive(Clone, Copy, Debug, PartialEq, Eq, Structural)]
pub enum SlabError {
    /// The index is not a slot of this slab.
    InvalidIndex,
    /// The handle's generation is not the slot's.
    GenerationMismatch { expected: u32, actual: u32 },
    /// The slot is not in the state the transition needs.
    InvalidState { expected: SlotState, actual: SlotState },
}

/// Abstract state of a slab: the slots' metadata and the free list, whose
/// last element is the next slot handed out.
pub struct SlabView {
    pub slots: Seq<SlotMeta>,
    pub free: Seq<u32>,
}

/// The free list holds each free slot exactly once and nothing else.
pub open spec fn slab_wf(v: SlabView) -> bool {
    &&& v.slots.len() <= u32::MAX
    &&& v.free.no_duplicates()
    &&& forall|k: int| 0 <= k < v.free.len() ==> (#[trigger] v.free[k]) < v.slots.len()
    &&& forall|i: int|
        0 <= i < v.slots.len() ==> ((#[trigger] v.slots[i]).state == SlotState::Free
            <==> v.free.contains(i as u32))
}

/// Allocation: pop the last free slot and mark it allocated, or report that
/// none is free.
pub open spec fn alloc_step(v: SlabView) -> (SlabView, Option<SlotHandle>) {
    if v.free.len() == 0 {
        (v, None)
    } else {
        let i = v.free.last();
        let g = v.slots[i as int].generation;
        (
            SlabView {
                slots: v.slots.update(
                    i as int,
                    SlotMeta { generation: g, state: SlotState::Allocated },
                ),
                free: v.free.drop_last(),
            },
            Some(SlotHandle { index: i, generation: g }),
        )
    }
}

/// Whether handle `h` may perform a transition that needs state `required`.
pub open spec fn check_handle(v: SlabView, h: SlotHandle, required: SlotState) -> Result<
    (),
    SlabError,
> {
    if h.index >= v.slots.len() {
        Err(SlabError::InvalidIndex)
    } else if v.slots[h.index as int].generation != h.generation {
        Err(
            SlabError::GenerationMismatch {
                expected: h.generation,
                actual: v.slots[h.index as int].generation,
            },
        )
    } else if v.slots[h.index as int].state != required {
        Err(SlabError::InvalidState { expected: required, actual: v.slots[h.index as int].state })
    } else {
        Ok(())
    }
}

/// Mark an allocated slot in flight.
pub open spec fn mark_step(v: SlabView, h: SlotHandle) -> SlabView {
    if check_handle(v, h, SlotState::Allocated) is Ok {
        SlabView {
            slots: v.slots.update(
                h.index as int,
                SlotMeta { generation: h.generation, state: SlotState::InFlight },
            ),
            free: v.free,
        }
    } else {
        v
    }
}

/// Return a slot in state `required` to the free list, advancing its generation.
pub open spec fn release_step(v: SlabView, h: SlotHandle, required: SlotState) -> SlabView {
    if check_handle(v, h, required) is Ok {
        SlabView {
            slots: v.slots.update(
                h.index as int,
                SlotMeta {
                    generation: u32_specs::wrapping_add(h.generation, 1),
                    state: SlotState::Free,
                },
            ),
            free: v.free.push(h.index),
        }
    } else {
        v
    }
}

/// A slab: header, slot metadata and free list.
pub struct TreiberSlab {
    header: TreiberSlabHeader,
    metas: Vec<SlotMeta>,
    free: Vec<u32>,
}

impl TreiberSlab {
    /// Abstract state.
    pub closed spec fn view(&self) -> SlabView {
        SlabView { slots: self.metas@, free: self.free@ }
    }

    /// The invariant: the view is well formed and matches the header.
    pub closed spec fn wf(&self) -> bool {
        &&& slab_wf(self.view())
        &&& self.metas@.len() == self.header.slot_count as nat
    }

    /// A well-formed slab has a well-formed view.
    pub proof fn lemma_view_wf(&self)
        requires
            self.wf(),
        ensures
            slab_wf(self@),
    {
    }

    /// Size of each slot in bytes.
    pub closed spec fn spec_slot_size(&self) -> u32 {
        self.header.slot_size
    }

    /// The slot-availability signal word.
    pub closed spec fn spec_slot_available(&self) -> u32 {
        self.header.slot_available
    }

    /// A slab of `slot_count` free slots of `slot_size` bytes; the free list
    /// hands out slot 0 first, then 1, and so on.
    pub fn new(slot_size: u32, slot_count: u32) -> (r: Self)
        ensures
            r.wf(),
            r.spec_slot_size() == slot_size,
            r.spec_slot_available() == 0,
            r@.slots == Seq::new(slot_count as nat, |i: int| SlotMeta { generation: 0, state: SlotState::Free }),
            r@.free == Seq::new(slot_count as nat, |k: int| (slot_count - 1 - k) as u32),
    {
        let mut metas: Vec<SlotMeta> = Vec::new();
        let mut i: u32 = 0;
        while i < slot_count
            invariant
                i <= slot_count,
                metas@ == Seq::new(i as nat, |j: int| SlotMeta { generation: 0, state: SlotState::Free }),
            decreases slot_count - i,
        {
            metas.push(SlotMeta::new());
            i = i + 1;
            assert(metas@ =~= Seq::new(i as nat, |j: int| SlotMeta { generation: 0, state: SlotState::Free }));
        }
        let mut free: Vec<u32> = Vec::new();
        let mut k: u32 = 0;
        while k < slot_count
            invariant
                k <= slot_count,
                free@ == Seq::new(k as nat, |m: int| (slot_count - 1 - m) as u32),
            decreases slot_count - k,
        {
            free.push(slot_count - 1 - k);
            k = k + 1;
            assert(free@ =~= Seq::new(k as nat, |m: int| (slot_count - 1 - m) as u32));
        }
        let r = TreiberSlab { header: TreiberSlabHeader::new(slot_size, slot_count), metas, free };
        proof {
            let v = r.view();
            assert forall|i: int| 0 <= i < v.slots.len() implies ((#[trigger] v.slots[i]).state
                == SlotState::Free <==> v.free.contains(i as u32)) by {
                let m = slot_count - 1 - i;
                assert(v.free[m] == i as u32);
            }
            assert forall|a: int, b: int|
                0 <= a < v.free.len() && 0 <= b < v.free.len() && a != b implies v.free[a]
                != v.free[b] by {}
        }
        r
    }

    /// Allocate a slot: the last slot pushed on the free list, now `Allocated`.
    pub fn try_alloc(&mut self) -> (r: Option<SlotHandle>)
        requires
            old(self).wf(),
        ensures
            final(self).wf(),
            final(self).spec_slot_size() == old(self).spec_slot_size(),
            final(self).spec_slot_available() == old(self).spec_slot_available(),
            final(self)@ == alloc_step(old(self)@).0,
            r == alloc_step(old(self)@).1,
    {
        let n = self.free.len();
        if n == 0 {
            return None;
        }
        let ghost v = self.view();
        let index = self.free.pop().unwrap();
        let generation = self.metas[index as usize].generation;
        self.metas.set(index as usize, SlotMeta { generation, state: SlotState::Allocated });
        proof {
            let w = self.view();
            assert(w.free =~= v.free.drop_last());
            assert(v.free.contains(index));
            assert forall|i: int| 0 <= i < w.slots.len() implies ((#[trigger] w.slots[i]).state
                == SlotState::Free <==> w.free.contains(i as u32)) by {
                if i == index as int {
                    if w.free.contains(i as u32) {
                        let k = choose|k: int| 0 <= k < w.free.len() && w.free[k] == i as u32;
                        assert(v.free[k] == v.free[v.free.len() - 1]);
                    }
                } else {
                    assert(w.slots[i] == v.slots[i]);
                    if v.free.contains(i as u32) {
                        let k = choose|k: int| 0 <= k < v.free.len() && v.free[k] == i as u32;
                        assert(k != v.free.len() - 1);
                        assert(w.free[k] == i as u32);
                    }
                    if w.free.contains(i as u32) {
                        let k = choose|k: int| 0 <= k < w.free.len() && w.free[k] == i as u32;
                        assert(v.free[k] == i as u32);
                    }
                }
            }
        }
        Some(SlotHandle { index, generation })
    }

    /// Move an allocated slot to `InFlight`.
    pub fn mark_in_flight(&mut self, handle: SlotHandle) -> (r: Result<(), SlabError>)
        requires
            old(self).wf(),
        ensures
            final(self).wf(),
            final(self).spec_slot_size() == old(self).spec_slot_size(),
            final(self).spec_slot_available() == old(self).spec_slot_available(),
            r == check_handle(old(self)@, handle, SlotState::Allocated),
            final(self)@ == mark_step(old(self)@, handle),
    {
        let r = self.check(handle, SlotState::Allocated);
        if r.is_err() {
            return r;
        }
        let ghost v = self.view();
        self.metas.set(
            handle.index as usize,
            SlotMeta { generation: handle.generation, state: SlotState::InFlight },
        );
        proof {
            let w = self.view();
            assert(w.free == v.free);
            assert forall|i: int| 0 <= i < w.slots.len() implies ((#[trigger] w.slots[i]).state
                == SlotState::Free <==> w.free.contains(i as u32)) by {
                if i != handle.index as int {
                    assert(w.slots[i] == v.slots[i]);
                } else {
                    assert(v.slots[i].state == SlotState::Allocated);
                }
            }
        }
        Ok(())
    }

    /// Return an in-flight slot to the free list.
    pub fn free(&mut self, handle: SlotHandle) -> (r: Result<(), SlabError>)
        requires
            old(self).wf(),
        ensures
            final(self).wf(),
            final(self).spec_slot_size() == old(self).spec_slot_size(),
            r == check_handle(old(self)@, handle, SlotState::InFlight),
            final(self)@ == release_step(old(self)@, handle, SlotState::InFlight),
            final(self).spec_slot_available() == (if r is Ok {
                u32_specs::wrapping_add(old(self).spec_slot_available(), 1)
            } else {
                old(self).spec_slot_available()
            }),
    {
        self.release(handle, SlotState::InFlight)
    }

    /// Return an allocated slot that was never sent to the free list.
    pub fn free_allocated(&mut self, handle: SlotHandle) -> (r: Result<(), SlabError>)
        requires
            old(self).wf(),
        ensures
            final(self).wf(),
            final(self).spec_slot_size() == old(self).spec_slot_size(),
            r == check_handle(old(self)@, handle, SlotState::Allocated),
            final(self)@ == release_step(old(self)@, handle, SlotState::Allocated),
            final(self).spec_slot_available() == (if r is Ok {
                u32_specs::wrapping_add(old(self).spec_slot_available(), 1)
            } else {
                old(self).spec_slot_available()
            }),
    {
        self.release(handle, SlotState::Allocated)
    }

    fn check(&self, handle: SlotHandle, required: SlotState) -> (r: Result<(), SlabError>)
        requires
            self.wf(),
        ensures
            r == check_handle(self@, handle, required),
    {
        if handle.index as usize >= self.metas.len() {
            return Err(SlabError::InvalidIndex);
        }
        let meta = self.metas[handle.index as usize];
        if meta.generation != handle.generation {
            return Err(
                SlabError::GenerationMismatch {
                    expected: handle.generation,
                    actual: meta.generation,
                },
            );
        }
        if meta.state != required {
            return Err(SlabError::InvalidState { expected: required, actual: meta.state });
        }
        Ok(())
    }

    fn release(&mut self, handle: SlotHandle, required: SlotState) -> (r: Result<(), SlabError>)
        requires
            old(self).wf(),
            required != SlotState::Free,
        ensures
            final(self).wf(),
            final(self).spec_slot_size() == old(self).spec_slot_size(),
            r == check_handle(old(self)@, handle, required),
            final(self)@ == release_step(old(self)@, handle, required),
            final(self).spec_slot_available() == (if r is Ok {
                u32_specs::wrapping_add(old(self).spec_slot_available(), 1)
            } else {
                old(self).spec_slot_available()
            }),
    {
        let r = self.check(handle, required);
        if r.is_err() {
            return r;
        }
        let ghost v = self.view();
        self.metas.set(
            handle.index as usize,
            SlotMeta { generation: handle.generation.wrapping_add(1), state: SlotState::Free },
        );
        self.free.push(handle.index);
        self.header.slot_available = self.header.slot_available.wrapping_add(1);
        proof {
            let w = self.view();
            assert(w.free == v.free.push(handle.index));
            assert(!v.free.contains(handle.index));
            assert forall|a: int, b: int|
                0 <= a < w.free.len() && 0 <= b < w.free.len() && a != b implies w.free[a]
                != w.free[b] by {
                if a == v.free.len() as int {
                    assert(w.free[b] == v.free[b]);
                } else if b == v.free.len() as int {
                    assert(w.free[a] == v.free[a]);
                }
            }
            assert forall|i: int| 0 <= i < w.slots.len() implies ((#[trigger] w.slots[i]).state
                == SlotState::Free <==> w.free.contains(i as u32)) by {
                if i != handle.index as int {
                    assert(w.slots[i] == v.slots[i]);
                    if v.free.contains(i as u32) {
                        let k = choose|k: int| 0 <= k < v.free.len() && v.free[k] == i as u32;
                        assert(w.free[k] == i as u32);
                    }
                    if w.free.contains(i as u32) {
                        let k = choose|k: int| 0 <= k < w.free.len() && w.free[k] == i as u32;
                        assert(k != v.free.len() as int);
                        assert(v.free[k] == i as u32);
                    }
                } else {
                    assert(w.free[v.free.len() as int] == handle.index);
                }
            }
        }
        Ok(())
    }

    /// Size of each slot in bytes.
    pub fn slot_size(&self) -> (r: u32)
        ensures
            r == self.spec_slot_size(),
    {
        self.header.slot_size
    }

    /// Number of slots.
    pub fn slot_count(&self) -> (r: u32)
        requires
            self.wf(),
        ensures
            r == self@.slots.len(),
    {
        self.header.slot_count
    }

    /// Number of slots on the free list.
    pub fn free_count(&self) -> (r: u32)
        requires
            self.wf(),
        ensures
            r == self@.free.len(),
    {
        proof {
            lemma_free_len_bounded(self@);
        }
        self.free.len() as u32
    }

    /// Bump the slot-availability signal word.
    pub fn signal_slot_available(&mut self)
        requires
            old(self).wf(),
        ensures
            final(self).wf(),
            final(self)@ == old(self)@,
            final(self).spec_slot_size() == old(self).spec_slot_size(),
            final(self).spec_slot_available() == u32_specs::wrapping_add(old(self).spec_slot_available(), 1),
    {
        self.header.slot_available = self.header.slot_available.wrapping_add(1);
    }

    /// The slot-availability signal word.
    pub fn slot_available(&self) -> (r: u32)
        ensures
            r == self.spec_slot_available(),
    {
        self.header.slot_available
    }

    /// Metadata of slot `index`.
    pub fn meta(&self, index: u32) -> (r: SlotMeta)
        requires
            self.wf(),
            index < self@.slots.len(),
        ensures
            r == self@.slots[index as int],
    {
        self.metas[index as usize]
    }
}

/// The free list of a well-formed slab is no longer than the slab.
pub proof fn lemma_free_len_bounded(v: SlabView)
    requires
        slab_wf(v),
    ensures
        v.free.len() <= v.slots.len(),
{
    let s = Set::new(|i: u32| i < v.slots.len());
    assert(v.free.to_set().subset_of(s));
    v.free.unique_seq_to_set();
    lemma_u32_range_finite_len(v.slots.len());
    vstd::set_lib::lemma_len_subset(v.free.to_set(), s);
}

/// The set of `u32` below `n` is finite and has `n` elements.
pub proof fn lemma_u32_range_finite_len(n: nat)
    requires
        n <= u32::MAX + 1,
    ensures
        Set::new(|i: u32| i < n).finite(),
        Set::new(|i: u32| i < n).len() == n,
    decreases n,
{
    if n == 0 {
        assert(Set::new(|i: u32| i < n) =~= Set::<u32>::empty());
    } else {
        lemma_u32_range_finite_len((n - 1) as nat);
        let smaller = Set::new(|i: u32| i < (n - 1) as nat);
        assert(Set::new(|i: u32| i < n) =~= smaller.insert((n - 1) as u32));
    }
}

/// Every transition keeps the free list exact.
pub proof fn lemma_steps_keep_wf(v: SlabView, h: SlotHandle, required: SlotState)
    requires
        slab_wf(v),
        required != SlotState::Free,
    ensures
        slab_wf(alloc_step(v).0),
        slab_wf(mark_step(v, h)),
        slab_wf(release_step(v, h, required)),
{
    let a = alloc_step(v).0;
    if v.free.len() > 0 {
        let i = v.free.last();
        assert(v.free.contains(i));
        assert forall|j: int| 0 <= j < a.slots.len() implies ((#[trigger] a.slots[j]).state
            == SlotState::Free <==> a.free.contains(j as u32)) by {
            if j == i as int {
                if a.free.contains(j as u32) {
                    let k = choose|k: int| 0 <= k < a.free.len() && a.free[k] == j as u32;
                    assert(v.free[k] == v.free[v.free.len() - 1]);
                }
            } else {
                if v.free.contains(j as u32) {
                    let k = choose|k: int| 0 <= k < v.free.len() && v.free[k] == j as u32;
                    assert(a.free[k] == j as u32);
                }
                if a.free.contains(j as u32) {
                    let k = choose|k: int| 0 <= k < a.free.len() && a.free[k] == j as u32;
                    assert(v.free[k] == j as u32);
                }
            }
        }
    }
    let m = mark_step(v, h);
    if check_handle(v, h, SlotState::Allocated) is Ok {
        assert forall|j: int| 0 <= j < m.slots.len() implies ((#[trigger] m.slots[j]).state
            == SlotState::Free <==> m.free.contains(j as u32)) by {
            if j != h.index as int {
                assert(m.slots[j] == v.slots[j]);
            } else {
                assert(v.slots[j].state == SlotState::Allocated);
            }
        }
    }
    let r = release_step(v, h, required);
    if check_handle(v, h, required) is Ok {
        assert(!v.free.contains(h.index));
        assert forall|x: int, y: int|
            0 <= x < r.free.len() && 0 <= y < r.free.len() && x != y implies r.free[x]
            != r.free[y] by {
            if x == v.free.len() as int {
                assert(r.free[y] == v.free[y]);
            } else if y == v.free.len() as int {
                assert(r.free[x] == v.free[x]);
            }
        }
        assert forall|j: int| 0 <= j < r.slots.len() implies ((#[trigger] r.slots[j]).state
            == SlotState::Free <==> r.free.contains(j as u32)) by {
            if j != h.index as int {
                assert(r.slots[j] == v.slots[j]);
                if v.free.contains(j as u32) {
                    let k = choose|k: int| 0 <= k < v.free.len() && v.free[k] == j as u32;
                    assert(r.free[k] == j as u32);
                }
                if r.free.contains(j as u32) {
                    let k = choose|k: int| 0 <= k < r.free.len() && r.free[k] == j as u32;
                    assert(k != v.free.len() as int);
                    assert(v.free[k] == j as u32);
                }
            } else {
                assert(r.free[v.free.len() as int] == h.index);
            }
        }
    }
}

/// Allocation fails exactly when no slot is free, and a slot it hands out
/// was free.
pub proof fn lemma_alloc_fails_iff_exhausted(v: SlabView)
    requires
        slab_wf(v),
    ensures
        alloc_step(v).1 is None <==> forall|i: int|
            0 <= i < v.slots.len() ==> (#[trigger] v.slots[i]).state != SlotState::Free,
        alloc_step(v).1 matches Some(h) ==> h.index < v.slots.len() && v.slots[h.index as int].state
            == SlotState::Free,
{
    if v.free.len() > 0 {
        let i = v.free.last();
        assert(v.free.contains(i));
        assert(v.slots[i as int].state == SlotState::Free);
    } else {
        assert forall|i: int| 0 <= i < v.slots.len() implies (#[trigger] v.slots[i]).state
            != SlotState::Free by {
            assert(!v.free.contains(i as u32));
        }
    }
}

/// A slot is never handed out twice: two allocations in a row return
/// different slots.
pub proof fn lemma_alloc_exclusive(v: SlabView)
    requires
        slab_wf(v),
        alloc_step(v).1 is Some,
        alloc_step(alloc_step(v).0).1 is Some,
    ensures
        alloc_step(v).1->0.index != alloc_step(alloc_step(v).0).1->0.index,
{
    let n = v.free.len();
    assert(v.free[n - 1] != v.free[n - 2]);
}

/// The slot life cycle: a freshly allocated handle can be marked in flight and
/// then freed, which puts the slot back on the free list with its generation
/// advanced.
pub proof fn lemma_slot_lifecycle(v: SlabView)
    requires
        slab_wf(v),
        alloc_step(v).1 is Some,
    ensures
        ({
            let (v1, oh) = alloc_step(v);
            let h = oh->0;
            let v2 = mark_step(v1, h);
            let v3 = release_step(v2, h, SlotState::InFlight);
            &&& check_handle(v1, h, SlotState::Allocated) is Ok
            &&& check_handle(v2, h, SlotState::InFlight) is Ok
            &&& v3.free.len() == v.free.len()
            &&& v3.slots[h.index as int].state == SlotState::Free
            &&& v3.slots[h.index as int].generation == u32_specs::wrapping_add(h.generation, 1)
        }),
{
    lemma_alloc_fails_iff_exhausted(v);
}

/// A handle is good for one return to the free list only: once the slot is
/// released, the same handle is refused as stale by every transition.
pub proof fn lemma_stale_handle_refused(
    v: SlabView,
    h: SlotHandle,
    required: SlotState,
    later: SlotState,
)
    requires
        slab_wf(v),
        check_handle(v, h, required) is Ok,
    ensures
        check_handle(release_step(v, h, required), h, later) == Err::<(), SlabError>(
            SlabError::GenerationMismatch {
                expected: h.generation,
                actual: u32_specs::wrapping_add(h.generation, 1),
            },
        ),
{
}

/// Freeing an allocated slot that was never sent undoes the allocation, up to
/// the slot's generation.
pub proof fn lemma_free_allocated_undoes_alloc(v: SlabView)
    requires
        slab_wf(v),
        alloc_step(v).1 is Some,
    ensures
        ({
            let (v1, oh) = alloc_step(v);
            let h = oh->0;
            let v2 = release_step(v1, h, SlotState::Allocated);
            &&& v2.free == v.free
            &&& v2.slots == v.slots.update(
                h.index as int,
                SlotMeta {
                    generation: u32_specs::wrapping_add(h.generation, 1),
                    state: SlotState::Free,
                },
            )
        }),
{
    lemma_alloc_fails_iff_exhausted(v);
    let (v1, oh) = alloc_step(v);
    let h = oh->0;
    let v2 = release_step(v1, h, SlotState::Allocated);
    assert(v2.free =~= v.free);
    assert(v2.slots =~= v.slots.update(
        h.index as int,
        SlotMeta { generation: u32_specs::wrapping_add(h.generation, 1), state: SlotState::Free },
    ));
}

/// `n` allocations in a row from `v`: the state after them and the handles
/// they gave out, in order; an allocation that finds no free slot ends the run.
pub open spec fn alloc_run(v: SlabView, n: nat) -> (SlabView, Seq<SlotHandle>)
    decreases n,
{
    if n == 0 {
        (v, Seq::empty())
    } else {
        let (v1, h) = alloc_step(v);
        match h {
            None => (v1, Seq::empty()),
            Some(h) => {
                let (v2, hs) = alloc_run(v1, (n - 1) as nat);
                (v2, seq![h] + hs)
            },
        }
    }
}

/// Frees the allocated slots of `hs`, in order.
pub open spec fn free_run(v: SlabView, hs: Seq<SlotHandle>) -> SlabView
    decreases hs.len(),
{
    if hs.len() == 0 {
        v
    } else {
        free_run(release_step(v, hs[0], SlotState::Allocated), hs.drop_first())
    }
}

/// Every handle of `hs` is good for freeing an allocated slot of `v`, and no
/// two of them name the same slot.
pub open spec fn all_allocated(v: SlabView, hs: Seq<SlotHandle>) -> bool {
    &&& forall|k: int| 0 <= k < hs.len() ==> check_handle(v, #[trigger] hs[k], SlotState::Allocated) is Ok
    &&& forall|j: int, k: int| 0 <= j < k < hs.len() ==> (#[trigger] hs[j]).index != (#[trigger] hs[k]).index
}

/// A run of `n` allocations (at most the free slots) hands out `n` distinct
/// allocated slots taken from the free list, and changes no other slot.
proof fn lemma_alloc_run(v: SlabView, n: nat)
    requires
        slab_wf(v),
        n <= v.free.len(),
    ensures
        ({
            let (v2, hs) = alloc_run(v, n);
            &&& slab_wf(v2)
            &&& hs.len() == n
            &&& v2.free.len() == v.free.len() - n
            &&& v2.slots.len() == v.slots.len()
            &&& all_allocated(v2, hs)
            &&& forall|k: int| 0 <= k < n ==> v.free.contains(#[trigger] hs[k].index)
            &&& forall|k: int| 0 <= k < v2.free.len() ==> #[trigger] v2.free[k] == v.free[k]
            &&& forall|j: int|
                0 <= j < v.slots.len() && !v.free.contains(j as u32) ==> #[trigger] v2.slots[j]
                    == v.slots[j]
        }),
    decreases n,
{
    if n > 0 {
        lemma_steps_keep_wf(v, SlotHandle { index: 0, generation: 0 }, SlotState::Allocated);
        let (v1, oh) = alloc_step(v);
        let h = oh->0;
        let i = v.free.last();
        assert(v.free.contains(i));
        lemma_alloc_run(v1, (n - 1) as nat);
        let (v2, hs1) = alloc_run(v1, (n - 1) as nat);
        let hs = seq![h] + hs1;
        assert(alloc_run(v, n) == (v2, hs));
        // The slot handed out first is not on the rest of the free list.
        assert(!v1.free.contains(i)) by {
            if v1.free.contains(i) {
                let k = choose|k: int| 0 <= k < v1.free.len() && v1.free[k] == i;
                assert(v.free[k] == v.free[v.free.len() - 1]);
            }
        }
        assert(v2.slots[i as int] == v1.slots[i as int]);
        assert forall|k: int| 0 <= k < hs.len() implies check_handle(v2, #[trigger] hs[k], SlotState::Allocated) is Ok by {
            if k > 0 {
                assert(hs[k] == hs1[k - 1]);
            }
        }
        assert forall|j: int, k: int| 0 <= j < k < hs.len() implies (#[trigger] hs[j]).index
            != (#[trigger] hs[k]).index by {
            assert(hs[k] == hs1[k - 1]);
            assert(v1.free.contains(hs1[k - 1].index));
            if j > 0 {
                assert(hs[j] == hs1[j - 1]);
            }
        }
        assert forall|k: int| 0 <= k < n implies v.free.contains(#[trigger] hs[k].index) by {
            if k > 0 {
                assert(hs[k] == hs1[k - 1]);
                let m = choose|m: int| 0 <= m < v1.free.len() && v1.free[m] == hs1[k - 1].index;
                assert(v.free[m] == v1.free[m]);
            }
        }
        assert forall|k: int| 0 <= k < v2.free.len() implies #[trigger] v2.free[k] == v.free[k] by {
            assert(v2.free[k] == v1.free[k]);
        }
        assert forall|j: int|
            0 <= j < v.slots.len() && !v.free.contains(j as u32) implies #[trigger] v2.slots[j]
            == v.slots[j] by {
            assert(j != i as int);
            if v1.free.contains(j as u32) {
                let m = choose|m: int| 0 <= m < v1.free.len() && v1.free[m] == j as u32;
                assert(v.free[m] == v1.free[m]);
            }
            assert(v1.slots[j] == v.slots[j]);
        }
    } else {
        assert(alloc_run(v, 0) == (v, Seq::<SlotHandle>::empty()));
    }
}

/// Freeing allocated slots with distinct handles puts each back on the free
/// list.
proof fn lemma_free_run(v: SlabView, hs: Seq<SlotHandle>)
    requires
        slab_wf(v),
        all_allocated(v, hs),
    ensures
        slab_wf(free_run(v, hs)),
        free_run(v, hs).free.len() == v.free.len() + hs.len(),
        free_run(v, hs).slots.len() == v.slots.len(),
    decreases hs.len(),
{
    if hs.len() > 0 {
        let h = hs[0];
        let v1 = release_step(v, h, SlotState::Allocated);
        lemma_steps_keep_wf(v, h, SlotState::Allocated);
        let rest = hs.drop_first();
        assert forall|k: int| 0 <= k < rest.len() implies check_handle(v1, #[trigger] rest[k], SlotState::Allocated) is Ok by {
            assert(rest[k] == hs[k + 1]);
            assert(hs[k + 1].index != hs[0].index);
            assert(check_handle(v, hs[k + 1], SlotState::Allocated) is Ok);
        }
        assert forall|j: int, k: int| 0 <= j < k < rest.len() implies (#[trigger] rest[j]).index
            != (#[trigger] rest[k]).index by {
            assert(rest[j] == hs[j + 1]);
            assert(rest[k] == hs[k + 1]);
        }
        assert(check_handle(v, hs[0], SlotState::Allocated) is Ok);
        lemma_free_run(v1, rest);
    }
}

/// No slot leaks: from a slab whose `f` slots are all free, `f` allocations
/// in a row all succeed with distinct slots, the next one fails and changes
/// nothing, and once those `f` slots are freed, `f` slots are free again, so
/// that another `f` allocations succeed.
pub proof fn lemma_no_slot_leak(v: SlabView)
    requires
        slab_wf(v),
    ensures
        ({
            let f = v.free.len();
            let (v2, hs) = alloc_run(v, f);
            let v3 = free_run(v2, hs);
            &&& hs.len() == f
            &&& forall|j: int, k: int| 0 <= j < k < hs.len() ==> (#[trigger] hs[j]).index
                != (#[trigger] hs[k]).index
            &&& alloc_step(v2).1 is None
            &&& alloc_step(v2).0 == v2
            &&& slab_wf(v3)
            &&& v3.free.len() == f
            &&& alloc_run(v3, f).1.len() == f
        }),
{
    let f = v.free.len();
    lemma_alloc_run(v, f);
    let (v2, hs) = alloc_run(v, f);
    lemma_free_run(v2, hs);
    let v3 = free_run(v2, hs);
    lemma_alloc_run(v3, f);
}

} // verus!
