//! Single-producer single-consumer ring of fixed capacity.
//!
//! The producer keeps a private head; after writing an item it publishes the
//! head as `visible_head`. The consumer advances `tail`. Items `tail..visible_head`
//! are in the ring; item `n` lives in slot `n % capacity`.

use vstd::prelude::*;

verus! {

/// Ring header: published head, consumer tail and capacity, each on its own
/// 64-byte line (192 bytes in all).
#[derive(Clone, Copy, Debug)]
pub struct SpscRingHeader {
    /// Producer's published head: items `0..visible_head` have been enqueued.
    pub visible_head: u64,
    pub _pad_head: [u8; 56],
    /// Consumer's tail: items `0..tail` have been dequeued.
    pub tail: u64,
    pub _pad_tail: [u8; 56],
    /// Number of slots.
    pub capacity: u32,
    pub _pad_capacity: [u8; 60],
}

impl SpscRingHeader {
    /// A header for an empty ring of `capacity` slots.
    pub fn new(capacity: u32) -> (r: Self)
        ensures
            r.visible_head == 0,
            r.tail == 0,
            r.capacity == capacity,
    {
        SpscRingHeader {
            visible_head: 0,
            _pad_head: [0u8; 56],
            tail: 0,
            _pad_tail: [0u8; 56],
            capacity,
            _pad_capacity: [0u8; 60],
        }
    }

    /// Reset the header to an empty ring of `capacity` slots.
    pub fn init(&mut self, capacity: u32)
        ensures
            final(self).visible_head == 0,
            final(self).tail == 0,
            final(self).capacity == capacity,
    {
        *self = SpscRingHeader::new(capacity);
    }
}

/// The ring is full.
#[derive(Clone, Copy, Debug, PartialEq, Eq, Structural)]
pub struct RingFull;

/// Snapshot of a ring's positions.
#[derive(Clone, Copy, Debug, PartialEq, Eq, Structural)]
pub struct SpscRingStatus {
    pub visible_head: u64,
    pub tail: u64,
    pub capacity: u32,
    pub len: u32,
}

/// A ring of `T` with its header and its slots.
pub struct SpscRing<T> {
    header: SpscRingHeader,
    slots: Vec<T>,
}

/// Distinct integers less than `m` apart have distinct residues modulo `m`.
pub proof fn lemma_mod_distinct(a: int, b: int, m: int)
    requires
        m > 0,
        0 <= a < b < a + m,
    ensures
        a % m != b % m,
{
    assert(a % m != b % m) by (nonlinear_arith)
        requires
            m > 0,
            0 <= a < b < a + m,
    {
        let qa = a / m;
        let qb = b / m;
        assert(a == m * qa + a % m);
        assert(b == m * qb + b % m);
        assert(0 <= a % m < m);
        assert(0 <= b % m < m);
        if a % m == b % m {
            assert(b - a == m * (qb - qa));
            if qb - qa >= 1 {
                assert(m * (qb - qa) >= m);
            } else {
                assert(m * (qb - qa) <= 0);
            }
        }
    }
}

impl<T: Copy> SpscRing<T> {
    /// The well-formedness invariant: one slot per unit of capacity, and at
    /// most `capacity` items between tail and head.
    pub closed spec fn wf(&self) -> bool {
        &&& self.header.capacity > 0
        &&& self.slots@.len() == self.header.capacity as nat
        &&& self.header.tail <= self.header.visible_head
        &&& self.header.visible_head - self.header.tail <= self.header.capacity
    }

    /// The positions of a well-formed ring: the tail never passes the head,
    /// the ring holds `head - tail` items, at most its capacity, which is
    /// positive.
    pub proof fn lemma_positions(&self)
        requires
            self.wf(),
        ensures
            self.spec_tail() <= self.spec_head(),
            self@.len() == self.spec_head() - self.spec_tail(),
            self@.len() <= self.spec_capacity(),
            self.spec_capacity() > 0,
    {
    }

    /// The items in the ring, oldest first.
    pub closed spec fn view(&self) -> Seq<T> {
        Seq::new(
            (self.header.visible_head - self.header.tail) as nat,
            |i: int| self.slots@[(self.header.tail + i) % (self.header.capacity as int)],
        )
    }

    /// Number of slots.
    pub closed spec fn spec_capacity(&self) -> nat {
        self.header.capacity as nat
    }

    /// The producer's published head.
    pub closed spec fn spec_head(&self) -> u64 {
        self.header.visible_head
    }

    /// The consumer's tail.
    pub closed spec fn spec_tail(&self) -> u64 {
        self.header.tail
    }

    /// An empty ring of `capacity` slots, each holding `fill`.
    pub fn new(capacity: u32, fill: T) -> (r: Self)
        requires
            capacity > 0,
        ensures
            r.wf(),
            r@.len() == 0,
            r.spec_capacity() == capacity,
            r.spec_head() == 0,
            r.spec_tail() == 0,
    {
        let mut slots: Vec<T> = Vec::new();
        let mut i: u32 = 0;
        while i < capacity
            invariant
                i <= capacity,
                slots@.len() == i as nat,
            decreases capacity - i,
        {
            slots.push(fill);
            i = i + 1;
        }
        SpscRing { header: SpscRingHeader::new(capacity), slots }
    }

    /// Enqueue `item` (producer side). `local_head` is the producer's private
    /// head; on success it is advanced and published.
    pub fn enqueue(&mut self, local_head: &mut u64, item: T) -> (r: Result<(), RingFull>)
        requires
            old(self).wf(),
            *old(local_head) == old(self).spec_head(),
            old(self).spec_head() < u64::MAX,
        ensures
            final(self).wf(),
            final(self).spec_capacity() == old(self).spec_capacity(),
            final(self).spec_tail() == old(self).spec_tail(),
            *final(local_head) == final(self).spec_head(),
            old(self)@.len() < old(self).spec_capacity() ==> {
                &&& r is Ok
                &&& final(self)@ == old(self)@.push(item)
                &&& final(self).spec_head() == old(self).spec_head() + 1
            },
            old(self)@.len() == old(self).spec_capacity() ==> {
                &&& r is Err
                &&& final(self)@ == old(self)@
                &&& final(self).spec_head() == old(self).spec_head()
            },
    {
        let head = *local_head;
        let cap = self.header.capacity as u64;
        if head - self.header.tail >= cap {
            return Err(RingFull);
        }
        let idx = (head % cap) as usize;
        let ghost old_view = self@;
        let ghost tail = self.header.tail as int;
        let ghost len = (head - self.header.tail) as int;
        self.slots.set(idx, item);
        self.header.visible_head = head + 1;
        *local_head = head + 1;
        proof {
            assert forall|i: int| 0 <= i < len implies self@[i] == old_view[i] by {
                lemma_mod_distinct(tail + i, tail + len, cap as int);
            }
            assert(self@ =~= old_view.push(item));
        }
        Ok(())
    }

    /// Dequeue the oldest item (consumer side), if any.
    pub fn dequeue(&mut self) -> (r: Option<T>)
        requires
            old(self).wf(),
        ensures
            final(self).wf(),
            final(self).spec_capacity() == old(self).spec_capacity(),
            final(self).spec_head() == old(self).spec_head(),
            old(self)@.len() == 0 ==> {
                &&& r is None
                &&& final(self)@ == old(self)@
                &&& final(self).spec_tail() == old(self).spec_tail()
            },
            old(self)@.len() > 0 ==> {
                &&& r == Some(old(self)@[0])
                &&& final(self)@ == old(self)@.drop_first()
                &&& final(self).spec_tail() == old(self).spec_tail() + 1
            },
    {
        if self.header.tail >= self.header.visible_head {
            return None;
        }
        let cap = self.header.capacity as u64;
        let idx = (self.header.tail % cap) as usize;
        let item = self.slots[idx];
        let ghost old_view = self@;
        self.header.tail = self.header.tail + 1;
        proof {
            assert(self@ =~= old_view.drop_first());
        }
        Some(item)
    }

    /// True when the ring holds no item.
    pub fn is_empty(&self) -> (r: bool)
        requires
            self.wf(),
        ensures
            r == (self@.len() == 0),
    {
        self.header.tail >= self.header.visible_head
    }

    /// Number of slots.
    pub fn capacity(&self) -> (r: u32)
        ensures
            r == self.spec_capacity(),
    {
        self.header.capacity
    }

    /// Snapshot of the ring's positions and length.
    pub fn status(&self) -> (r: SpscRingStatus)
        requires
            self.wf(),
        ensures
            r.visible_head == self.spec_head(),
            r.tail == self.spec_tail(),
            r.capacity == self.spec_capacity(),
            r.len == self@.len(),
    {
        SpscRingStatus {
            visible_head: self.header.visible_head,
            tail: self.header.tail,
            capacity: self.header.capacity,
            len: (self.header.visible_head - self.header.tail) as u32,
        }
    }
}

} // verus!
