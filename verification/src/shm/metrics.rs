//! Counters for the shared-memory transport: zero-copy encodes, slot
//! allocation, ring traffic and frame kinds. Counters wrap around on overflow.

use vstd::prelude::*;
use vstd::wrapping::u64_specs;

verus! {

/// Metrics of the shared-memory transport.
#[derive(Debug)]
pub struct ShmMetrics {
    /// Number of encodes that found the data already in shared memory.
    pub zero_copy_encodes: u64,
    /// Number of encodes that had to copy the data.
    pub copy_encodes: u64,
    /// Total bytes encoded without copying.
    pub zero_copy_bytes: u64,
    /// Total bytes copied while encoding.
    pub copied_bytes: u64,
    /// Number of successful slot allocations.
    pub alloc_success: u64,
    /// Number of failed slot allocations.
    pub alloc_failures: u64,
    /// Number of slot frees.
    pub slot_frees: u64,
    /// Total bytes copied into slots.
    pub slot_copy_bytes: u64,
    /// Number of successful ring enqueues.
    pub ring_enqueues: u64,
    /// Number of enqueues refused by a full ring.
    pub ring_full_errors: u64,
    /// Number of ring dequeues.
    pub ring_dequeues: u64,
    /// Number of frames sent with an inline payload.
    pub inline_sends: u64,
    /// Number of frames sent with a slot payload.
    pub slot_sends: u64,
}

/// `x + 1`, wrapping around.
pub open spec fn bump(x: u64) -> u64 {
    u64_specs::wrapping_add(x, 1)
}

/// `x + n`, wrapping around.
pub open spec fn bump_by(x: u64, n: usize) -> u64 {
    u64_specs::wrapping_add(x, n as u64)
}

/// All counters are zero.
pub open spec fn all_zero(m: ShmMetrics) -> bool {
    &&& m.zero_copy_encodes == 0
    &&& m.copy_encodes == 0
    &&& m.zero_copy_bytes == 0
    &&& m.copied_bytes == 0
    &&& m.alloc_success == 0
    &&& m.alloc_failures == 0
    &&& m.slot_frees == 0
    &&& m.slot_copy_bytes == 0
    &&& m.ring_enqueues == 0
    &&& m.ring_full_errors == 0
    &&& m.ring_dequeues == 0
    &&& m.inline_sends == 0
    &&& m.slot_sends == 0
}

impl ShmMetrics {
    /// All counters at zero.
    pub fn new() -> (r: Self)
        ensures
            all_zero(r),
    {
        ShmMetrics {
            zero_copy_encodes: 0,
            copy_encodes: 0,
            zero_copy_bytes: 0,
            copied_bytes: 0,
            alloc_success: 0,
            alloc_failures: 0,
            slot_frees: 0,
            slot_copy_bytes: 0,
            ring_enqueues: 0,
            ring_full_errors: 0,
            ring_dequeues: 0,
            inline_sends: 0,
            slot_sends: 0,
        }
    }

    /// Record a zero-copy encode of `bytes` bytes.
    pub fn record_zero_copy(&mut self, bytes: usize)
        ensures
            *final(self) == (ShmMetrics { zero_copy_encodes: bump(old(self).zero_copy_encodes), zero_copy_bytes: bump_by(old(self).zero_copy_bytes, bytes), ..*old(self) }),
    {
        self.zero_copy_encodes = self.zero_copy_encodes.wrapping_add(1);
        self.zero_copy_bytes = self.zero_copy_bytes.wrapping_add(bytes as u64);
    }

    /// Record a copying encode of `bytes` bytes.
    pub fn record_copy(&mut self, bytes: usize)
        ensures
            *final(self) == (ShmMetrics { copy_encodes: bump(old(self).copy_encodes), copied_bytes: bump_by(old(self).copied_bytes, bytes), ..*old(self) }),
    {
        self.copy_encodes = self.copy_encodes.wrapping_add(1);
        self.copied_bytes = self.copied_bytes.wrapping_add(bytes as u64);
    }

    /// Record a successful slot allocation.
    pub fn record_alloc_success(&mut self)
        ensures
            *final(self) == (ShmMetrics { alloc_success: bump(old(self).alloc_success), ..*old(self) }),
    {
        self.alloc_success = self.alloc_success.wrapping_add(1);
    }

    /// Record a failed slot allocation.
    pub fn record_alloc_failure(&mut self)
        ensures
            *final(self) == (ShmMetrics { alloc_failures: bump(old(self).alloc_failures), ..*old(self) }),
    {
        self.alloc_failures = self.alloc_failures.wrapping_add(1);
    }

    /// Record a slot free.
    pub fn record_slot_free(&mut self)
        ensures
            *final(self) == (ShmMetrics { slot_frees: bump(old(self).slot_frees), ..*old(self) }),
    {
        self.slot_frees = self.slot_frees.wrapping_add(1);
    }

    /// Record `bytes` bytes copied into a slot.
    pub fn record_slot_copy(&mut self, bytes: usize)
        ensures
            *final(self) == (ShmMetrics { slot_copy_bytes: bump_by(old(self).slot_copy_bytes, bytes), ..*old(self) }),
    {
        self.slot_copy_bytes = self.slot_copy_bytes.wrapping_add(bytes as u64);
    }

    /// Record a successful ring enqueue.
    pub fn record_ring_enqueue(&mut self)
        ensures
            *final(self) == (ShmMetrics { ring_enqueues: bump(old(self).ring_enqueues), ..*old(self) }),
    {
        self.ring_enqueues = self.ring_enqueues.wrapping_add(1);
    }

    /// Record an enqueue refused by a full ring.
    pub fn record_ring_full(&mut self)
        ensures
            *final(self) == (ShmMetrics { ring_full_errors: bump(old(self).ring_full_errors), ..*old(self) }),
    {
        self.ring_full_errors = self.ring_full_errors.wrapping_add(1);
    }

    /// Record a ring dequeue.
    pub fn record_ring_dequeue(&mut self)
        ensures
            *final(self) == (ShmMetrics { ring_dequeues: bump(old(self).ring_dequeues), ..*old(self) }),
    {
        self.ring_dequeues = self.ring_dequeues.wrapping_add(1);
    }

    /// Record a frame sent with an inline payload.
    pub fn record_inline_send(&mut self)
        ensures
            *final(self) == (ShmMetrics { inline_sends: bump(old(self).inline_sends), ..*old(self) }),
    {
        self.inline_sends = self.inline_sends.wrapping_add(1);
    }

    /// Record a frame sent with a slot payload.
    pub fn record_slot_send(&mut self)
        ensures
            *final(self) == (ShmMetrics { slot_sends: bump(old(self).slot_sends), ..*old(self) }),
    {
        self.slot_sends = self.slot_sends.wrapping_add(1);
    }

    /// Number of zero-copy encodes.
    pub fn zero_copy_count(&self) -> (r: u64)
        ensures
            r == self.zero_copy_encodes,
    {
        self.zero_copy_encodes
    }

    /// Number of copying encodes.
    pub fn copy_count(&self) -> (r: u64)
        ensures
            r == self.copy_encodes,
    {
        self.copy_encodes
    }

    /// Number of failed slot allocations.
    pub fn alloc_failure_count(&self) -> (r: u64)
        ensures
            r == self.alloc_failures,
    {
        self.alloc_failures
    }

    /// Number of successful slot allocations.
    pub fn alloc_success_count(&self) -> (r: u64)
        ensures
            r == self.alloc_success,
    {
        self.alloc_success
    }

    /// Number of enqueues refused by a full ring.
    pub fn ring_full_count(&self) -> (r: u64)
        ensures
            r == self.ring_full_errors,
    {
        self.ring_full_errors
    }
}

impl Default for ShmMetrics {
    fn default() -> (r: Self)
        ensures
            all_zero(r),
    {
        ShmMetrics::new()
    }
}

} // verus!
