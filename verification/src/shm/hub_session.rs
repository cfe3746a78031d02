//! Hub session bookkeeping: the hub's configuration, its errors, the peer ID
//! checks, and where each peer's descriptor rings lie in the hub.

use vstd::prelude::*;

use crate::error::std_io_error_text;
use crate::shm::layout::{is_pow2, DESC_SIZE, RING_HEADER_SIZE};

verus! {

/// Configuration of a hub.
#[derive(Clone, Copy, Debug)]
pub struct HubConfig {
    /// How many peers the hub has room for.
    pub max_peers: u16,
    /// Descriptors per ring.
    pub ring_capacity: u32,
}

/// What the host learns of a peer it has just admitted: the peer's ID, the
/// host's end of the peer's doorbell (of whatever type the platform's
/// doorbell is), and the descriptor of the peer's end, to hand to the peer.
pub struct PeerInfo<D> {
    pub peer_id: u16,
    pub doorbell: D,
    pub peer_doorbell_fd: i32,
}

/// Errors of hub session operations.
#[derive(Debug)]
pub enum HubSessionError {
    Io(std::io::Error),
    Layout(String),
    TooManyPeers,
    InvalidPeerId,
}

impl HubSessionError {
    /// The error's message: `I/O error: ` and the I/O error's text, `layout
    /// error: ` and the layout problem, `too many peers`, `invalid peer id`.
    pub fn to_string(&self) -> (r: String)
        ensures
            match self {
                HubSessionError::Io(_) => r@.len() >= 11 && r@.take(11) == "I/O error: "@,
                HubSessionError::Layout(m) => r@ == "layout error: "@ + m@,
                HubSessionError::TooManyPeers => r@ == "too many peers"@,
                HubSessionError::InvalidPeerId => r@ == "invalid peer id"@,
            },
    {
        match self {
            HubSessionError::Io(e) => {
                proof {
                    reveal_strlit("I/O error: ");
                }
                let mut s = String::from_str("I/O error: ");
                let text = std_io_error_text(e);
                s.append(text.as_str());
                assert(s@.take(11) =~= "I/O error: "@);
                s
            },
            HubSessionError::Layout(m) => {
                let mut s = String::from_str("layout error: ");
                s.append(m.as_str());
                s
            },
            HubSessionError::TooManyPeers => String::from_str("too many peers"),
            HubSessionError::InvalidPeerId => String::from_str("invalid peer id"),
        }
    }
}

impl HubConfig {
    /// A peer ID that a hub of this configuration can hold is accepted; any
    /// other is `InvalidPeerId`.
    pub fn check_peer_id(&self, peer_id: u16) -> (r: Result<(), HubSessionError>)
        ensures
            peer_id < self.max_peers ==> r is Ok,
            peer_id >= self.max_peers ==> r matches Err(HubSessionError::InvalidPeerId),
    {
        if peer_id >= self.max_peers {
            return Err(HubSessionError::InvalidPeerId);
        }
        Ok(())
    }

    /// A newly numbered peer is accepted while the hub has room; beyond it,
    /// `TooManyPeers`.
    pub fn check_new_peer(&self, peer_id: u16) -> (r: Result<(), HubSessionError>)
        ensures
            peer_id < self.max_peers ==> r is Ok,
            peer_id >= self.max_peers ==> r matches Err(HubSessionError::TooManyPeers),
    {
        if peer_id >= self.max_peers {
            return Err(HubSessionError::TooManyPeers);
        }
        Ok(())
    }
}

/// The bytes of one ring: its header and its descriptors.
pub open spec fn ring_bytes(ring_capacity: u32) -> int {
    RING_HEADER_SIZE + ring_capacity * DESC_SIZE
}

/// Where peer `peer_id`'s send and receive rings start: the rings of the
/// peers lie in order from `ring_region`, each peer's send ring followed by
/// its receive ring.
pub open spec fn peer_ring_offsets_spec(ring_region: int, ring_capacity: u32, peer_id: u16) -> (
    int,
    int,
) {
    let send = ring_region + peer_id * 2 * ring_bytes(ring_capacity);
    (send, send + ring_bytes(ring_capacity))
}

/// The offsets of peer `peer_id`'s send and receive rings, for a ring region
/// that starts at `ring_region`; the rings must end within the address
/// space.
pub fn peer_ring_offsets(ring_region: usize, ring_capacity: u32, peer_id: u16) -> (r: (
    usize,
    usize,
))
    requires
        ring_region + (peer_id + 1) * 2 * ring_bytes(ring_capacity) <= usize::MAX,
    ensures
        r.0 == peer_ring_offsets_spec(ring_region as int, ring_capacity, peer_id).0,
        r.1 == peer_ring_offsets_spec(ring_region as int, ring_capacity, peer_id).1,
{
    let ghost rb = ring_bytes(ring_capacity);
    assert(0 <= ring_capacity * DESC_SIZE <= rb) by (nonlinear_arith)
        requires
            rb == RING_HEADER_SIZE + ring_capacity * DESC_SIZE,
    ;
    assert(peer_id * 2 * rb + 2 * rb == (peer_id + 1) * 2 * rb) by (nonlinear_arith);
    assert(0 <= peer_id * 2 * rb) by (nonlinear_arith)
        requires
            rb >= 0,
    ;
    assert(0 <= peer_id * 2) by (nonlinear_arith);
    let ring_size = RING_HEADER_SIZE + ring_capacity as usize * DESC_SIZE;
    assert(peer_id as usize * 2 * ring_size == peer_id * 2 * rb);
    let send = ring_region + peer_id as usize * 2 * ring_size;
    (send, send + ring_size)
}

/// The send and receive ring offsets of every peer of a hub with room for
/// `max_peers` peers, in peer order; the last ring must end within the
/// address space.
pub fn hub_peer_rings(ring_region: usize, ring_capacity: u32, max_peers: u16) -> (r: Vec<(usize, usize)>)
    requires
        ring_region + max_peers * 2 * ring_bytes(ring_capacity) <= usize::MAX,
    ensures
        r@.len() == max_peers,
        forall|i: int|
            0 <= i < max_peers ==> (#[trigger] r@[i]).0 == peer_ring_offsets_spec(
                ring_region as int,
                ring_capacity,
                i as u16,
            ).0 && r@[i].1 == peer_ring_offsets_spec(ring_region as int, ring_capacity, i as u16).1,
{
    let mut out: Vec<(usize, usize)> = Vec::new();
    let mut i: u16 = 0;
    while i < max_peers
        invariant
            i <= max_peers,
            out@.len() == i,
            ring_region + max_peers * 2 * ring_bytes(ring_capacity) <= usize::MAX,
            forall|k: int|
                0 <= k < i ==> (#[trigger] out@[k]).0 == peer_ring_offsets_spec(
                    ring_region as int,
                    ring_capacity,
                    k as u16,
                ).0 && out@[k].1 == peer_ring_offsets_spec(ring_region as int, ring_capacity, k as u16).1,
        decreases max_peers - i,
    {
        let ghost rb = ring_bytes(ring_capacity);
        assert((i + 1) * 2 * rb <= max_peers * 2 * rb) by (nonlinear_arith)
            requires
                i + 1 <= max_peers,
                rb >= 0,
        ;
        assert(rb >= 0) by (nonlinear_arith)
            requires
                rb == RING_HEADER_SIZE + ring_capacity * DESC_SIZE,
        ;
        let offsets = peer_ring_offsets(ring_region, ring_capacity, i);
        out.push(offsets);
        i = i + 1;
    }
    out
}

/// The sum of `sizes`.
pub open spec fn total_of(sizes: Seq<usize>) -> int
    decreases sizes.len(),
{
    if sizes.len() == 0 {
        0
    } else {
        total_of(sizes.drop_last()) + sizes.last()
    }
}

/// Where each size class's first extent starts: the extents lie one after
/// the other from `extent_region`, in class order, each `extent_sizes[c]`
/// bytes long; they must end within the address space.
pub fn extent_offsets(extent_region: usize, extent_sizes: &Vec<usize>) -> (r: Vec<usize>)
    requires
        extent_region + total_of(extent_sizes@) <= usize::MAX,
    ensures
        r@.len() == extent_sizes@.len(),
        forall|c: int|
            0 <= c < r@.len() ==> #[trigger] r@[c] == extent_region + total_of(extent_sizes@.take(c)),
{
    let mut out: Vec<usize> = Vec::new();
    let mut offset: usize = extent_region;
    let mut c: usize = 0;
    while c < extent_sizes.len()
        invariant
            c <= extent_sizes@.len(),
            out@.len() == c,
            offset == extent_region + total_of(extent_sizes@.take(c as int)),
            extent_region + total_of(extent_sizes@) <= usize::MAX,
            forall|k: int|
                0 <= k < c ==> #[trigger] out@[k] == extent_region + total_of(extent_sizes@.take(k)),
        decreases extent_sizes@.len() - c,
    {
        out.push(offset);
        proof {
            let sizes = extent_sizes@;
            assert(sizes.take(c + 1).drop_last() =~= sizes.take(c as int));
            lemma_total_of_prefix(sizes, c + 1);
        }
        offset = offset + extent_sizes[c];
        c = c + 1;
    }
    out
}

/// A prefix of non-negative sizes sums to no more than the whole.
proof fn lemma_total_of_prefix(sizes: Seq<usize>, n: int)
    requires
        0 <= n <= sizes.len(),
    ensures
        total_of(sizes.take(n)) <= total_of(sizes),
        0 <= total_of(sizes.take(n)),
    decreases sizes.len(),
{
    if n == sizes.len() {
        assert(sizes.take(n) =~= sizes);
        lemma_total_of_nonneg(sizes);
    } else {
        let init = sizes.drop_last();
        assert(sizes.take(n) =~= init.take(n));
        lemma_total_of_prefix(init, n);
    }
}

/// Sizes sum to a non-negative total.
proof fn lemma_total_of_nonneg(sizes: Seq<usize>)
    ensures
        0 <= total_of(sizes),
    decreases sizes.len(),
{
    if sizes.len() > 0 {
        lemma_total_of_nonneg(sizes.drop_last());
    }
}

/// How many slots an extent of a class with `slot_count` slots has room for:
/// the least power of two that is at least `slot_count` (1 for none).
pub fn slots_per_extent(slot_count: u32) -> (r: u32)
    requires
        slot_count <= 0x8000_0000,
    ensures
        is_pow2(r as nat),
        r >= slot_count,
        r == 1 || r / 2 < slot_count,
{
    let mut p: u32 = 1;
    while p < slot_count
        invariant
            is_pow2(p as nat),
            p >= 1,
            p == 1 || p / 2 < slot_count,
            slot_count <= 0x8000_0000,
            p <= 0x8000_0000,
        decreases 0x8000_0000 - p,
    {
        assert(p <= 0x4000_0000) by {
            reveal_with_fuel(is_pow2, 33);
            assert(is_pow2(0x8000_0000));
            lemma_pow2_below(p as nat, 0x8000_0000);
        }
        assert(is_pow2((2 * p) as nat)) by {
            assert((2 * p) as nat / 2 == p as nat);
        }
        p = 2 * p;
    }
    p
}

/// Of two powers of two, the smaller is at most half the larger.
proof fn lemma_pow2_below(p: nat, q: nat)
    requires
        is_pow2(p),
        is_pow2(q),
        p < q,
    ensures
        2 * p <= q,
    decreases p,
{
    if p > 1 {
        lemma_pow2_below(p / 2, q / 2);
    }
}

} // verus!
