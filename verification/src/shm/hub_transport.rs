//! Decisions of the hub transport: how slot errors surface as transport
//! errors, and how descriptors are prepared for sending and normalized after
//! receiving.

use vstd::prelude::*;

use crate::descriptor::{MsgDescHot, INLINE_PAYLOAD_SIZE, INLINE_PAYLOAD_SLOT};
use crate::error::{EncodeError, TransportError, ValidationError};
use crate::shm::hub_alloc::{hub_slot_error_text, HubSlotError};

verus! {

/// The transport error that reports a hub slot error.
pub open spec fn transport_error_matches(e: HubSlotError, t: TransportError) -> bool {
    match e {
        HubSlotError::NoFreeSlots => t == TransportError::Encode(EncodeError::NoSlotAvailable),
        HubSlotError::PayloadTooLarge { len, max } => t == TransportError::Validation(
            ValidationError::PayloadTooLarge { len: len as u32, max: max as u32 },
        ),
        HubSlotError::StaleGeneration => t == TransportError::Validation(
            ValidationError::StaleGeneration { expected: 0, actual: 0 },
        ),
        _ => t matches TransportError::Encode(EncodeError::EncodeFailed(m)) && m@ == hub_slot_error_text(e),
    }
}

/// The transport error that reports a hub slot error: no free slot is an
/// encode error, size and generation problems are validation errors, and the
/// rest are encode failures carrying the error's description.
pub fn slot_error_to_transport(e: HubSlotError) -> (r: TransportError)
    ensures
        transport_error_matches(e, r),
{
    match e {
        HubSlotError::NoFreeSlots => TransportError::Encode(EncodeError::NoSlotAvailable),
        HubSlotError::PayloadTooLarge { len, max } => TransportError::Validation(
            ValidationError::PayloadTooLarge { len: len as u32, max: max as u32 },
        ),
        HubSlotError::StaleGeneration => TransportError::Validation(
            ValidationError::StaleGeneration { expected: 0, actual: 0 },
        ),
        HubSlotError::InvalidSlotRef
        | HubSlotError::InvalidState
        | HubSlotError::InvalidSizeClass
        | HubSlotError::InvalidExtent => {
            let text = e.description();
            TransportError::Encode(EncodeError::EncodeFailed(String::from_str(text)))
        },
    }
}

/// `b` is `a` but for its payload location fields.
pub open spec fn same_but_payload(a: MsgDescHot, b: MsgDescHot) -> bool {
    &&& a.msg_id == b.msg_id
    &&& a.channel_id == b.channel_id
    &&& a.method_id == b.method_id
    &&& a.flags == b.flags
    &&& a.credit_grant == b.credit_grant
    &&& a.deadline_ns == b.deadline_ns
}

/// Puts a payload of at most 16 bytes inline: the slot becomes
/// `INLINE_PAYLOAD_SLOT` with generation and offset 0, the length is the
/// payload's, and the payload fills the start of the inline area (the rest
/// keeps its bytes).
pub fn set_inline_payload(desc: &mut MsgDescHot, payload: &[u8])
    requires
        payload@.len() <= INLINE_PAYLOAD_SIZE,
    ensures
        same_but_payload(*old(desc), *final(desc)),
        final(desc).payload_slot == INLINE_PAYLOAD_SLOT,
        final(desc).payload_generation == 0,
        final(desc).payload_offset == 0,
        final(desc).payload_len == payload@.len(),
        final(desc).inline_payload@ == payload@ + old(desc).inline_payload@.skip(
            payload@.len() as int,
        ),
{
    desc.payload_slot = INLINE_PAYLOAD_SLOT;
    desc.payload_generation = 0;
    desc.payload_offset = 0;
    desc.payload_len = payload.len() as u32;
    let mut i: usize = 0;
    while i < payload.len()
        invariant
            i <= payload@.len() <= 16,
            desc.inline_payload@.len() == 16,
            same_but_payload(*old(desc), *desc),
            desc.payload_slot == INLINE_PAYLOAD_SLOT,
            desc.payload_generation == 0,
            desc.payload_offset == 0,
            desc.payload_len == payload@.len(),
            forall|k: int| 0 <= k < i ==> desc.inline_payload@[k] == payload@[k],
            forall|k: int| i <= k < 16 ==> desc.inline_payload@[k] == old(desc).inline_payload@[k],
        decreases payload@.len() - i,
    {
        desc.inline_payload.set(i, payload[i]);
        i = i + 1;
    }
    assert(desc.inline_payload@ =~= payload@ + old(desc).inline_payload@.skip(
        payload@.len() as int,
    ));
}

/// Points the descriptor at a slot: `slot_ref` with `generation`, offset 0,
/// `len` bytes.
pub fn set_slot_payload(desc: &mut MsgDescHot, slot_ref: u32, generation: u32, len: u32)
    ensures
        same_but_payload(*old(desc), *final(desc)),
        final(desc).payload_slot == slot_ref,
        final(desc).payload_generation == generation,
        final(desc).payload_offset == 0,
        final(desc).payload_len == len,
        final(desc).inline_payload == old(desc).inline_payload,
{
    desc.payload_slot = slot_ref;
    desc.payload_generation = generation;
    desc.payload_offset = 0;
    desc.payload_len = len;
}

/// The descriptor of a received slot payload once its `len` bytes were
/// copied out and the slot freed: slot, generation and offset 0.
pub fn detach_slot_payload(desc: &mut MsgDescHot, len: u32)
    ensures
        same_but_payload(*old(desc), *final(desc)),
        final(desc).payload_slot == 0,
        final(desc).payload_generation == 0,
        final(desc).payload_offset == 0,
        final(desc).payload_len == len,
        final(desc).inline_payload == old(desc).inline_payload,
{
    desc.payload_slot = 0;
    desc.payload_generation = 0;
    desc.payload_offset = 0;
    desc.payload_len = len;
}

/// Whether a peer's death was reported yet: the host reports the death of a
/// peer, and calls its callback, once per transport, however many signals
/// fail.
#[derive(Debug)]
pub struct PeerDeathLatch {
    reported: bool,
}

impl PeerDeathLatch {
    /// The death was reported.
    pub closed spec fn spec_reported(&self) -> bool {
        self.reported
    }

    /// Nothing reported yet.
    pub fn new() -> (r: Self)
        ensures
            !r.spec_reported(),
    {
        PeerDeathLatch { reported: false }
    }

    /// The outcome of signaling the peer: true when this outcome must be
    /// reported, which is the first time the peer is found dead.
    pub fn on_signal(&mut self, peer_dead: bool) -> (report: bool)
        ensures
            report == (peer_dead && !old(self).spec_reported()),
            final(self).spec_reported() == (old(self).spec_reported() || peer_dead),
    {
        if peer_dead && !self.reported {
            self.reported = true;
            true
        } else {
            false
        }
    }
}

/// How many of the signal outcomes `dead` (in order) a latch that starts in
/// `reported` reports, each step as `PeerDeathLatch::on_signal` takes it.
pub open spec fn reports(reported: bool, dead: Seq<bool>) -> nat
    decreases dead.len(),
{
    if dead.len() == 0 {
        0
    } else {
        (if dead[0] && !reported {
            1nat
        } else {
            0nat
        }) + reports(reported || dead[0], dead.drop_first())
    }
}

/// A peer's death is reported at most once, whatever signals fail after it,
/// and never again once it was reported.
pub proof fn lemma_death_reported_once(reported: bool, dead: Seq<bool>)
    ensures
        reports(reported, dead) <= 1,
        reported ==> reports(reported, dead) == 0,
    decreases dead.len(),
{
    if dead.len() > 0 {
        lemma_death_reported_once(reported || dead[0], dead.drop_first());
        lemma_death_reported_once(true, dead.drop_first());
    }
}

// =============================================================================
// Sending a frame over the hub
// =============================================================================

/// How long a send waits for a free slot before it gives up, in milliseconds.
pub const SLOT_WAIT_LIMIT_MS: u64 = 10_000;

/// Where a send over the hub stands.
#[derive(Clone, Copy, Debug)]
pub enum HubSendState {
    /// No send in progress.
    Idle,
    /// Waiting for a slot for a payload of `len` bytes.
    Allocating { desc: MsgDescHot, len: usize },
    /// The payload is being copied into the slot `index` of size class
    /// `class`, handed out with `generation`; then the slot is marked in
    /// flight.
    Marking { desc: MsgDescHot, class: u16, index: u32, generation: u32, len: usize },
    /// The descriptor is ready; waiting for room in the ring.
    Enqueueing { desc: MsgDescHot },
    /// The descriptor is in the ring; waiting for the doorbell's outcome.
    Signaling,
}

/// What happened since the last step of a send.
#[derive(Debug)]
pub enum HubSendEvent {
    /// A frame to send: its descriptor and payload bytes, and whether the
    /// transport is closed.
    Send { desc: MsgDescHot, payload: Vec<u8>, closed: bool },
    /// The allocator answered, `elapsed_ms` after the send's first attempt;
    /// `closed` tells whether the transport is closed now.
    Allocated { result: Result<(u16, u32, u32), HubSlotError>, elapsed_ms: u64, closed: bool },
    /// Marking the slot in flight answered; `slot_ref` is the descriptor's
    /// reference to that slot in the hub's layout.
    Marked { result: Result<(), HubSlotError>, slot_ref: u32 },
    /// The ring answered an enqueue; `closed` tells whether the transport is
    /// closed now.
    Enqueued { ok: bool, closed: bool },
    /// The doorbell was rung; `peer_dead` tells whether the peer is gone.
    Signaled { peer_dead: bool },
}

/// What the sender does next.
#[derive(Debug)]
pub enum HubSendAction {
    /// Allocate a slot for `len` bytes for this peer, after waiting for a
    /// slot to be freed when `wait`.
    Allocate { len: usize, wait: bool },
    /// Copy the payload into the slot, then mark it in flight.
    CopyAndMark { class: u16, index: u32, generation: u32 },
    /// Enqueue the descriptor, after waiting for room when `wait`.
    Enqueue { desc: MsgDescHot, wait: bool },
    /// Ring the doorbell and wake the reader.
    Signal,
    /// The send is over, with this outcome.
    Finish(Result<(), TransportError>),
}

/// The event is one that the state waits for.
pub open spec fn hub_send_expects(s: HubSendState, ev: HubSendEvent) -> bool {
    match s {
        HubSendState::Idle => ev is Send,
        HubSendState::Allocating { .. } => ev is Allocated,
        HubSendState::Marking { .. } => ev is Marked,
        HubSendState::Enqueueing { .. } => ev is Enqueued,
        HubSendState::Signaling => ev is Signaled,
    }
}

/// `d` is `desc` with `payload` placed inline: slot `INLINE_PAYLOAD_SLOT`,
/// generation and offset 0, the payload's length, and the payload at the
/// start of the inline area, whose other bytes stay.
pub open spec fn placed_inline(desc: MsgDescHot, payload: Seq<u8>, d: MsgDescHot) -> bool {
    &&& same_but_payload(desc, d)
    &&& d.payload_slot == INLINE_PAYLOAD_SLOT
    &&& d.payload_generation == 0
    &&& d.payload_offset == 0
    &&& d.payload_len == payload.len()
    &&& d.inline_payload@ == payload + desc.inline_payload@.skip(payload.len() as int)
}

/// `d` is `desc` pointing at a slot: `slot_ref` with `generation`, offset 0,
/// `len` bytes (truncated to 32 bits), the inline area kept.
pub open spec fn placed_in_slot(
    desc: MsgDescHot,
    slot_ref: u32,
    generation: u32,
    len: usize,
    d: MsgDescHot,
) -> bool {
    &&& same_but_payload(desc, d)
    &&& d.payload_slot == slot_ref
    &&& d.payload_generation == generation
    &&& d.payload_offset == 0
    &&& d.payload_len == len as u32
    &&& d.inline_payload == desc.inline_payload
}

/// The send fails with the transport error that reports `e`.
pub open spec fn fails_with_slot_error(
    e: HubSlotError,
    next: HubSendState,
    action: HubSendAction,
) -> bool {
    &&& next is Idle
    &&& action matches HubSendAction::Finish(Err(t)) && transport_error_matches(e, t)
}

/// The send fails because the transport is closed.
pub open spec fn fails_closed(next: HubSendState, action: HubSendAction) -> bool {
    &&& next is Idle
    &&& action matches HubSendAction::Finish(Err(t)) && t == TransportError::Closed
}

/// One step of a send over the hub, from state `s` on event `ev` to state
/// `next` with `action`:
/// - a send on a closed transport fails; a payload of at most 16 bytes goes
///   inline and the descriptor is enqueued; a longer one needs a slot;
/// - a slot is marked in flight once the payload is in it; no free slot is
///   retried after a wait until 10 s have passed, then the send fails, as
///   it does at once on a closed transport or any other allocation error;
/// - a failed marking fails the send; a marked slot goes into the
///   descriptor, which is enqueued;
/// - a full ring is retried after a wait unless the transport is closed;
///   an enqueued descriptor rings the doorbell;
/// - a dead peer closes the transport, else the send succeeds.
pub open spec fn hub_send_next(
    s: HubSendState,
    ev: HubSendEvent,
    next: HubSendState,
    action: HubSendAction,
) -> bool {
    match (s, ev) {
        (HubSendState::Idle, HubSendEvent::Send { desc, payload, closed }) => if closed {
            fails_closed(next, action)
        } else if payload@.len() <= INLINE_PAYLOAD_SIZE {
            &&& next matches HubSendState::Enqueueing { desc: d } && placed_inline(
                desc,
                payload@,
                d,
            )
            &&& action == HubSendAction::Enqueue { desc: next->Enqueueing_desc, wait: false }
        } else {
            &&& next == HubSendState::Allocating { desc, len: payload@.len() as usize }
            &&& action == HubSendAction::Allocate { len: payload@.len() as usize, wait: false }
        },
        (
            HubSendState::Allocating { desc, len },
            HubSendEvent::Allocated { result, elapsed_ms, closed },
        ) => match result {
            Ok((class, index, generation)) => {
                &&& next == HubSendState::Marking { desc, class, index, generation, len }
                &&& action == HubSendAction::CopyAndMark { class, index, generation }
            },
            Err(HubSlotError::NoFreeSlots) => if elapsed_ms >= SLOT_WAIT_LIMIT_MS {
                fails_with_slot_error(HubSlotError::NoFreeSlots, next, action)
            } else if closed {
                fails_closed(next, action)
            } else {
                &&& next == HubSendState::Allocating { desc, len }
                &&& action == HubSendAction::Allocate { len, wait: true }
            },
            Err(e) => fails_with_slot_error(e, next, action),
        },
        (
            HubSendState::Marking { desc, class, index, generation, len },
            HubSendEvent::Marked { result, slot_ref },
        ) => match result {
            Err(e) => fails_with_slot_error(e, next, action),
            Ok(()) => {
                &&& next matches HubSendState::Enqueueing { desc: d } && placed_in_slot(
                    desc,
                    slot_ref,
                    generation,
                    len,
                    d,
                )
                &&& action == HubSendAction::Enqueue { desc: next->Enqueueing_desc, wait: false }
            },
        },
        (HubSendState::Enqueueing { desc }, HubSendEvent::Enqueued { ok, closed }) => if ok {
            &&& next is Signaling
            &&& action is Signal
        } else if closed {
            fails_closed(next, action)
        } else {
            &&& next == HubSendState::Enqueueing { desc }
            &&& action == HubSendAction::Enqueue { desc, wait: true }
        },
        (HubSendState::Signaling, HubSendEvent::Signaled { peer_dead }) => if peer_dead {
            fails_closed(next, action)
        } else {
            &&& next is Idle
            &&& action matches HubSendAction::Finish(Ok(()))
        },
        _ => false,
    }
}

/// One step of a send over the hub: the next state and what to do.
pub fn hub_send_step(s: HubSendState, ev: HubSendEvent) -> (r: (HubSendState, HubSendAction))
    requires
        hub_send_expects(s, ev),
    ensures
        hub_send_next(s, ev, r.0, r.1),
{
    match (s, ev) {
        (HubSendState::Idle, HubSendEvent::Send { desc, payload, closed }) => {
            if closed {
                (HubSendState::Idle, HubSendAction::Finish(Err(TransportError::Closed)))
            } else if payload.len() <= INLINE_PAYLOAD_SIZE {
                let mut d = desc;
                set_inline_payload(&mut d, payload.as_slice());
                (HubSendState::Enqueueing { desc: d }, HubSendAction::Enqueue { desc: d, wait: false })
            } else {
                let len = payload.len();
                (HubSendState::Allocating { desc, len }, HubSendAction::Allocate { len, wait: false })
            }
        },
        (HubSendState::Allocating { desc, len }, HubSendEvent::Allocated { result, elapsed_ms, closed }) => {
            match result {
                Ok((class, index, generation)) => (
                    HubSendState::Marking { desc, class, index, generation, len },
                    HubSendAction::CopyAndMark { class, index, generation },
                ),
                Err(HubSlotError::NoFreeSlots) => {
                    if elapsed_ms >= SLOT_WAIT_LIMIT_MS {
                        (
                            HubSendState::Idle,
                            HubSendAction::Finish(Err(slot_error_to_transport(HubSlotError::NoFreeSlots))),
                        )
                    } else if closed {
                        (HubSendState::Idle, HubSendAction::Finish(Err(TransportError::Closed)))
                    } else {
                        (HubSendState::Allocating { desc, len }, HubSendAction::Allocate { len, wait: true })
                    }
                },
                Err(e) => (HubSendState::Idle, HubSendAction::Finish(Err(slot_error_to_transport(e)))),
            }
        },
        (
            HubSendState::Marking { desc, class, index, generation, len },
            HubSendEvent::Marked { result, slot_ref },
        ) => {
            match result {
                Err(e) => (HubSendState::Idle, HubSendAction::Finish(Err(slot_error_to_transport(e)))),
                Ok(()) => {
                    let mut d = desc;
                    set_slot_payload(&mut d, slot_ref, generation, len as u32);
                    (HubSendState::Enqueueing { desc: d }, HubSendAction::Enqueue { desc: d, wait: false })
                },
            }
        },
        (HubSendState::Enqueueing { desc }, HubSendEvent::Enqueued { ok, closed }) => {
            if ok {
                (HubSendState::Signaling, HubSendAction::Signal)
            } else if closed {
                (HubSendState::Idle, HubSendAction::Finish(Err(TransportError::Closed)))
            } else {
                (HubSendState::Enqueueing { desc }, HubSendAction::Enqueue { desc, wait: true })
            }
        },
        (HubSendState::Signaling, HubSendEvent::Signaled { peer_dead }) => {
            if peer_dead {
                (HubSendState::Idle, HubSendAction::Finish(Err(TransportError::Closed)))
            } else {
                (HubSendState::Idle, HubSendAction::Finish(Ok(())))
            }
        },
        _ => {
            proof {
                assert(false);
            }
            (s, HubSendAction::Finish(Err(TransportError::Closed)))
        },
    }
}

} // verus!
