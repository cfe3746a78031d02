//! Shared-memory transport: segment layout, descriptor rings and slot
//! allocators.

pub mod ring;
pub mod slab;
pub mod layout;
pub mod hub_alloc;
pub mod metrics;
pub mod slot_guard;
pub mod hub_transport;
pub mod hub_session;
pub mod pipe;
