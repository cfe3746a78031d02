//! Verified core of the rapace RPC framework: frame descriptors, descriptor
//! validation, error codes, the shared-memory segment layout, the slot
//! allocators and descriptor rings, and the wire-format protocol types.

pub mod flags;
pub mod descriptor;
pub mod frame;
pub mod limits;
pub mod error;
pub mod validation;
pub mod shm;
pub mod protocol;
pub mod text;
pub mod session;
pub mod http;
pub mod explorer;
pub mod tracing;
pub mod control;
pub mod cell;
pub mod crate_name;
pub mod pooled_writer;
pub mod codegen;
pub mod buffer_pool;
