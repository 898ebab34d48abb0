//! Core logic of a controller-area-network socket layer: frame validation,
//! per-socket receive filters, a buffer pool for the receive hot path, a
//! batched binary wire format, and a handle registry for live sockets.
//!
//! The actual device transport (opening a bus interface, the blocking
//! read/write syscalls, installing filters in the driver) is a collaborator
//! that callers supply; everything here is the decision logic around it.

pub mod codec;
pub mod errors;
pub mod filter;
pub mod frame;
pub mod pool;
pub mod registry;
pub mod socket;
