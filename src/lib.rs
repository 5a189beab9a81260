//! Client-side contract of a clipboard-history service: the entries it keeps,
//! the two clipboard buffers, the errors of each operation, the decoding of the
//! service's replies, and the `Manager` interface with an in-memory manager.
pub mod mode;
pub mod entry;
pub mod error;
pub mod reply;
pub mod manager;
pub mod memory;
pub mod laws;
