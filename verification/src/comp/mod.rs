//! Allocators that take their memory from another allocator.
pub mod arena;
