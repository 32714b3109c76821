//! Basic allocators: fixed-size bump arenas and a slot map that hands out
//! index-tagged allocations.
pub mod const_static;
pub mod const_sync;
pub mod slot;
pub mod slot_ptr;
