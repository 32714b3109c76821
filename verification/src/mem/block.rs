//! Plain memory blocks: an inline buffer with a use count, and a block
//! named by its offset.
use vstd::prelude::*;

verus! {

/// `SIZE` bytes kept in place, with the number of bytes in use.
pub struct Inline<const SIZE: usize> {
    storage: Vec<u8>,
    used: u32,
}

/// A block of memory named by its offset.
pub struct Block {
    ptr: usize,
}

} // verus!
