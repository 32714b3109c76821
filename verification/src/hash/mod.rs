//! FNV-1a hashing of byte strings, used by the hash map of this crate.
pub mod fnv;
