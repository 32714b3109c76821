//! Buffers generic over an allocator handle: [kstring::KString], a byte
//! string; [ustring::UString], a string that keeps short contents inline;
//! and [fnv_hashmap::FnvHashMap], a map keyed by strings through their FNV-1a
//! hash.
pub mod fnv_hashmap;
pub mod kstring;
pub mod ustring;
