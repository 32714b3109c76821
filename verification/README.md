# kos

Allocators, allocator-generic strings and a string-keyed hash map, written in
Verus with their contracts proved.

## How memory is modelled

Every allocator here owns an index-addressed byte buffer and hands out
*regions* of it: an offset and a length (`region::Region`). Reading and writing
go through the allocator (`as_bytes`, `write_bytes`), so nothing is addressed by
raw pointers. Alignment is counted from the start of a buffer, which is taken to
be aligned for every alignment a layout can ask for.

`region::Allocator` is the interface the allocators share. Its `allocate` takes
`&mut self`, and each allocator says in its contract exactly when it grants a
request (`grants`) and where the block lies. `region::Global` stands for the
process heap: it grants every request.

## Modules

- `region` – `Layout` (size and power-of-two alignment), `Region`,
  `AllocError`, the `Allocator` interface, `Global`, alignment padding.
- `hash::fnv` – 64-bit FNV-1a over bytes and strings, and an incremental
  hasher.
- `basic::const_static` – `ArenaStatic<SIZE>`, a bump arena over `SIZE` bytes
  with a 32-bit bump offset.
- `basic::const_sync` – `ArenaStaticSync<SIZE>`, a bump arena whose offset
  wraps like an atomic counter and which never refuses a request.
- `basic::slot`, `basic::slot_ptr` – `AllocSlot` tags, `SlotPtr`, the
  `SlotMap` (whose `malloc_slot` bumps its offset and grows its buffer) and
  the handles that look their slot up on every access; a slot handed out by
  `ArenaStaticSync` is found only below the arena's bump offset, so it reads
  as dangling once the arena is cleared.
- `comp::arena` – `Arena<A>`, a bump arena whose buffer is granted by a parent
  allocator, and `ScopedArena`, which resets the arena when it is dropped.
- `buf::kstring` – `KString<A>`, a byte string meant to hold UTF-8, carrying
  an allocator handle.
- `buf::ustring` – `UString<A>`, which keeps strings of at most 23 bytes
  inline.
- `buf::fnv_hashmap` – `FnvHashMap<V, A>`, which puts each entry at the slot
  its key's FNV-1a hash names and doubles its slots at three quarters full.
- `mem::block` – plain block types.

The laws of the library are the `law_*` proof functions next to the code
they speak of.
