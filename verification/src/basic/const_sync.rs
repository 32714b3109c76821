//! A bump arena over a fixed buffer of `SIZE` bytes whose bump offset wraps
//! around like an atomic counter.
use vstd::prelude::*;
use crate::region::{Allocator, AllocError, Layout, LayoutView, Region, pad_to_align};

verus! {

/// A bump arena whose buffer holds `SIZE` bytes. It never refuses a request:
/// the bump offset grows by the size of each request (wrapping at
/// `usize::MAX`), whether or not the block still lies inside the buffer.
#[derive(Debug)]
pub struct ArenaStaticSync<const SIZE: usize> {
    mem: Vec<u8>,
    used: usize,
}

/// What an [ArenaStaticSync] holds: the bytes of its buffer and the bump
/// offset.
pub struct ArenaStaticSyncView {
    pub bytes: Seq<u8>,
    pub used: nat,
}

impl<const SIZE: usize> View for ArenaStaticSync<SIZE> {
    type V = ArenaStaticSyncView;

    closed spec fn view(&self) -> ArenaStaticSyncView {
        ArenaStaticSyncView { bytes: self.mem@, used: self.used as nat }
    }
}

/// The bump offset after adding `n` to `used`, wrapping at `usize::MAX`.
pub open spec fn sync_bump(used: nat, n: nat) -> nat {
    if used + n > usize::MAX {
        (used + n - (usize::MAX + 1)) as nat
    } else {
        used + n
    }
}

impl<const SIZE: usize> ArenaStaticSync<SIZE> {
    /// The buffer always holds `SIZE` bytes.
    pub closed spec fn wf(&self) -> bool {
        self.mem@.len() == SIZE
    }

    /// An empty arena whose buffer is all zero bytes.
    pub fn new() -> (r: Self)
        ensures
            r.wf(),
            r@.used == 0,
            r@.bytes == Seq::new(SIZE as nat, |i: int| 0u8),
    {
        let mem = crate::zeroed_bytes(SIZE);
        ArenaStaticSync { mem, used: 0 }
    }

    /// Bumps the arena by `layout.size()` and returns the offset where the
    /// block starts: the bump offset before the call. The start of the buffer
    /// is aligned for every layout, so no padding is added.
    pub fn allocate_raw(&mut self, layout: Layout) -> (r: usize)
        requires
            layout.wf(),
        ensures
            r == old(self)@.used,
            final(self)@.used == sync_bump(old(self)@.used, layout@.size),
            final(self)@.bytes == old(self)@.bytes,
    {
        proof {
            layout.lemma_wf();
        }
        let used = self.used();
        let offset = pad_to_align(0, layout.align());
        assert(offset == 0);
        let res = used + offset;
        self.used_inc(offset + layout.size());
        res
    }

    /// The offset of the start of the buffer.
    pub fn as_ptr(&self) -> (r: usize)
        ensures
            r == 0,
    {
        0
    }

    /// The whole buffer as a region.
    pub fn ptr_slice(&self) -> (r: Region)
        ensures
            r == (Region { offset: 0, len: SIZE }),
    {
        let p = self.as_ptr();
        Region { offset: p, len: SIZE }
    }

    /// The bytes of the buffer.
    pub fn mem(&self) -> (r: &[u8])
        ensures
            r@ == self@.bytes,
    {
        self.mem.as_slice()
    }

    /// Sets the bump offset back to zero; the bytes stay as they are.
    pub fn clear(&mut self)
        ensures
            final(self)@.used == 0,
            final(self)@.bytes == old(self)@.bytes,
    {
        self.set_used(0);
    }

    /// Sets the bump offset back to zero and every byte of the buffer to zero.
    pub fn clear_zeroed(&mut self)
        requires
            old(self).wf(),
        ensures
            final(self).wf(),
            final(self)@.used == 0,
            final(self)@.bytes == Seq::new(SIZE as nat, |i: int| 0u8),
    {
        self.clear();
        let mut i: usize = 0;
        while i < self.mem.len()
            invariant
                self.mem@.len() == SIZE,
                i <= SIZE,
                self.used == 0,
                forall|k: int| 0 <= k < i ==> self.mem@[k] == 0u8,
            decreases SIZE - i,
        {
            self.mem.set(i, 0u8);
            i = i + 1;
        }
        assert(self.mem@ =~= Seq::new(SIZE as nat, |i: int| 0u8));
    }

    /// Adds `n` to the bump offset, wrapping at `usize::MAX`.
    pub fn used_inc(&mut self, n: usize)
        ensures
            final(self)@.used == sync_bump(old(self)@.used, n as nat),
            final(self)@.bytes == old(self)@.bytes,
    {
        let _ = self.used_fetch_add(n);
    }

    /// The bump offset.
    pub fn used(&self) -> (r: usize)
        ensures
            r == self@.used,
    {
        self.used
    }

    /// Sets the bump offset to `new_value`.
    pub fn set_used(&mut self, new_value: usize)
        ensures
            final(self)@.used == new_value,
            final(self)@.bytes == old(self)@.bytes,
    {
        self.used = new_value;
    }

    /// Adds `n` to the bump offset, wrapping at `usize::MAX`, and returns the
    /// offset before the addition.
    pub fn used_fetch_add(&mut self, n: usize) -> (r: usize)
        ensures
            r == old(self)@.used,
            final(self)@.used == sync_bump(old(self)@.used, n as nat),
            final(self)@.bytes == old(self)@.bytes,
    {
        let prev = self.used;
        self.used = prev.wrapping_add(n);
        prev
    }

    /// Writes `data` into the buffer from offset `offset` on.
    pub fn write_bytes(&mut self, offset: usize, data: &[u8])
        requires
            old(self).wf(),
            offset + data@.len() <= SIZE,
        ensures
            final(self).wf(),
            final(self)@.used == old(self)@.used,
            final(self)@.bytes == old(self)@.bytes.subrange(0, offset as int) + data@
                + old(self)@.bytes.subrange(offset + data@.len(), SIZE as int),
    {
        crate::write_into(&mut self.mem, offset, data);
    }
}

impl<const SIZE: usize> Allocator for ArenaStaticSync<SIZE> {
    open spec fn inv(&self) -> bool {
        self.wf()
    }

    open spec fn in_range(&self, layout: LayoutView) -> bool {
        true
    }

    open spec fn grants(&self, layout: LayoutView) -> bool {
        true
    }

    open spec fn unbounded(&self) -> bool {
        true
    }

    open spec fn after_grant(&self, before: Self, layout: LayoutView) -> bool {
        &&& self@.used == sync_bump(before@.used, layout.size)
        &&& self@.bytes == before@.bytes
        &&& self.wf() == before.wf()
    }

    proof fn lemma_unbounded(&self, layout: LayoutView) {
    }

    /// Always grants the request, at the present bump offset.
    fn allocate(&mut self, layout: Layout) -> (r: Result<Region, AllocError>)
        ensures
            r == Ok::<Region, AllocError>(
                Region { offset: old(self)@.used as usize, len: layout@.size as usize },
            ),
            final(self)@.used == sync_bump(old(self)@.used, layout@.size),
            final(self)@.bytes == old(self)@.bytes,
    {
        let p = self.allocate_raw(layout);
        Ok(Region { offset: p, len: layout.size() })
    }

    /// Does nothing: the arena gives memory back only when it is cleared.
    fn deallocate(&mut self, region: Region, layout: Layout)
        ensures
            *final(self) == *old(self),
    {
    }
}

/// Two requests one after the other get blocks that do not overlap, the
/// second starting where the first ends, as long as the bump offset does not
/// wrap around `usize::MAX`.
pub proof fn law_sync_blocks_disjoint(used0: nat, size1: nat)
    requires
        used0 + size1 <= usize::MAX,
    ensures
        sync_bump(used0, size1) == used0 + size1,
        used0 <= sync_bump(used0, size1),
{
}

impl<const SIZE: usize> Default for ArenaStaticSync<SIZE> {
    fn default() -> (r: Self)
        ensures
            r.wf(),
            r@.used == 0,
            r@.bytes == Seq::new(SIZE as nat, |i: int| 0u8),
    {
        Self::new()
    }
}

} // verus!
