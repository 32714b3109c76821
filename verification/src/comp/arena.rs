//! A bump arena whose buffer comes from a parent allocator.
use vstd::prelude::*;
use crate::region::{Allocator, AllocError, Layout, LayoutView, Region, align_pad, lemma_align_pad, pad_to_align};
use crate::basic::const_static::ArenaStatic;

verus! {

/// A bump arena over a buffer of `size` bytes taken from the parent
/// allocator `A`.
#[derive(Debug)]
pub struct Arena<A> {
    inner: A,
    used: usize,
    size: usize,
    buf: Vec<u8>,
    region: Region,
}

/// What an [Arena] holds: its bytes, bump offset and size.
pub struct ArenaView {
    pub bytes: Seq<u8>,
    pub used: nat,
    pub size: nat,
}

impl<A> View for Arena<A> {
    type V = ArenaView;

    closed spec fn view(&self) -> ArenaView {
        ArenaView { bytes: self.buf@, used: self.used as nat, size: self.size as nat }
    }
}

impl<A: Allocator> Arena<A> {
    /// The buffer holds `size` bytes, `size` fits a layout, and the parent
    /// stays well formed.
    pub closed spec fn wf(&self) -> bool {
        &&& self.buf@.len() == self.size
        &&& self.size <= isize::MAX
        &&& self.inner.inv()
    }

    pub closed spec fn parent(&self) -> A {
        self.inner
    }

    /// An arena over `cap` bytes asked from `parent`; an error when the
    /// parent does not grant them.
    pub fn new(parent: A, cap: usize) -> (r: Result<Self, AllocError>)
        requires
            cap <= isize::MAX,
            parent.inv(),
            parent.in_range(LayoutView { size: cap as nat, align: 1 }),
        ensures
            r is Ok <==> parent.grants(LayoutView { size: cap as nat, align: 1 }),
            r matches Ok(a) ==> {
                &&& a.wf()
                &&& a.parent().after_grant(parent, LayoutView { size: cap as nat, align: 1 })
                &&& a@.used == 0
                &&& a@.size == cap
                &&& a@.bytes == Seq::new(cap as nat, |i: int| 0u8)
            },
    {
        let layout = match Layout::array_bytes(cap) {
            Some(l) => l,
            None => {
                assert(false);
                Layout::unit()
            },
        };
        let mut parent = parent;
        let region = match parent.allocate(layout) {
            Ok(b) => b,
            Err(_) => {
                return Err(AllocError);
            },
        };
        let size = region.len;
        let buf = crate::zeroed_bytes(size);
        Ok(Arena { inner: parent, used: 0, size, buf, region })
    }

    /// The bump offset.
    pub fn used(&self) -> (r: usize)
        ensures
            r == self@.used,
    {
        self.used
    }

    /// Number of bytes in the buffer.
    pub fn size(&self) -> (r: usize)
        ensures
            r == self@.size,
    {
        self.size
    }

    /// The layout of the buffer: `size` bytes, alignment one.
    pub fn layout(&self) -> (r: Layout)
        requires
            self.wf(),
        ensures
            r@.size == self@.size,
            r@.align == 1,
            r.wf(),
    {
        match Layout::array_bytes(self.size) {
            Some(l) => l,
            None => {
                assert(false);
                Layout::unit()
            },
        }
    }

    /// Sets the bump offset back to zero; the bytes stay as they are.
    pub fn reset(&mut self)
        ensures
            final(self)@.used == 0,
            final(self)@.size == old(self)@.size,
            final(self)@.bytes == old(self)@.bytes,
            old(self).wf() ==> final(self).wf(),
            final(self).parent() == old(self).parent(),
    {
        self.used = 0;
    }

    /// The offset where the next block may start, before alignment.
    fn top(&self) -> (r: usize)
        ensures
            r == self@.used,
    {
        self.used
    }

    /// An arena for a scope: whatever is allocated through it, the bump
    /// offset goes back to zero when the [ScopedArena] is dropped.
    pub fn scoped<'a>(&'a mut self) -> (r: ScopedArena<'a, A>)
        ensures
            *r.0 == *old(self),
            *final(r.0) == *final(self),
    {
        ScopedArena(self)
    }

    /// The bytes of the buffer.
    pub fn as_bytes(&self) -> (r: &[u8])
        ensures
            r@ == self@.bytes,
    {
        self.buf.as_slice()
    }

    /// Writes `data` into the buffer from offset `offset` on.
    pub fn write_bytes(&mut self, offset: usize, data: &[u8])
        requires
            old(self).wf(),
            offset + data@.len() <= old(self)@.size,
        ensures
            final(self).wf(),
            final(self)@.used == old(self)@.used,
            final(self)@.size == old(self)@.size,
            final(self).parent() == old(self).parent(),
            final(self)@.bytes == old(self)@.bytes.subrange(0, offset as int) + data@
                + old(self)@.bytes.subrange(offset + data@.len(), old(self)@.size as int),
    {
        crate::write_into(&mut self.buf, offset, data);
    }

    /// Gives the buffer back to the parent and returns the parent.
    pub fn release(self) -> (r: A)
        requires
            self.wf(),
        ensures
            r == self.parent(),
            r.inv(),
    {
        let layout = self.layout();
        let mut inner = self.inner;
        inner.deallocate(self.region, layout);
        inner
    }
}

/// Whether an arena at bump offset `used` with `size` bytes takes a request
/// of `n` bytes: `used + n` must not pass `size`.
pub open spec fn arena_takes(used: nat, size: nat, n: nat) -> bool {
    n + used <= size
}

impl<A: Allocator> Allocator for Arena<A> {
    open spec fn inv(&self) -> bool {
        self.wf()
    }

    open spec fn in_range(&self, layout: LayoutView) -> bool {
        &&& self@.used + layout.size <= usize::MAX
        &&& self.grants(layout) ==> self@.used + align_pad(self@.used as int, layout.align as int)
            + layout.size <= usize::MAX
    }

    open spec fn grants(&self, layout: LayoutView) -> bool {
        arena_takes(self@.used, self@.size, layout.size)
    }

    open spec fn unbounded(&self) -> bool {
        false
    }

    open spec fn after_grant(&self, before: Self, layout: LayoutView) -> bool {
        &&& self@.used == before@.used + align_pad(before@.used as int, layout.align as int)
            + layout.size
        &&& self@.size == before@.size
        &&& self@.bytes == before@.bytes
        &&& self.parent() == before.parent()
    }

    proof fn lemma_unbounded(&self, layout: LayoutView) {
    }

    /// Grants the request when its size fits between the bump offset and the
    /// end of the buffer; the block then starts at the bump offset rounded
    /// up to the alignment, and the bump offset moves past it.
    fn allocate(&mut self, layout: Layout) -> (r: Result<Region, AllocError>)
        ensures
            final(self)@.size == old(self)@.size,
            final(self)@.bytes == old(self)@.bytes,
            final(self).parent() == old(self).parent(),
            old(self).grants(layout@) ==> {
                let start = old(self)@.used + align_pad(old(self)@.used as int, layout@.align as int);
                &&& r == Ok::<Region, AllocError>(
                    Region { offset: start as usize, len: layout@.size as usize },
                )
                &&& final(self)@.used == start + layout@.size
            },
            !old(self).grants(layout@) ==> final(self)@.used == old(self)@.used,
    {
        proof {
            layout.lemma_wf();
        }
        let used = self.used();
        let size = self.size();
        let alloc_size = layout.size();
        if alloc_size + used > size {
            return Err(AllocError);
        }
        let top = self.top();
        let offset = pad_to_align(top, layout.align());
        let top = top + offset;
        self.used = used + offset + alloc_size;
        Ok(Region { offset: top, len: alloc_size })
    }

    /// Does nothing: the arena gives memory back only when it is reset.
    fn deallocate(&mut self, region: Region, layout: Layout)
        ensures
            *final(self) == *old(self),
    {
    }
}

/// An arena for one scope: allocations go to the arena, and dropping the
/// scope sets the arena's bump offset back to zero.
#[derive(Debug)]
pub struct ScopedArena<'a, A>(pub &'a mut Arena<A>);

impl<'a, A: Allocator> ScopedArena<'a, A> {
    /// The arena, for reading.
    pub fn get(&self) -> (r: &Arena<A>)
        ensures
            *r == *old(self.0),
    {
        &*self.0
    }
}

impl<'a, A> Drop for ScopedArena<'a, A> {
    /// Leaving the scope sets the arena's bump offset back to zero.
    fn drop(&mut self)
        ensures
            (*final(self).0)@.used == 0,
            (*final(self).0)@.size == (*old(self).0)@.size,
            (*final(self).0)@.bytes == (*old(self).0)@.bytes,
        opens_invariants none
        no_unwind
    {
        self.0.used = 0;
    }
}

impl<'a, A: Allocator> Allocator for ScopedArena<'a, A> {
    open spec fn inv(&self) -> bool {
        self.0.wf()
    }

    open spec fn in_range(&self, layout: LayoutView) -> bool {
        self.0.in_range(layout)
    }

    open spec fn grants(&self, layout: LayoutView) -> bool {
        self.0.grants(layout)
    }

    open spec fn unbounded(&self) -> bool {
        false
    }

    open spec fn after_grant(&self, before: Self, layout: LayoutView) -> bool {
        (*self.0).after_grant(*before.0, layout)
    }

    proof fn lemma_unbounded(&self, layout: LayoutView) {
    }

    /// Allocates from the arena.
    fn allocate(&mut self, layout: Layout) -> (r: Result<Region, AllocError>)
        ensures
            (*final(self).0)@.size == (*old(self).0)@.size,
            (*final(self).0)@.bytes == (*old(self).0)@.bytes,
            old(self).0.grants(layout@) ==> {
                let start = (*old(self).0)@.used + align_pad(
                    (*old(self).0)@.used as int,
                    layout@.align as int,
                );
                &&& r == Ok::<Region, AllocError>(
                    Region { offset: start as usize, len: layout@.size as usize },
                )
                &&& (*final(self).0)@.used == start + layout@.size
            },
            !old(self).0.grants(layout@) ==> (*final(self).0)@.used == (*old(self).0)@.used,
    {
        self.0.allocate(layout)
    }

    /// Does nothing.
    fn deallocate(&mut self, region: Region, layout: Layout)
        ensures
            *final(self) == *old(self),
    {
    }
}

/// The arena could not be made over the given parent.
#[derive(Clone, Copy, Debug, PartialEq, Eq, Structural)]
pub struct ConversionError;

impl<const S: usize> Arena<ArenaStatic<S>> {
    /// An arena over `S - 1` bytes of a static arena.
    pub fn try_from(value: ArenaStatic<S>) -> (r: Result<Self, ConversionError>)
        requires
            S > 0,
            S - 1 <= isize::MAX,
            value.inv(),
            value.in_range(LayoutView { size: (S - 1) as nat, align: 1 }),
        ensures
            r is Ok <==> value.grants(LayoutView { size: (S - 1) as nat, align: 1 }),
            r matches Ok(a) ==> a.wf() && a@.used == 0 && a@.size == S - 1,
    {
        match Self::new(value, S - 1) {
            Ok(a) => Ok(a),
            Err(_) => Err(ConversionError),
        }
    }
}

/// Successive blocks from an arena do not overlap: a block granted after
/// another starts at or after the other's end, each starts on a multiple of
/// its alignment, and the bump offset only grows between resets.
pub proof fn law_arena_blocks_disjoint(used0: nat, size: nat, l1: LayoutView, l2: LayoutView)
    requires
        l1.align > 0,
        l2.align > 0,
        arena_takes(used0, size, l1.size),
    ensures
        ({
            let start1 = used0 + align_pad(used0 as int, l1.align as int);
            let used1 = start1 + l1.size;
            let start2 = used1 + align_pad(used1, l2.align as int);
            &&& start1 >= used0
            &&& start1 % (l1.align as int) == 0
            &&& start2 >= start1 + l1.size
            &&& start2 % (l2.align as int) == 0
        }),
{
    lemma_align_pad(used0 as int, l1.align as int);
    let start1 = used0 + align_pad(used0 as int, l1.align as int);
    lemma_align_pad(start1 + l1.size, l2.align as int);
}

/// After a reset, the next request that the arena grants starts at offset
/// zero again and lies inside the buffer.
pub proof fn law_arena_reset_reuses(size: nat, l: LayoutView)
    requires
        l.align > 0,
        arena_takes(0, size, l.size),
    ensures
        ({
            let start = 0 + align_pad(0, l.align as int);
            &&& start == 0
            &&& start + l.size <= size
        }),
{
}

} // verus!
