//! A bump arena over a fixed buffer of `SIZE` bytes.
use vstd::prelude::*;
use crate::region::{Allocator, AllocError, Layout, LayoutView, Region, align_pad, lemma_align_pad, pad_to_align};

verus! {

/// A bump-style arena whose buffer holds `SIZE` bytes. Each allocation
/// starts at the first offset past the previous one that is aligned for the
/// request; nothing is given back until the arena is reset.
#[derive(Clone, Debug)]
pub struct ArenaStatic<const SIZE: usize> {
    storage: Vec<u8>,
    used: u32,
}

/// What an [ArenaStatic] holds: the bytes of its buffer and the bump offset.
pub struct ArenaStaticView {
    pub bytes: Seq<u8>,
    pub used: nat,
}

/// Whether the arena, at bump offset `used`, takes a request for `size`
/// bytes aligned to `align`: it is not past its end, `used + size` stays
/// below `cap`, and the block, starting at `used` rounded up to the
/// alignment, ends within the buffer.
pub open spec fn static_takes(used: u32, cap: usize, size: nat, align: nat) -> bool {
    &&& !(used > (cap as u32))
    &&& used + size < cap
    &&& used + align_pad(used as int, align as int) + size <= cap
}

/// The bump offset after a request for `layout` is taken at offset `used`.
pub open spec fn static_next_used(used: u32, layout_size: nat, layout_align: nat) -> int {
    used + (align_pad(used as int, layout_align as int) as u32) + (layout_size as u32)
}

impl<const SIZE: usize> View for ArenaStatic<SIZE> {
    type V = ArenaStaticView;

    closed spec fn view(&self) -> ArenaStaticView {
        ArenaStaticView { bytes: self.storage@, used: self.used as nat }
    }
}

impl<const SIZE: usize> ArenaStatic<SIZE> {
    /// The buffer always holds `SIZE` bytes and the bump offset fits a `u32`.
    pub closed spec fn wf(&self) -> bool {
        self.storage@.len() == SIZE
    }

    /// An empty arena whose buffer is all zero bytes.
    pub fn new() -> (r: Self)
        ensures
            r.wf(),
            r@.used == 0,
            r@.bytes == Seq::new(SIZE as nat, |i: int| 0u8),
    {
        let storage = crate::zeroed_bytes(SIZE);
        ArenaStatic { storage, used: 0 }
    }

    /// Bumps the arena for `layout` and returns the offset of the new block,
    /// or `None` when the arena does not take the request.
    pub fn allocate_raw(&mut self, layout: Layout) -> (r: Option<usize>)
        requires
            layout.wf(),
            old(self).wf(),
            old(self).in_range(layout@),
        ensures
            final(self).wf(),
            final(self)@.bytes == old(self)@.bytes,
            old(self).grants(layout@) ==> {
                &&& r == Some((old(self)@.used + align_pad(
                    old(self)@.used as int,
                    layout@.align as int,
                )) as usize)
                &&& final(self)@.used == static_next_used(
                    old(self)@.used as u32,
                    layout@.size,
                    layout@.align,
                )
            },
            !old(self).grants(layout@) ==> r is None && final(self)@.used == old(self)@.used,
    {
        proof {
            layout.lemma_wf();
        }
        if self.is_full() || !self.has_space_for(layout) {
            return None;
        }
        let used = self.used;
        let offset = pad_to_align(used as usize, layout.align());
        if offset > SIZE - (used as usize + layout.size()) {
            return None;
        }
        #[verifier::truncate]
        let o = offset as u32;
        #[verifier::truncate]
        let s = layout.size() as u32;
        self.used = used + o + s;
        Some(used as usize + offset)
    }

    /// Whether `layout.size()` more bytes fit below the end of the buffer.
    pub fn has_space_for(&self, layout: Layout) -> (r: bool)
        requires
            self@.used + layout@.size <= usize::MAX,
        ensures
            r == (self@.used + layout@.size < SIZE),
    {
        let used = self.used as usize;
        let size = layout.size();
        used + size < SIZE
    }

    /// Whether the bump offset is past the end of the buffer.
    pub fn is_full(&self) -> (r: bool)
        ensures
            r == (self@.used > (SIZE as u32)),
    {
        #[verifier::truncate]
        let cap = SIZE as u32;
        self.used > cap
    }

    /// Whether the bump offset is not past the end of the buffer.
    pub fn has_space(&self) -> (r: bool)
        ensures
            r == !(self@.used > (SIZE as u32)),
    {
        !self.is_full()
    }

    /// Sets the bump offset back to zero; the bytes stay as they are.
    pub fn reset(&mut self)
        ensures
            final(self)@.used == 0,
            final(self)@.bytes == old(self)@.bytes,
            old(self).wf() ==> final(self).wf(),
    {
        self.used = 0;
    }

    /// Drops the arena and gives a fresh, empty one.
    pub fn clear(self) -> (r: Self)
        ensures
            r.wf(),
            r@.used == 0,
            r@.bytes == Seq::new(SIZE as nat, |i: int| 0u8),
    {
        Self::new()
    }

    /// The bytes of the buffer.
    pub fn as_bytes(&self) -> (r: &[u8])
        ensures
            r@ == self@.bytes,
    {
        self.storage.as_slice()
    }

    /// Writes `data` into the buffer from offset `offset` on.
    pub fn write_bytes(&mut self, offset: usize, data: &[u8])
        requires
            old(self).wf(),
            offset + data@.len() <= SIZE,
        ensures
            final(self).wf(),
            final(self)@.used == old(self)@.used,
            final(self)@.bytes == old(self)@.bytes.subrange(0, offset as int) + data@
                + old(self)@.bytes.subrange(offset + data@.len(), SIZE as int),
    {
        crate::write_into(&mut self.storage, offset, data);
    }

}

impl<const SIZE: usize> Allocator for ArenaStatic<SIZE> {
    open spec fn inv(&self) -> bool {
        self.wf()
    }

    open spec fn in_range(&self, layout: LayoutView) -> bool {
        &&& self@.used + layout.size <= usize::MAX
        &&& self.grants(layout) ==> static_next_used(self@.used as u32, layout.size, layout.align)
            <= u32::MAX
    }

    open spec fn grants(&self, layout: LayoutView) -> bool {
        static_takes(self@.used as u32, SIZE, layout.size, layout.align)
    }

    open spec fn unbounded(&self) -> bool {
        false
    }

    open spec fn after_grant(&self, before: Self, layout: LayoutView) -> bool {
        &&& self@.used == static_next_used(before@.used as u32, layout.size, layout.align)
        &&& self@.bytes == before@.bytes
    }

    proof fn lemma_unbounded(&self, layout: LayoutView) {
    }

    /// Asks the arena for a block that fits `layout`.
    fn allocate(&mut self, layout: Layout) -> (r: Result<Region, AllocError>)
        ensures
            final(self)@.bytes == old(self)@.bytes,
            old(self).grants(layout@) ==> {
                &&& r == Ok::<Region, AllocError>(
                    Region {
                        offset: (old(self)@.used + align_pad(
                            old(self)@.used as int,
                            layout@.align as int,
                        )) as usize,
                        len: layout@.size as usize,
                    },
                )
                &&& final(self)@.used == static_next_used(
                    old(self)@.used as u32,
                    layout@.size,
                    layout@.align,
                )
            },
            !old(self).grants(layout@) ==> r == Err::<Region, AllocError>(AllocError)
                && final(self)@.used == old(self)@.used,
    {
        match self.allocate_raw(layout) {
            Some(offset) => Ok(Region { offset, len: layout.size() }),
            None => Err(AllocError),
        }
    }

    /// Does nothing: an arena gives memory back only when it is reset.
    fn deallocate(&mut self, region: Region, layout: Layout)
        ensures
            *final(self) == *old(self),
    {
    }
}

impl<const SIZE: usize> Default for ArenaStatic<SIZE> {
    fn default() -> (r: Self)
        ensures
            r.wf(),
            r@.used == 0,
            r@.bytes == Seq::new(SIZE as nat, |i: int| 0u8),
    {
        Self::new()
    }
}

/// Two requests that the arena takes one after the other get blocks that do
/// not overlap and lie inside the buffer: the second starts at or after the
/// end of the first, and each starts on a multiple of its alignment. (A
/// size or padding above 32 bits is cut to 32 bits in the bump offset, which
/// can make the next block overlap this one, so such a first request is left
/// out.)
pub proof fn law_static_blocks_disjoint(used0: u32, cap: usize, l1: Layout, l2: Layout)
    requires
        l1.wf(),
        l2.wf(),
        l1@.align <= 0x1_0000_0000,
        l1@.size <= u32::MAX,
        static_takes(used0, cap, l1@.size, l1@.align),
        static_next_used(used0, l1@.size, l1@.align) <= u32::MAX,
        static_takes(static_next_used(used0, l1@.size, l1@.align) as u32, cap, l2@.size, l2@.align),
    ensures
        ({
            let start1 = used0 + align_pad(used0 as int, l1@.align as int);
            let used1 = static_next_used(used0, l1@.size, l1@.align);
            let start2 = used1 + align_pad(used1, l2@.align as int);
            &&& start1 + l1@.size <= start2
            &&& start1 + l1@.size <= cap
            &&& start2 + l2@.size <= cap
            &&& start1 % (l1@.align as int) == 0
            &&& start2 % (l2@.align as int) == 0
            &&& used0 <= used1
        }),
{
    l1.lemma_wf();
    l2.lemma_wf();
    lemma_align_pad(used0 as int, l1@.align as int);
    let used1 = static_next_used(used0, l1@.size, l1@.align);
    lemma_align_pad(used1, l2@.align as int);
    assert(l1@.size < cap);
}

} // verus!
