//! Index-tagged allocations: slots that remember where an allocation should
//! lie, and a slot map that hands them out.
use vstd::prelude::*;
use core::marker::PhantomData;
use crate::region::{
    Allocator, AllocError, Layout, LayoutView, Region, align_pad, pad_to_align,
};
use crate::basic::const_sync::ArenaStaticSync;
use crate::basic::slot_ptr::{SlotMapAnyPtr, SlotMapPtr};

verus! {

/// An allocation tagged with the byte offset where it should lie, and its
/// layout.
#[derive(Clone, Copy, Debug, PartialEq, Eq, Structural)]
pub struct AllocSlot {
    i: u32,
    layout: Layout,
}

/// What an [AllocSlot] holds.
pub struct AllocSlotView {
    pub index: nat,
    pub layout: Layout,
}

impl View for AllocSlot {
    type V = AllocSlotView;

    closed spec fn view(&self) -> AllocSlotView {
        AllocSlotView { index: self.i as nat, layout: self.layout }
    }
}

/// The slot index a `usize` offset is stored as: its low 32 bits.
pub open spec fn slot_index(slot: usize) -> nat {
    (slot as u32) as nat
}

impl AllocSlot {
    /// A slot at `slot` for a value of no size.
    pub fn no_size(slot: usize) -> (r: Self)
        ensures
            r@.index == slot_index(slot),
            r@.layout@.size == 0,
            r@.layout@.align == 1,
            r@.layout.wf(),
    {
        #[verifier::truncate]
        let i = slot as u32;
        AllocSlot { i, layout: Layout::unit() }
    }

    /// A slot at `slot` for `layout`.
    pub fn new(slot: usize, layout: Layout) -> (r: Self)
        ensures
            r@.index == slot_index(slot),
            r@.layout == layout,
    {
        #[verifier::truncate]
        let i = slot as u32;
        AllocSlot { i, layout }
    }

    /// A slot at `slot` for a value of type `V`.
    pub fn from_type<V>(slot: usize) -> (r: Self)
        ensures
            r@.index == slot_index(slot),
            r@.layout@.size == vstd::layout::size_of::<V>(),
            r@.layout@.align == vstd::layout::align_of::<V>(),
            r@.layout.wf(),
    {
        #[verifier::truncate]
        let i = slot as u32;
        AllocSlot { i, layout: Layout::new::<V>() }
    }

    /// The byte offset the slot is tagged with.
    pub fn slot(&self) -> (r: usize)
        ensures
            r == self@.index,
    {
        self.i as usize
    }

    pub fn layout(&self) -> (r: Layout)
        ensures
            r == self@.layout,
    {
        self.layout
    }
}

/// Two slots with the same offset and layout are the same slot.
pub proof fn lemma_slot_view_eq(a: AllocSlot, b: AllocSlot)
    requires
        a@ == b@,
    ensures
        a == b,
{
}

/// An allocator that can find an allocation again by its slot.
pub trait SlottedAllocator {
    /// Where the allocation for `tag` lies, if it can be found.
    spec fn lookup_spec(&self, tag: AllocSlot) -> Option<usize>;

    /// The offset of the allocation for `tag`, if it can be found.
    fn lookup(&self, tag: AllocSlot) -> (r: Option<usize>)
        ensures
            r == self.lookup_spec(tag),
    ;
}

/// Something that finds the region of an allocation by its slot.
pub trait SlotLookup {
    /// The region of the allocation for `slot`, if it can be found.
    spec fn lookup_slot_spec(&self, slot: AllocSlot) -> Option<Region>;

    /// The region of the allocation for `slot`, if it can be found.
    fn lookup_slot(&self, slot: AllocSlot) -> (r: Option<Region>)
        ensures
            r == self.lookup_slot_spec(slot),
    ;
}

/// A slot together with the allocator that should hold it.
pub struct SlotPtr<A: SlottedAllocator> {
    slot: AllocSlot,
    parent: A,
}

impl<A: SlottedAllocator> SlotPtr<A> {
    pub closed spec fn slot_spec(&self) -> AllocSlot {
        self.slot
    }

    pub closed spec fn parent_spec(&self) -> A {
        self.parent
    }

    /// A slot at `slot` for `layout` in `parent`.
    pub fn new(slot: usize, layout: Layout, parent: A) -> (r: Self)
        ensures
            r.slot_spec()@.index == slot_index(slot),
            r.slot_spec()@.layout == layout,
            r.parent_spec() == parent,
    {
        SlotPtr { slot: AllocSlot::new(slot, layout), parent }
    }

    /// Looks the slot up in its allocator.
    pub fn try_get(&self) -> (r: Option<usize>)
        ensures
            r == self.parent_spec().lookup_spec(self.slot_spec()),
    {
        self.parent.lookup(self.slot)
    }

    /// Looks the slot up in its allocator, which must find it.
    pub fn get(&self) -> (r: usize)
        requires
            self.parent_spec().lookup_spec(self.slot_spec()) is Some,
        ensures
            Some(r) == self.parent_spec().lookup_spec(self.slot_spec()),
    {
        match self.try_get() {
            Some(p) => p,
            None => {
                assert(false);
                0
            },
        }
    }

    /// Looks the slot up in its allocator, for a value of type `T`.
    pub fn try_get_cast<T>(&self) -> (r: Option<usize>)
        ensures
            r == self.parent_spec().lookup_spec(self.slot_spec()),
    {
        self.try_get()
    }

    /// Looks the slot up in its allocator, which must find it, for a value of
    /// type `T`.
    pub fn get_cast<T>(&self) -> (r: usize)
        requires
            self.parent_spec().lookup_spec(self.slot_spec()) is Some,
        ensures
            Some(r) == self.parent_spec().lookup_spec(self.slot_spec()),
    {
        self.get()
    }

    pub fn slot(&self) -> (r: AllocSlot)
        ensures
            r == self.slot_spec(),
    {
        self.slot
    }

    pub fn allocator(&self) -> (r: &A)
        ensures
            *r == self.parent_spec(),
    {
        &self.parent
    }
}

/// Where the allocation a slot names lies in an arena of `size` bytes with
/// bump offset `used`: at the slot's offset, when that offset is inside the
/// buffer and the whole allocation lies below the bump offset; otherwise
/// the slot is dangling (for instance after the arena was cleared).
pub open spec fn sync_slot_lookup(size: usize, used: nat, slot: AllocSlot) -> Option<usize> {
    if slot@.index >= size || slot@.index + slot@.layout@.size > used {
        None
    } else {
        Some(slot@.index as usize)
    }
}

/// A handle looks up the same allocation as its parent does for any slot
/// with the handle's offset and layout, such as a fresh
/// `AllocSlot::new(slot, layout)` for the `slot` and `layout` the handle was
/// made with.
pub proof fn law_slot_ptr_finds_its_slot<A: SlottedAllocator>(p: SlotPtr<A>, s: AllocSlot)
    requires
        s@ == p.slot_spec()@,
    ensures
        p.parent_spec().lookup_spec(s) == p.parent_spec().lookup_spec(p.slot_spec()),
{
    lemma_slot_view_eq(s, p.slot_spec());
}

/// A slot handed out at bump offset `used0` of a `size`-byte synchronised
/// arena is found at that offset once the arena has taken the request, and
/// stays found while the bump offset only grows (no wrap-around); after the
/// arena is cleared, a slot of non-zero size is reported dangling.
pub proof fn law_sync_slot_found_until_cleared(
    size: usize,
    used0: nat,
    later: nat,
    s: AllocSlot,
)
    requires
        used0 < size,
        used0 <= u32::MAX,
        s@.index == slot_index(used0 as usize),
        used0 + s@.layout@.size <= later,
        later <= usize::MAX,
    ensures
        sync_slot_lookup(size, crate::basic::const_sync::sync_bump(used0, s@.layout@.size), s)
            == Some(used0 as usize),
        sync_slot_lookup(size, later, s) == Some(used0 as usize),
        s@.layout@.size > 0 ==> sync_slot_lookup(size, 0, s) is None,
{
    assert(slot_index(used0 as usize) == used0);
}

impl<const S: usize> ArenaStaticSync<S> {
    /// The offset a slot names, if it lies inside the buffer and below the
    /// bump offset.
    pub fn lookup_ptr(&self, slot: AllocSlot) -> (r: Option<usize>)
        ensures
            r == sync_slot_lookup(S, self@.used, slot),
    {
        let i = slot.i as usize;
        if i >= S {
            return None;
        }
        let size = slot.layout.size();
        let used = self.used();
        if size > used || i > used - size {
            return None;
        }
        let mem = self.as_ptr();
        let res = mem + i;
        Some(res)
    }

    /// Allocates for `layout` and hands back a slot, tagged with the bump
    /// offset before the allocation, that looks itself up in this arena.
    pub fn allocate_slotted<'a>(&'a mut self, layout: Layout) -> (r: SlotPtr<&'a Self>)
        requires
            layout.wf(),
        ensures
            r.slot_spec()@.index == slot_index(old(self)@.used as usize),
            r.slot_spec()@.layout == layout,
            final(self)@.used == crate::basic::const_sync::sync_bump(old(self)@.used, layout@.size),
            final(self)@.bytes == old(self)@.bytes,
            *r.parent_spec() == *final(self),
    {
        let slot = self.used();
        let _ = self.allocate_raw(layout);
        SlotPtr { slot: AllocSlot::new(slot, layout), parent: &*self }
    }
}

impl<const S: usize> SlottedAllocator for ArenaStaticSync<S> {
    open spec fn lookup_spec(&self, tag: AllocSlot) -> Option<usize> {
        sync_slot_lookup(S, self@.used, tag)
    }

    fn lookup(&self, tag: AllocSlot) -> (r: Option<usize>) {
        self.lookup_ptr(tag)
    }
}

impl<'b, const S: usize> SlottedAllocator for &'b ArenaStaticSync<S> {
    open spec fn lookup_spec(&self, tag: AllocSlot) -> Option<usize> {
        sync_slot_lookup(S, self@.used, tag)
    }

    fn lookup(&self, tag: AllocSlot) -> (r: Option<usize>) {
        (**self).lookup_ptr(tag)
    }
}

/// A growable buffer that hands out allocations as slots, found again by
/// their offset on every access.
#[derive(Debug)]
pub struct SlotMap<A> {
    buf: Vec<u8>,
    region: Region,
    used: usize,
    alloc: A,
}

/// What a [SlotMap] holds: the bytes of its buffer and the bump offset.
pub struct SlotMapView {
    pub bytes: Seq<u8>,
    pub used: nat,
}

impl<A> View for SlotMap<A> {
    type V = SlotMapView;

    closed spec fn view(&self) -> SlotMapView {
        SlotMapView { bytes: self.buf@, used: self.used as nat }
    }
}

/// The slot the next allocation for a layout of alignment `align` gets, at
/// bump offset `used`: the next aligned offset, kept to 32 bits.
pub open spec fn next_slot_index(used: nat, align: nat) -> nat {
    slot_index((used + align_pad(used as int, align as int)) as usize)
}

/// The length the buffer grows to so that it holds `end` bytes, from `len`
/// bytes with bump offset `used`: a map with nothing marked used gets exactly
/// `end` bytes, otherwise the buffer doubles until it is long enough.
pub open spec fn grown_len(len: nat, used: nat, end: nat) -> nat
    decreases (if end > len { end - len } else { 0 }),
{
    if len >= end {
        len
    } else if used == 0 || len == 0 {
        end
    } else {
        grown_len(2 * len, used, end)
    }
}

/// The grown buffer holds at least `end` bytes and never shrinks.
pub proof fn lemma_grown_len(len: nat, used: nat, end: nat)
    ensures
        grown_len(len, used, end) >= end,
        grown_len(len, used, end) >= len,
    decreases (if end > len { end - len } else { 0 }),
{
    if len < end && used != 0 && len != 0 {
        lemma_grown_len(2 * len, used, end);
    }
}

/// The buffer's bytes after [SlotMap::malloc_slot] grows it to hold `end`
/// bytes: unchanged when it already does; new zero bytes when nothing was
/// marked used; otherwise the old bytes followed by zero bytes.
pub open spec fn malloc_bytes(bytes: Seq<u8>, used: nat, end: nat) -> Seq<u8> {
    if bytes.len() >= end {
        bytes
    } else if used == 0 {
        Seq::new(end, |i: int| 0u8)
    } else {
        bytes + Seq::new((grown_len(bytes.len(), used, end) - bytes.len()) as nat, |i: int| 0u8)
    }
}

/// Two slots the map's `malloc` hands out one after the other do not
/// overlap: the second starts at or after the end of the first, and the
/// buffer holds each slot once it is handed out. (An offset above 32 bits is
/// cut to 32 bits in the slot, which can make the slots overlap, so such a
/// second slot is left out.)
pub proof fn law_malloc_slots_disjoint(
    used0: nat,
    bytes: Seq<u8>,
    l1: LayoutView,
    l2: LayoutView,
)
    requires
        l1.align > 0,
        l2.align > 0,
        ({
            let used1 = next_slot_index(used0, l1.align) + l1.size;
            used1 + align_pad(used1 as int, l2.align as int) <= u32::MAX
        }),
    ensures
        ({
            let s1 = next_slot_index(used0, l1.align);
            let used1 = s1 + l1.size;
            let s2 = next_slot_index(used1, l2.align);
            &&& s1 + l1.size <= s2
            &&& malloc_bytes(bytes, used0, s1 + l1.size).len() >= s1 + l1.size
        }),
{
    let s1 = next_slot_index(used0, l1.align);
    let used1 = s1 + l1.size;
    crate::region::lemma_align_pad(used1 as int, l2.align as int);
    let x = (used1 + align_pad(used1 as int, l2.align as int)) as usize;
    assert(slot_index(x) == x);
    lemma_grown_len(bytes.len(), used0, used1);
}

/// The machine limits of a [SlotMap::malloc_slot] for `layout` at bump
/// offset `used` with a buffer of `len` bytes: the aligned offset and the
/// slot's end fit a `usize`, and the grown buffer fits a layout.
pub open spec fn malloc_in_range(used: nat, len: nat, layout: LayoutView) -> bool {
    &&& used + align_pad(used as int, layout.align as int) <= usize::MAX
    &&& next_slot_index(used, layout.align) + layout.size <= usize::MAX
    &&& grown_len(len, used, next_slot_index(used, layout.align) + layout.size) <= isize::MAX
}

/// Whether `alloc` grants what a [SlotMap::malloc_slot] for `layout` at
/// bump offset `used` with a buffer of `len` bytes asks of it: nothing when
/// the buffer already holds the slot's end, otherwise one block of the grown
/// length, within its machine limits.
pub open spec fn malloc_granted<A: Allocator>(alloc: A, used: nat, len: nat, layout: LayoutView) -> bool {
    let end = next_slot_index(used, layout.align) + layout.size;
    let grown = LayoutView { size: grown_len(len, used, end), align: 1 };
    len < end ==> alloc.in_range(grown) && alloc.grants(grown)
}

impl SlotMap<crate::region::Global> {
    /// An empty slot map over the process heap, with no buffer yet.
    pub fn new() -> (r: Self)
        ensures
            r@.bytes.len() == 0,
            r@.used == 0,
            r.wf(),
    {
        SlotMap {
            buf: Vec::new(),
            region: Region { offset: 0, len: 0 },
            used: 0,
            alloc: crate::region::Global,
        }
    }

    /// A slot map over the process heap with a buffer of `cap` bytes.
    pub fn with_capacity(cap: usize) -> (r: Self)
        requires
            cap <= isize::MAX,
        ensures
            r@.bytes == Seq::new(cap as nat, |i: int| 0u8),
            r@.used == 0,
            r.wf(),
    {
        Self::with_capacity_in(cap, crate::region::Global)
    }
}

impl<A: Allocator> SlotMap<A> {
    /// The allocator behind the map stays well formed, and the bump offset
    /// never passes the end of the buffer.
    pub closed spec fn wf(&self) -> bool {
        &&& self.alloc.inv()
        &&& self.used <= self.buf@.len()
    }

    pub closed spec fn allocator_spec(&self) -> A {
        self.alloc
    }

    /// Bytes the map's buffer holds.
    pub open spec fn capacity_spec(&self) -> nat {
        self@.bytes.len()
    }

    /// The region a slot names, if its offset is below the capacity.
    pub open spec fn lookup_region(&self, slot: AllocSlot) -> Option<Region> {
        if slot@.index < self.capacity_spec() {
            Some(Region { offset: slot@.index as usize, len: slot@.layout@.size as usize })
        } else {
            None
        }
    }

    /// The handle for the allocation at `slot`, if the map finds it.
    pub fn lookup_any_ptr(&self, slot: AllocSlot) -> (r: Option<SlotMapAnyPtr<A>>)
        ensures
            r is Some <==> self.lookup_region(slot) is Some,
            r matches Some(p) ==> p.slot_spec() == slot,
    {
        let ptr = self.lookup_slot(slot);
        match ptr {
            Some(_) => Some(SlotMapAnyPtr::with_slot(slot, self)),
            None => None,
        }
    }

    /// A handle for a value of type `V` at offset `index`.
    pub fn ptr_from_type<V>(&self, index: usize) -> (r: SlotMapPtr<V, A>)
        ensures
            r.slot_spec()@.index == slot_index(index),
            r.slot_spec()@.layout@.size == vstd::layout::size_of::<V>(),
            r.slot_spec()@.layout@.align == vstd::layout::align_of::<V>(),
    {
        let slot = AllocSlot::new(index, Layout::new::<V>());
        SlotMapPtr::with_slot(slot, self)
    }

    /// An empty slot map over `alloc`, with no buffer yet.
    pub fn new_in(alloc: A) -> (r: Self)
        requires
            alloc.inv(),
        ensures
            r@.bytes.len() == 0,
            r@.used == 0,
            r.allocator_spec() == alloc,
            r.wf(),
    {
        SlotMap { buf: Vec::new(), region: Region { offset: 0, len: 0 }, used: 0, alloc }
    }

    /// A slot map whose buffer of `cap` bytes comes from `alloc`, which must
    /// grant it.
    pub fn with_capacity_in(cap: usize, alloc: A) -> (r: Self)
        requires
            cap <= isize::MAX,
            alloc.inv(),
            alloc.in_range(LayoutView { size: cap as nat, align: 1 }),
            alloc.grants(LayoutView { size: cap as nat, align: 1 }),
        ensures
            r@.bytes == Seq::new(cap as nat, |i: int| 0u8),
            r@.used == 0,
            r.wf(),
    {
        let layout = match Layout::array_bytes(cap) {
            Some(l) => l,
            None => {
                assert(false);
                Layout::unit()
            },
        };
        let mut alloc = alloc;
        let region = match alloc.allocate(layout) {
            Ok(r) => r,
            Err(_) => {
                assert(false);
                Region { offset: 0, len: 0 }
            },
        };
        let buf = crate::zeroed_bytes(region.len);
        SlotMap { buf, region, used: 0, alloc }
    }

    /// The whole buffer.
    pub fn buf(&self) -> (r: &[u8])
        ensures
            r@ == self@.bytes,
    {
        self.buf.as_slice()
    }

    /// The bytes of the buffer, or none while nothing is marked used.
    pub fn as_bytes(&self) -> (r: &[u8])
        ensures
            r@ == (if self@.used == 0 { Seq::<u8>::empty() } else { self@.bytes }),
    {
        if self.is_empty() {
            let e: &[u8] = &[];
            assert(e@ =~= Seq::<u8>::empty());
            e
        } else {
            self.buf.as_slice()
        }
    }

    /// The bytes of the buffer to write through, or none while nothing is
    /// marked used.
    pub fn as_bytes_mut(&mut self) -> (r: &mut [u8])
        ensures
            old(self)@.used == 0 ==> r@ == Seq::<u8>::empty() && *final(self) == *old(self),
            old(self)@.used != 0 ==> r@ == old(self)@.bytes && final(r)@ == final(self)@.bytes,
            final(self)@.used == old(self)@.used,
            final(self).allocator_spec() == old(self).allocator_spec(),
    {
        if self.is_empty() {
            let e: &mut [u8] = &mut [];
            e
        } else {
            self.buf.as_mut_slice()
        }
    }

    /// The map's `malloc`: the next slot for `layout` (the bump offset
    /// rounded up to the alignment, kept to 32 bits). The bump offset moves
    /// to the end of the slot, and when the buffer does not hold that end it
    /// grows in one request to the map's allocator: a map with nothing
    /// marked used gets a buffer of exactly that many bytes, otherwise the
    /// length doubles until it holds the end, keeping the bytes.
    pub fn malloc_slot(&mut self, layout: Layout) -> (r: AllocSlot)
        requires
            layout.wf(),
            old(self).wf(),
            malloc_in_range(old(self)@.used, old(self)@.bytes.len(), layout@),
            malloc_granted(old(self).allocator_spec(), old(self)@.used, old(self)@.bytes.len(), layout@),
        ensures
            r@.index == next_slot_index(old(self)@.used, layout@.align),
            r@.layout == layout,
            final(self).wf(),
            final(self)@.used == r@.index + layout@.size,
            final(self)@.bytes == malloc_bytes(
                old(self)@.bytes,
                old(self)@.used,
                r@.index + layout@.size,
            ),
            old(self)@.bytes.len() >= r@.index + layout@.size ==> final(self).allocator_spec()
                == old(self).allocator_spec(),
            old(self)@.bytes.len() < r@.index + layout@.size ==> final(self).allocator_spec().after_grant(
                old(self).allocator_spec(),
                LayoutView {
                    size: grown_len(old(self)@.bytes.len(), old(self)@.used, r@.index + layout@.size),
                    align: 1,
                },
            ),
            old(self).allocator_spec().unbounded() ==> final(self).allocator_spec().unbounded(),
    {
        proof {
            layout.lemma_wf();
        }
        let slot = self.prealloc_slot(layout);
        let end = slot.slot() + layout.size();
        let ghost u0 = self@.used;
        let ghost b0 = self@.bytes;
        let ghost g = grown_len(b0.len(), u0, end as nat);
        proof {
            lemma_grown_len(b0.len(), u0, end as nat);
        }
        if self.buf.len() < end {
            if self.is_empty() {
                self.grow_memory(end);
            } else {
                let mut t = self.buf.len();
                while t < end
                    invariant
                        0 < t,
                        u0 != 0,
                        grown_len(t as nat, u0, end as nat) == g,
                        g <= isize::MAX,
                        b0.len() <= t,
                    decreases (if end > t { end - t } else { 0 }),
                {
                    proof {
                        lemma_grown_len(2 * t as nat, u0, end as nat);
                    }
                    t = t * 2;
                }
                assert(t == g);
                self.resize_memory(t);
            }
        }
        self.store_used(end);
        slot
    }

    /// A handle for `val` at the slot [SlotMap::malloc_slot] hands out for
    /// its type; `val` itself is dropped.
    pub fn push_value<V>(&mut self, val: V) -> (r: SlotMapPtr<V, A>)
        requires
            old(self).wf(),
            malloc_in_range(
                old(self)@.used,
                old(self)@.bytes.len(),
                LayoutView {
                    size: vstd::layout::size_of::<V>(),
                    align: vstd::layout::align_of::<V>(),
                },
            ),
            malloc_granted(
                old(self).allocator_spec(),
                old(self)@.used,
                old(self)@.bytes.len(),
                LayoutView {
                    size: vstd::layout::size_of::<V>(),
                    align: vstd::layout::align_of::<V>(),
                },
            ),
        ensures
            r.slot_spec()@.index == next_slot_index(old(self)@.used, vstd::layout::align_of::<V>()),
            r.slot_spec()@.layout@.size == vstd::layout::size_of::<V>(),
            r.slot_spec()@.layout@.align == vstd::layout::align_of::<V>(),
            final(self).wf(),
            final(self)@.used == r.slot_spec()@.index + vstd::layout::size_of::<V>(),
    {
        let slot = self.malloc_slot(Layout::new::<V>());
        SlotMapPtr::with_slot(slot, self)
    }

    /// The slot of the byte at offset `ptr`, if the buffer is in use and
    /// holds that offset.
    pub fn find_index_from_ptr(&self, ptr: usize) -> (r: Option<AllocSlot>)
        ensures
            (self@.used == 0 || ptr >= self@.bytes.len()) ==> r is None,
            (self@.used != 0 && ptr < self@.bytes.len()) ==> (r matches Some(s) && s@.index
                == slot_index(ptr) && s@.layout@.size == 0 && s@.layout@.align == 1),
    {
        if self.is_empty() {
            None
        } else {
            let len = self.buf.len();
            let mut i: usize = 0;
            while i < len
                invariant
                    len == self@.bytes.len(),
                    i <= len,
                    i <= ptr,
                    self@.used != 0,
                decreases len - i,
            {
                if i == ptr {
                    return Some(AllocSlot::no_size(i));
                }
                i = i + 1;
            }
            None
        }
    }

    /// Whether nothing is marked used yet.
    pub fn is_empty(&self) -> (r: bool)
        ensures
            r == (self@.used == 0),
    {
        self.used() == 0
    }

    /// Same as [SlotMap::is_empty]: while nothing is marked used, the buffer
    /// is not read.
    pub fn is_dangling(&self) -> (r: bool)
        ensures
            r == (self@.used == 0),
    {
        self.is_empty()
    }

    /// The bump offset.
    pub fn used(&self) -> (r: usize)
        ensures
            r == self@.used,
    {
        self.used
    }

    /// The allocator behind the map.
    pub fn allocator(&self) -> (r: &A)
        ensures
            *r == self.allocator_spec(),
    {
        &self.alloc
    }

    /// Bytes the map's buffer holds.
    pub fn capacity(&self) -> (r: usize)
        ensures
            r == self.capacity_spec(),
    {
        self.buf.len()
    }

    /// Gives the map a first buffer of `init_size` bytes from its allocator,
    /// unless something is already marked used.
    fn init_memory(&mut self, init_size: usize)
        requires
            old(self).wf(),
            old(self)@.used == 0 ==> {
                &&& init_size <= isize::MAX
                &&& old(self).allocator_spec().in_range(
                    LayoutView { size: init_size as nat, align: 1 },
                )
                &&& old(self).allocator_spec().grants(
                    LayoutView { size: init_size as nat, align: 1 },
                )
            },
        ensures
            final(self).wf(),
            final(self)@.used == old(self)@.used,
            old(self).allocator_spec().unbounded() ==> final(self).allocator_spec().unbounded(),
            old(self)@.used > 0 ==> final(self)@.bytes == old(self)@.bytes,
            old(self)@.used == 0 ==> final(self)@.bytes == Seq::new(init_size as nat, |i: int| 0u8)
                && final(self).allocator_spec().after_grant(
                old(self).allocator_spec(),
                LayoutView { size: init_size as nat, align: 1 },
            ),
    {
        if self.used() > 0 {
            return;
        }
        let layout = match Layout::array_bytes(init_size) {
            Some(l) => l,
            None => {
                assert(false);
                Layout::unit()
            },
        };
        let mem = match self.alloc.allocate(layout) {
            Ok(r) => r,
            Err(_) => {
                assert(false);
                Region { offset: 0, len: 0 }
            },
        };
        self.set_buf(crate::zeroed_bytes(mem.len), mem);
    }

    fn set_buf(&mut self, new_buf: Vec<u8>, region: Region)
        ensures
            final(self)@.bytes == new_buf@,
            final(self)@.used == old(self)@.used,
            final(self).allocator_spec() == old(self).allocator_spec(),
    {
        self.buf = new_buf;
        self.region = region;
    }

    /// Grows the buffer: a map with nothing marked used gets a first buffer
    /// of `n` bytes; otherwise the buffer doubles, keeping its bytes. Returns
    /// the new length.
    fn grow_memory(&mut self, n: usize) -> (r: usize)
        requires
            old(self).wf(),
            old(self)@.used == 0 ==> {
                &&& n <= isize::MAX
                &&& old(self).allocator_spec().in_range(LayoutView { size: n as nat, align: 1 })
                &&& old(self).allocator_spec().grants(LayoutView { size: n as nat, align: 1 })
            },
            old(self)@.used != 0 ==> {
                let len = old(self)@.bytes.len();
                &&& 2 * len <= isize::MAX
                &&& old(self).allocator_spec().in_range(LayoutView { size: 2 * len, align: 1 })
                &&& old(self).allocator_spec().grants(LayoutView { size: 2 * len, align: 1 })
            },
        ensures
            final(self).wf(),
            final(self)@.used == old(self)@.used,
            old(self).allocator_spec().unbounded() ==> final(self).allocator_spec().unbounded(),
            old(self)@.used == 0 ==> r == n && final(self)@.bytes == Seq::new(
                n as nat,
                |i: int| 0u8,
            ) && final(self).allocator_spec().after_grant(
                old(self).allocator_spec(),
                LayoutView { size: n as nat, align: 1 },
            ),
            old(self)@.used != 0 ==> r == 2 * old(self)@.bytes.len() && final(self)@.bytes
                == old(self)@.bytes + Seq::new(old(self)@.bytes.len(), |i: int| 0u8)
                && final(self).allocator_spec().after_grant(
                old(self).allocator_spec(),
                LayoutView { size: 2 * old(self)@.bytes.len(), align: 1 },
            ),
    {
        if self.is_dangling() {
            self.init_memory(n);
            n
        } else {
            let old_len = self.buf.len();
            self.resize_memory(old_len * 2);
            old_len * 2
        }
    }

    /// Moves the bytes of a map in use to a new buffer of `new_len` bytes
    /// from its allocator, the bytes past the old end zero, and gives the
    /// old buffer back.
    fn resize_memory(&mut self, new_len: usize)
        requires
            old(self).wf(),
            old(self)@.used != 0,
            old(self)@.bytes.len() <= new_len <= isize::MAX,
            old(self).allocator_spec().in_range(LayoutView { size: new_len as nat, align: 1 }),
            old(self).allocator_spec().grants(LayoutView { size: new_len as nat, align: 1 }),
        ensures
            final(self).wf(),
            final(self)@.used == old(self)@.used,
            final(self)@.bytes == old(self)@.bytes + Seq::new(
                (new_len - old(self)@.bytes.len()) as nat,
                |i: int| 0u8,
            ),
            final(self).allocator_spec().after_grant(
                old(self).allocator_spec(),
                LayoutView { size: new_len as nat, align: 1 },
            ),
            old(self).allocator_spec().unbounded() ==> final(self).allocator_spec().unbounded(),
    {
        let old_len = self.buf.len();
        let old_layout = match Layout::array_bytes(old_len) {
            Some(l) => l,
            None => {
                assert(false);
                Layout::unit()
            },
        };
        let layout = match Layout::array_bytes(new_len) {
            Some(l) => l,
            None => {
                assert(false);
                Layout::unit()
            },
        };
        let new_mem = match self.alloc.allocate(layout) {
            Ok(r) => r,
            Err(_) => {
                assert(false);
                Region { offset: 0, len: 0 }
            },
        };
        let mut new_buf = crate::zeroed_bytes(new_mem.len);
        crate::write_into(&mut new_buf, 0, self.buf.as_slice());
        let old_region = self.region;
        self.alloc.deallocate(old_region, old_layout);
        proof {
            assert(new_buf@ =~= self.buf@ + Seq::new((new_len - old_len) as nat, |i: int| 0u8));
        }
        self.set_buf(new_buf, new_mem);
    }

    /// Sets the bump offset.
    fn store_used(&mut self, new_value: usize)
        ensures
            final(self)@.used == new_value,
            final(self)@.bytes == old(self)@.bytes,
            final(self).allocator_spec() == old(self).allocator_spec(),
    {
        self.used = new_value;
    }

    /// Adds `n` to the bump offset, wrapping at `usize::MAX`.
    fn inc_used(&mut self, n: usize)
        ensures
            final(self)@.used == crate::basic::const_sync::sync_bump(old(self)@.used, n as nat),
            final(self)@.bytes == old(self)@.bytes,
            final(self).allocator_spec() == old(self).allocator_spec(),
    {
        let _ = self.used_fetch_add(n);
    }

    /// Adds `n` to the bump offset, wrapping at `usize::MAX`; returns the
    /// offset before.
    fn used_fetch_add(&mut self, n: usize) -> (r: usize)
        ensures
            r == old(self)@.used,
            final(self)@.used == crate::basic::const_sync::sync_bump(old(self)@.used, n as nat),
            final(self)@.bytes == old(self)@.bytes,
            final(self).allocator_spec() == old(self).allocator_spec(),
    {
        let prev = self.used;
        self.used = prev.wrapping_add(n);
        prev
    }

    /// The offset where the next allocation may lie, before alignment.
    pub fn used_ptr(&self) -> (r: usize)
        ensures
            r == self@.used,
    {
        self.used()
    }

    /// Padding from the bump offset to the alignment of `layout`.
    pub fn prealloc_align_offset(&self, layout: Layout) -> (r: usize)
        requires
            layout.wf(),
        ensures
            r == align_pad(self@.used as int, layout@.align as int),
    {
        proof {
            layout.lemma_wf();
        }
        let up = self.used_ptr();
        pad_to_align(up, layout.align())
    }

    /// The slot the next allocation of `layout` gets: the bump offset
    /// rounded up to the alignment, kept to 32 bits.
    pub fn prealloc_slot(&self, layout: Layout) -> (r: AllocSlot)
        requires
            layout.wf(),
            self@.used + align_pad(self@.used as int, layout@.align as int) <= usize::MAX,
        ensures
            r@.index == next_slot_index(self@.used, layout@.align),
            r@.layout == layout,
    {
        let used = self.used();
        let offset = self.prealloc_align_offset(layout);
        #[verifier::truncate]
        let slot = (used + offset) as u32;
        AllocSlot::new(slot as usize, layout)
    }

    /// Writes `data` into the buffer from offset `offset` on.
    pub fn write_bytes(&mut self, offset: usize, data: &[u8])
        requires
            offset + data@.len() <= old(self)@.bytes.len(),
        ensures
            final(self)@.used == old(self)@.used,
            final(self).allocator_spec() == old(self).allocator_spec(),
            final(self)@.bytes == old(self)@.bytes.subrange(0, offset as int) + data@
                + old(self)@.bytes.subrange(offset + data@.len(), old(self)@.bytes.len() as int),
    {
        crate::write_into(&mut self.buf, offset, data);
    }
}

impl<A: Allocator> Allocator for SlotMap<A> {
    open spec fn inv(&self) -> bool {
        self.wf()
    }

    /// Within machine limits, and the map's own allocator grants what the
    /// slot's buffer growth asks of it.
    open spec fn in_range(&self, layout: LayoutView) -> bool {
        &&& malloc_in_range(self@.used, self@.bytes.len(), layout)
        &&& malloc_granted(self.allocator_spec(), self@.used, self@.bytes.len(), layout)
    }

    open spec fn grants(&self, layout: LayoutView) -> bool {
        let index = next_slot_index(self@.used, layout.align);
        index < grown_len(self@.bytes.len(), self@.used, index + layout.size)
    }

    open spec fn unbounded(&self) -> bool {
        false
    }

    open spec fn after_grant(&self, before: Self, layout: LayoutView) -> bool {
        let end = next_slot_index(before@.used, layout.align) + layout.size;
        &&& self@.used == end
        &&& self@.bytes == malloc_bytes(before@.bytes, before@.used, end)
    }

    proof fn lemma_unbounded(&self, layout: LayoutView) {
    }

    /// Takes the next slot with [SlotMap::malloc_slot] and grants the request
    /// when the slot lies below the end of the grown buffer.
    fn allocate(&mut self, layout: Layout) -> (r: Result<Region, AllocError>)
        ensures
            final(self)@.used == next_slot_index(old(self)@.used, layout@.align) + layout@.size,
            final(self)@.bytes == malloc_bytes(
                old(self)@.bytes,
                old(self)@.used,
                next_slot_index(old(self)@.used, layout@.align) + layout@.size,
            ),
            r matches Ok(reg) ==> reg == (Region {
                offset: next_slot_index(old(self)@.used, layout@.align) as usize,
                len: layout@.size as usize,
            }),
    {
        proof {
            layout.lemma_wf();
        }
        let slot = self.malloc_slot(layout);
        proof {
            let end = slot@.index + layout@.size;
            lemma_grown_len(old(self)@.bytes.len(), old(self)@.used, end);
        }
        match self.lookup_slot(slot) {
            Some(p) => Ok(p),
            None => Err(AllocError),
        }
    }

    /// Does nothing: slots are not given back.
    fn deallocate(&mut self, region: Region, layout: Layout)
        ensures
            *final(self) == *old(self),
    {
    }
}

impl<A: Allocator> SlotLookup for SlotMap<A> {
    open spec fn lookup_slot_spec(&self, slot: AllocSlot) -> Option<Region> {
        self.lookup_region(slot)
    }

    fn lookup_slot(&self, slot: AllocSlot) -> (r: Option<Region>) {
        let i = slot.i as usize;
        if i < self.capacity() {
            Some(Region { offset: i, len: slot.layout().size() })
        } else {
            None
        }
    }
}

} // verus!
