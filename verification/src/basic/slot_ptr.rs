//! Typed and untyped handles to allocations in a [SlotMap], looked up by
//! slot on every access, so the map's buffer may move between accesses.
use vstd::prelude::*;
use core::marker::PhantomData;
use crate::basic::slot::{AllocSlot, SlotLookup, SlotMap, slot_index};
use crate::region::{Allocator, Layout, Region};

verus! {

/// A handle to a value of type `Val` held in a [SlotMap].
#[derive(Debug)]
pub struct SlotMapPtr<Val, A> {
    slot: AllocSlot,
    _val: PhantomData<Val>,
    _alloc: PhantomData<A>,
}

/// A shared handle to a value of type `Val` held in a [SlotMap].
#[derive(Debug)]
pub struct SlotMapRef<'val, Val, A> {
    slot: AllocSlot,
    _val: PhantomData<&'val Val>,
    _alloc: PhantomData<A>,
}

/// A unique handle to a value of type `Val` held in a [SlotMap].
#[derive(Debug)]
pub struct SlotMapMut<'val, Val, A> {
    slot: AllocSlot,
    _val: PhantomData<&'val mut Val>,
    _alloc: PhantomData<A>,
}

/// A handle to untyped bytes held in a [SlotMap].
#[derive(Debug)]
pub struct SlotMapAnyPtr<A> {
    slot: AllocSlot,
    _alloc: PhantomData<A>,
}

/// Finding the memory a handle stands for, by its slot.
pub trait SlotCell<A: Allocator> {
    /// The slot the handle holds.
    spec fn cell_slot(&self) -> AllocSlot;

    /// Looks the handle's slot up in `sm`.
    fn slot_cell(&self, sm: &SlotMap<A>) -> (r: Option<Region>)
        ensures
            r == sm.lookup_region(self.cell_slot()),
    ;
}

impl<'val, V, A: Allocator> SlotMapRef<'val, V, A> {
    pub closed spec fn slot_spec(&self) -> AllocSlot {
        self.slot
    }

    /// A handle at offset `index` for `layout`.
    pub fn from_parts(index: usize, layout: Layout, sm: &SlotMap<A>) -> (r: Self)
        ensures
            r.slot_spec()@.index == slot_index(index),
            r.slot_spec()@.layout == layout,
    {
        Self::with_slot(AllocSlot::new(index, layout), sm)
    }

    /// A handle for `slot` of `sm`.
    pub fn with_slot(slot: AllocSlot, sm: &SlotMap<A>) -> (r: Self)
        ensures
            r.slot_spec() == slot,
    {
        SlotMapRef { slot, _val: PhantomData, _alloc: PhantomData }
    }

    /// The region of the value in `sm`, which must hold it.
    pub fn as_ptr(&self, sm: &SlotMap<A>) -> (r: Region)
        requires
            sm.lookup_region(self.slot_spec()) is Some,
        ensures
            Some(r) == sm.lookup_region(self.slot_spec()),
    {
        match self.slot_cell(sm) {
            Some(p) => p,
            None => {
                assert(false);
                Region { offset: 0, len: 0 }
            },
        }
    }

    /// The same slot as a [SlotMapPtr].
    pub fn to_map_ptr(self) -> (r: SlotMapPtr<V, A>)
        ensures
            r.slot_spec() == self.slot_spec(),
    {
        SlotMapPtr { slot: self.slot, _val: PhantomData, _alloc: PhantomData }
    }

    /// The same slot as a [SlotMapAnyPtr].
    pub fn to_map_any(self) -> (r: SlotMapAnyPtr<A>)
        ensures
            r.slot_spec() == self.slot_spec(),
    {
        SlotMapAnyPtr { slot: self.slot, _alloc: PhantomData }
    }
}

impl<'val, V, A: Allocator> SlotMapMut<'val, V, A> {
    pub closed spec fn slot_spec(&self) -> AllocSlot {
        self.slot
    }

    /// A handle at offset `index` for `layout`.
    pub fn from_parts(index: usize, layout: Layout, sm: &SlotMap<A>) -> (r: Self)
        ensures
            r.slot_spec()@.index == slot_index(index),
            r.slot_spec()@.layout == layout,
    {
        Self::with_slot(AllocSlot::new(index, layout), sm)
    }

    /// A handle for `slot` of `sm`.
    pub fn with_slot(slot: AllocSlot, sm: &SlotMap<A>) -> (r: Self)
        ensures
            r.slot_spec() == slot,
    {
        SlotMapMut { slot, _val: PhantomData, _alloc: PhantomData }
    }

    /// The region of the value in `sm`, which must hold it.
    pub fn as_ptr(&self, sm: &SlotMap<A>) -> (r: Region)
        requires
            sm.lookup_region(self.slot_spec()) is Some,
        ensures
            Some(r) == sm.lookup_region(self.slot_spec()),
    {
        match self.slot_cell(sm) {
            Some(p) => p,
            None => {
                assert(false);
                Region { offset: 0, len: 0 }
            },
        }
    }
}

impl<A: Allocator> SlotMapAnyPtr<A> {
    pub closed spec fn slot_spec(&self) -> AllocSlot {
        self.slot
    }

    /// A handle at offset `index` for `layout`.
    pub fn from_parts(index: usize, layout: Layout, sm: &SlotMap<A>) -> (r: Self)
        ensures
            r.slot_spec()@.index == slot_index(index),
            r.slot_spec()@.layout == layout,
    {
        Self::with_slot(AllocSlot::new(index, layout), sm)
    }

    /// A handle for `slot` of `sm`.
    pub fn with_slot(slot: AllocSlot, sm: &SlotMap<A>) -> (r: Self)
        ensures
            r.slot_spec() == slot,
    {
        SlotMapAnyPtr { slot, _alloc: PhantomData }
    }

    /// The same slot as a handle to a value of type `V`.
    pub fn cast<V>(self) -> (r: SlotMapPtr<V, A>)
        ensures
            r.slot_spec() == self.slot_spec(),
    {
        SlotMapPtr { slot: self.slot, _val: PhantomData, _alloc: PhantomData }
    }

    /// The region of the bytes in `sm`, which must hold them.
    pub fn as_ptr(&self, sm: &SlotMap<A>) -> (r: Region)
        requires
            sm.lookup_region(self.slot_spec()) is Some,
        ensures
            Some(r) == sm.lookup_region(self.slot_spec()),
    {
        match self.slot_cell(sm) {
            Some(p) => p,
            None => {
                assert(false);
                Region { offset: 0, len: 0 }
            },
        }
    }

    /// The bytes of the handle's region in `sm`, which must lie inside the
    /// buffer.
    pub fn as_bytes<'a>(&self, sm: &'a SlotMap<A>) -> (r: &'a [u8])
        requires
            sm.lookup_region(self.slot_spec()) matches Some(reg) && reg.end() <= sm@.bytes.len(),
        ensures
            sm.lookup_region(self.slot_spec()) matches Some(reg) && r@ == sm@.bytes.subrange(
                reg.offset as int,
                reg.end(),
            ),
    {
        let reg = self.as_ptr(sm);
        let b = sm.buf();
        let _n = b.len();
        vstd::slice::slice_subrange(b, reg.offset, reg.offset + reg.len)
    }
}

impl<V, A: Allocator> SlotMapPtr<V, A> {
    pub closed spec fn slot_spec(&self) -> AllocSlot {
        self.slot
    }

    /// A handle at offset `index` for `layout`.
    pub fn from_parts(index: usize, layout: Layout, sm: &SlotMap<A>) -> (r: Self)
        ensures
            r.slot_spec()@.index == slot_index(index),
            r.slot_spec()@.layout == layout,
    {
        Self::with_slot(AllocSlot::new(index, layout), sm)
    }

    /// A handle for `slot` of `sm`.
    pub fn with_slot(slot: AllocSlot, sm: &SlotMap<A>) -> (r: Self)
        ensures
            r.slot_spec() == slot,
    {
        SlotMapPtr { slot, _val: PhantomData, _alloc: PhantomData }
    }

    /// The region of the value in `sm`, if `sm` holds it.
    pub fn try_as_ptr(&self, sm: &SlotMap<A>) -> (r: Option<Region>)
        ensures
            r == sm.lookup_region(self.slot_spec()),
    {
        self.slot_cell(sm)
    }

    /// The region of the value in `sm`, which must hold it.
    pub fn as_ptr(&self, sm: &SlotMap<A>) -> (r: Region)
        requires
            sm.lookup_region(self.slot_spec()) is Some,
        ensures
            Some(r) == sm.lookup_region(self.slot_spec()),
    {
        match self.slot_cell(sm) {
            Some(p) => p,
            None => {
                assert(false);
                Region { offset: 0, len: 0 }
            },
        }
    }

    /// The bytes of a `V` at the handle's region in `sm`, which must lie
    /// inside the buffer.
    pub fn as_bytes<'a>(&self, sm: &'a SlotMap<A>) -> (r: &'a [u8])
        requires
            sm.lookup_region(self.slot_spec()) matches Some(reg) && reg.offset
                + vstd::layout::size_of::<V>() <= sm@.bytes.len(),
        ensures
            sm.lookup_region(self.slot_spec()) matches Some(reg) && r@ == sm@.bytes.subrange(
                reg.offset as int,
                reg.offset + vstd::layout::size_of::<V>(),
            ),
    {
        let reg = self.as_ptr(sm);
        let b = sm.buf();
        let _n = b.len();
        vstd::slice::slice_subrange(b, reg.offset, reg.offset + core::mem::size_of::<V>())
    }

    /// The same slot as a shared handle.
    pub fn as_ref<'a>(&'a self) -> (r: SlotMapRef<'a, V, A>)
        ensures
            r.slot_spec() == self.slot_spec(),
    {
        SlotMapRef { slot: self.slot, _val: PhantomData, _alloc: PhantomData }
    }

    /// The same slot as a unique handle.
    pub fn as_mut<'a>(self) -> (r: SlotMapMut<'a, V, A>)
        ensures
            r.slot_spec() == self.slot_spec(),
    {
        SlotMapMut { slot: self.slot, _val: PhantomData, _alloc: PhantomData }
    }

    /// The same slot as a handle to a value of type `To`.
    pub fn cast<To>(self) -> (r: SlotMapPtr<To, A>)
        ensures
            r.slot_spec() == self.slot_spec(),
    {
        SlotMapPtr { slot: self.slot, _val: PhantomData, _alloc: PhantomData }
    }

    /// The same slot with its type forgotten.
    pub fn erase_type(self) -> (r: SlotMapAnyPtr<A>)
        ensures
            r.slot_spec() == self.slot_spec(),
    {
        SlotMapAnyPtr { slot: self.slot, _alloc: PhantomData }
    }
}

impl<V, A: Allocator> SlotCell<A> for SlotMapPtr<V, A> {
    open spec fn cell_slot(&self) -> AllocSlot {
        self.slot_spec()
    }

    fn slot_cell(&self, sm: &SlotMap<A>) -> (r: Option<Region>) {
        sm.lookup_slot(self.slot)
    }
}

impl<'val, V, A: Allocator> SlotCell<A> for SlotMapRef<'val, V, A> {
    open spec fn cell_slot(&self) -> AllocSlot {
        self.slot_spec()
    }

    fn slot_cell(&self, sm: &SlotMap<A>) -> (r: Option<Region>) {
        sm.lookup_slot(self.slot)
    }
}

impl<'val, V, A: Allocator> SlotCell<A> for SlotMapMut<'val, V, A> {
    open spec fn cell_slot(&self) -> AllocSlot {
        self.slot_spec()
    }

    fn slot_cell(&self, sm: &SlotMap<A>) -> (r: Option<Region>) {
        sm.lookup_slot(self.slot)
    }
}

impl<A: Allocator> SlotCell<A> for SlotMapAnyPtr<A> {
    open spec fn cell_slot(&self) -> AllocSlot {
        self.slot_spec()
    }

    fn slot_cell(&self, sm: &SlotMap<A>) -> (r: Option<Region>) {
        sm.lookup_slot(self.slot)
    }
}

} // verus!
