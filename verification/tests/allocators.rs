use kos::basic::const_static::ArenaStatic;
use kos::basic::const_sync::ArenaStaticSync;
use kos::basic::slot::{AllocSlot, SlotLookup, SlotMap, SlotPtr, SlottedAllocator};
use kos::basic::slot_ptr::{SlotCell, SlotMapAnyPtr, SlotMapMut, SlotMapPtr, SlotMapRef};
use kos::comp::arena::{Arena, ConversionError};
use kos::region::{pad_to_align, is_power_of_two, AllocError, Allocator, Global, Layout, Region};

fn layout(size: usize, align: usize) -> Layout {
    Layout::from_size_align(size, align).unwrap()
}

#[test]
fn layout_validity() {
    assert!(Layout::from_size_align(8, 3).is_none());
    assert!(Layout::from_size_align(8, 0).is_none());
    assert!(Layout::from_size_align(isize::MAX as usize, 1).is_some());
    assert!(Layout::from_size_align(isize::MAX as usize, 2).is_none());
    let l = layout(24, 8);
    assert_eq!((l.size(), l.align()), (24, 8));
    assert_eq!(Layout::new::<u64>().size(), 8);
    assert!(Layout::array_bytes(usize::MAX).is_none());
    assert_eq!(Layout::array_bytes(10).unwrap().align(), 1);
    assert!(is_power_of_two(64));
    assert!(!is_power_of_two(96));
    assert_eq!(pad_to_align(13, 8), 3);
    assert_eq!(pad_to_align(16, 8), 0);
}

#[test]
fn static_arena_bumps_with_alignment() {
    let mut a = ArenaStatic::<64>::new();
    assert!(a.has_space());
    let r1 = a.allocate(layout(3, 1)).unwrap();
    assert_eq!(r1, Region { offset: 0, len: 3 });
    let r2 = a.allocate(layout(8, 8)).unwrap();
    assert_eq!(r2, Region { offset: 8, len: 8 });
    let r3 = a.allocate_raw(layout(1, 4));
    assert_eq!(r3, Some(16));
    assert!(!a.is_full());
}

#[test]
fn static_arena_refuses_when_out_of_room() {
    let mut a = ArenaStatic::<16>::new();
    assert!(a.allocate(layout(15, 1)).is_ok());
    assert_eq!(a.allocate(layout(1, 1)), Err(AllocError));
    assert_eq!(a.allocate_raw(layout(1, 1)), None);
    a.reset();
    assert!(a.has_space_for(layout(15, 1)));
    assert!(!a.has_space_for(layout(16, 1)));
}

#[test]
fn static_arena_refuses_when_padding_passes_the_end() {
    let mut a = ArenaStatic::<12>::new();
    assert!(a.allocate(layout(10, 1)).is_ok());
    assert_eq!(a.allocate(layout(1, 8)), Err(AllocError));
    assert!(!a.is_full());
    assert!(a.has_space());
    assert_eq!(a.allocate(layout(1, 1)).unwrap(), Region { offset: 10, len: 1 });
    assert_eq!(a.allocate(layout(1, 1)), Err(AllocError));
    assert!(!a.is_full());

    let mut b = ArenaStatic::<8>::new();
    assert_eq!(b.allocate_raw(layout(1, 1)), Some(0));
    assert_eq!(b.allocate_raw(layout(6, 4)), None);
    assert!(!b.is_full());
    assert_eq!(b.allocate_raw(layout(4, 4)), Some(4));
}

#[test]
fn static_arena_bytes_and_clear() {
    let mut a = ArenaStatic::<8>::default();
    a.write_bytes(2, &[7, 8, 9]);
    assert_eq!(a.as_bytes(), &[0, 0, 7, 8, 9, 0, 0, 0]);
    let _ = a.allocate(layout(4, 1));
    a.deallocate(Region { offset: 0, len: 4 }, layout(4, 1));
    let b = a.clear();
    assert_eq!(b.as_bytes(), &[0u8; 8]);
    assert!(b.has_space_for(layout(7, 1)));
}

#[test]
fn sync_arena_never_refuses() {
    let mut a = ArenaStaticSync::<16>::new();
    assert_eq!(a.allocate(layout(10, 8)).unwrap(), Region { offset: 0, len: 10 });
    assert_eq!(a.allocate(layout(10, 8)).unwrap(), Region { offset: 10, len: 10 });
    assert_eq!(a.used(), 20);
    assert_eq!(a.allocate_raw(layout(1, 1)), 20);
    assert_eq!(a.ptr_slice(), Region { offset: 0, len: 16 });
    assert_eq!(a.as_ptr(), 0);
    a.clear();
    assert_eq!(a.used(), 0);
}

#[test]
fn sync_arena_counter_wraps() {
    let mut a = ArenaStaticSync::<4>::new();
    a.set_used(usize::MAX);
    assert_eq!(a.used_fetch_add(2), usize::MAX);
    assert_eq!(a.used(), 1);
    a.used_inc(3);
    assert_eq!(a.used(), 4);
}

#[test]
fn sync_arena_clear_zeroed() {
    let mut a = ArenaStaticSync::<4>::default();
    a.write_bytes(0, &[1, 2, 3, 4]);
    a.used_inc(3);
    a.clear_zeroed();
    assert_eq!(a.mem(), &[0u8; 4]);
    assert_eq!(a.used(), 0);
}

#[test]
fn alloc_slot_parts() {
    let s = AllocSlot::new(5, layout(4, 4));
    assert_eq!(s.slot(), 5);
    assert_eq!(s.layout(), layout(4, 4));
    let n = AllocSlot::no_size((1usize << 32) + 3);
    assert_eq!(n.slot(), 3);
    assert_eq!(n.layout().size(), 0);
    assert_eq!(AllocSlot::from_type::<u16>(2).layout(), Layout::new::<u16>());
}

#[test]
fn slotted_arena_finds_slots() {
    let mut a = ArenaStaticSync::<32>::new();
    a.used_inc(4);
    let p = a.allocate_slotted(layout(8, 8));
    assert_eq!(p.slot().slot(), 4);
    assert_eq!(p.try_get(), Some(4));
    assert_eq!(p.get(), 4);
    assert_eq!(p.get_cast::<u64>(), 4);
    assert_eq!(p.try_get_cast::<u8>(), Some(4));
    assert_eq!(a.used(), 12);
    assert_eq!(a.lookup_ptr(AllocSlot::no_size(40)), None);
    assert_eq!(a.lookup(AllocSlot::no_size(31)), None);
    assert_eq!(a.lookup(AllocSlot::no_size(12)), Some(12));
    assert_eq!(a.lookup(AllocSlot::new(4, layout(8, 8))), Some(4));
    assert_eq!(a.lookup(AllocSlot::new(5, layout(8, 8))), None);
    let q = SlotPtr::new(33, layout(1, 1), &a);
    assert_eq!(q.try_get(), None);
    assert_eq!(q.allocator().used(), 12);
    let fresh = SlotPtr::new(4, layout(8, 8), &a);
    assert_eq!(fresh.try_get(), a.lookup(AllocSlot::new(4, layout(8, 8))));
}

#[test]
fn slotted_arena_reports_dangling_after_clear() {
    let mut a = ArenaStaticSync::<64>::new();
    let slot = a.allocate_slotted(Layout::new::<u32>()).slot();
    assert_eq!(a.lookup_ptr(slot), Some(0));
    a.clear();
    assert_eq!(a.lookup_ptr(slot), None);
    let again = a.allocate_slotted(Layout::new::<u32>()).slot();
    assert_eq!(again, slot);
    assert_eq!(a.lookup_ptr(slot), Some(0));
}

#[test]
fn slot_map_capacity_is_its_buffer() {
    let mut sm = SlotMap::with_capacity(64);
    assert_eq!(sm.capacity(), 64);
    assert!(sm.is_empty());
    assert!(sm.is_dangling());
    assert_eq!(sm.buf().len(), 64);
    assert_eq!(sm.as_bytes(), &[] as &[u8]);
    assert_eq!(sm.lookup_slot(AllocSlot::no_size(0)), Some(Region { offset: 0, len: 0 }));
    assert!(sm.lookup_any_ptr(AllocSlot::no_size(64)).is_none());
    assert!(sm.find_index_from_ptr(3).is_none());
    assert_eq!(sm.as_bytes_mut().len(), 0);
    assert_eq!(SlotMap::with_capacity(16).capacity(), 16);
    assert_eq!(SlotMap::new().capacity(), 0);
}

#[test]
fn slot_map_malloc_hands_out_disjoint_slots() {
    let mut sm = SlotMap::with_capacity(16);
    let s1 = sm.malloc_slot(layout(4, 4));
    assert_eq!(s1.slot(), 0);
    assert_eq!(sm.used(), 4);
    let s2 = sm.malloc_slot(layout(4, 4));
    assert_eq!(s2.slot(), 4);
    assert!(s1.slot() + 4 <= s2.slot());
    assert_eq!(sm.used(), 8);
    assert!(sm.lookup_slot(s2).is_some());
    let s3 = sm.malloc_slot(layout(8, 8));
    assert_eq!(s3.slot(), 8);
    assert_eq!(sm.used(), 16);
    assert_eq!(sm.capacity(), 16);
    let s4 = sm.malloc_slot(layout(1, 1));
    assert_eq!(s4.slot(), 16);
    assert_eq!(sm.capacity(), 32);
    assert_eq!(sm.allocate(layout(4, 4)), Ok(Region { offset: 20, len: 4 }));
    assert_eq!(sm.used(), 24);
    assert_eq!(sm.find_index_from_ptr(3).map(|s| s.slot()), Some(3));
}

#[test]
fn slot_map_slots_follow_alignment() {
    let mut sm = SlotMap::new();
    assert_eq!(sm.used(), 0);
    assert_eq!(sm.used_ptr(), 0);
    assert_eq!(sm.prealloc_align_offset(layout(8, 8)), 0);
    let s = sm.prealloc_slot(layout(2, 2));
    assert_eq!(s.slot(), 0);
    assert_eq!(sm.malloc_slot(layout(1, 1)).slot(), 0);
    assert_eq!(sm.capacity(), 1);
    assert_eq!(sm.prealloc_align_offset(layout(4, 4)), 3);
    let p = sm.push_value(7u32);
    assert_eq!(p.try_as_ptr(&sm), Some(Region { offset: 4, len: 4 }));
    assert_eq!(sm.used(), 8);
    let q = sm.ptr_from_type::<u64>(30);
    assert_eq!(q.try_as_ptr(&sm), None);
    assert_eq!(*SlotMap::new_in(Global).allocator(), Global);
}

#[test]
fn slot_handles_keep_their_slot() {
    let sm = SlotMap::new();
    let slot = AllocSlot::new(2, layout(4, 4));
    let r: SlotMapRef<u32, Global> = SlotMapRef::with_slot(slot, &sm);
    let p = r.to_map_ptr();
    let a: SlotMapAnyPtr<Global> = p.erase_type();
    let back: SlotMapPtr<u16, Global> = a.cast();
    assert_eq!(back.slot_cell(&sm), None);
    let m: SlotMapMut<u32, Global> = SlotMapMut::from_parts(2, layout(4, 4), &sm);
    assert_eq!(m.slot_cell(&sm), None);
    let r2: SlotMapRef<u8, Global> = SlotMapRef::from_parts(1, layout(1, 1), &sm);
    assert_eq!(r2.to_map_any().slot_cell(&sm), None);
    let any = SlotMapAnyPtr::from_parts(0, layout(1, 1), &sm);
    assert_eq!(any.slot_cell(&sm), None);
    let t: SlotMapPtr<u8, Global> = SlotMapPtr::from_parts(0, layout(1, 1), &sm);
    assert_eq!(t.as_ref().slot_cell(&sm), None);
    assert_eq!(t.as_mut().slot_cell(&sm), None);
}

#[test]
fn arena_over_global() {
    let mut a = Arena::new(Global, 64).unwrap();
    assert_eq!(a.size(), 64);
    assert_eq!(a.layout(), layout(64, 1));
    assert_eq!(a.allocate(layout(5, 1)).unwrap(), Region { offset: 0, len: 5 });
    assert_eq!(a.allocate(layout(8, 8)).unwrap(), Region { offset: 8, len: 8 });
    assert_eq!(a.used(), 16);
    assert_eq!(a.allocate(layout(49, 1)), Err(AllocError));
    assert_eq!(a.used(), 16);
    a.reset();
    assert_eq!(a.used(), 0);
    let parent = a.release();
    assert_eq!(parent, Global);
}

#[test]
fn arena_padding_can_pass_the_end() {
    let mut a = Arena::new(Global, 10).unwrap();
    let _ = a.allocate(layout(3, 1)).unwrap();
    let r = a.allocate(layout(7, 8)).unwrap();
    assert_eq!(r, Region { offset: 8, len: 7 });
    assert_eq!(a.used(), 15);
}

#[test]
fn arena_over_static_arena() {
    let parent = ArenaStatic::<32>::new();
    let mut a = Arena::try_from(parent).unwrap();
    assert_eq!(a.size(), 31);
    a.write_bytes(0, &[1, 2, 3]);
    assert_eq!(&a.as_bytes()[..3], &[1, 2, 3]);
    let mut full = ArenaStatic::<32>::new();
    full.allocate(layout(20, 1)).unwrap();
    assert_eq!(Arena::try_from(full).err(), Some(ConversionError));
}

#[test]
fn scoped_arena_resets_when_dropped() {
    let mut a = Arena::new(Global, 128).unwrap();
    let _ = a.allocate(layout(3, 1)).unwrap();
    let mut scoped = a.scoped();
    let r = scoped.allocate(layout(100, 4)).unwrap();
    assert_eq!(r.offset, 4);
    assert_eq!(scoped.get().used(), 104);
    assert_eq!(scoped.allocate(layout(100, 4)), Err(AllocError));
    drop(scoped);
    assert_eq!(a.used(), 0);
}

#[test]
fn slot_map_over_a_static_arena() {
    let mut sm = SlotMap::new_in(ArenaStatic::<64>::new());
    let s1 = sm.malloc_slot(layout(8, 8));
    assert_eq!(s1.slot(), 0);
    assert_eq!(sm.capacity(), 8);
    assert!(sm.allocator().has_space_for(layout(55, 1)));
    assert!(!sm.allocator().has_space_for(layout(56, 1)));
    let s2 = sm.malloc_slot(layout(4, 4));
    assert_eq!(s2.slot(), 8);
    assert!(s1.slot() + 8 <= s2.slot());
    assert_eq!(sm.used(), 12);
    assert_eq!(sm.capacity(), 16);
    assert!(sm.lookup_slot(s2).is_some());
    assert!(sm.allocator().has_space_for(layout(39, 1)));
    assert!(!sm.allocator().has_space_for(layout(40, 1)));
    let p = sm.push_value(5u32);
    assert_eq!(p.try_as_ptr(&sm), Some(Region { offset: 12, len: 4 }));
    assert_eq!(sm.capacity(), 16);
}
