use kos::basic::const_static::ArenaStatic;
use kos::basic::const_sync::ArenaStaticSync;
use kos::buf::fnv_hashmap::FnvHashMap;
use kos::buf::kstring::KString;
use kos::comp::arena::Arena;
use kos::region::{Allocator, Global, Layout, Region};

fn read_usize<A: Allocator>(arena: &Arena<A>, offset: usize) -> usize {
    let mut b = [0u8; 8];
    b.copy_from_slice(&arena.as_bytes()[offset..offset + 8]);
    usize::from_le_bytes(b)
}

#[test]
fn arena_works_as_global_allocator() {
    let mut g = ArenaStaticSync::<255>::new();
    let layout = Layout::new::<i32>();
    let slot: Region = g.allocate(layout).unwrap();
    g.write_bytes(slot.offset, &100i32.to_le_bytes());
    let mut b = [0u8; 4];
    b.copy_from_slice(&g.mem()[slot.offset..slot.offset + 4]);
    assert_eq!(i32::from_le_bytes(b), 100);
}

#[test]
fn can_insert() {
    let g = Global;
    let mut map = FnvHashMap::new_in(g);
    map.insert("asdf", 50);
    map.insert("1234", 500);

    let c = ArenaStatic::<4096>::new();
    let mut m2 = FnvHashMap::new_in(&c);
    m2.insert("asdf", "1234");
}

#[test]
fn can_allocate_static() {
    let parent = ArenaStatic::<255>::new();
    let mut child = Arena::try_from(parent).unwrap();

    let p = child.allocate(Layout::new::<i32>()).unwrap();
    child.write_bytes(p.offset, &50i32.to_le_bytes());
    let mut b = [0u8; 4];
    b.copy_from_slice(&child.as_bytes()[p.offset..p.offset + 4]);
    let x = i32::from_le_bytes(b);
    assert_eq!(x, 50);
    child.write_bytes(p.offset, &100i32.to_le_bytes());
    b.copy_from_slice(&child.as_bytes()[p.offset..p.offset + 4]);
    assert_eq!(i32::from_le_bytes(b), 100);

    let rc = child.allocate(Layout::new::<[u8; 100]>()).unwrap();
    let mut src = [0u8; 100];
    for (i, x) in src.iter_mut().enumerate() {
        *x = i as u8;
    }
    child.write_bytes(rc.offset, &src);

    for (i, x) in child.as_bytes()[rc.offset..rc.offset + 100].iter().enumerate() {
        assert_eq!(*x, i as u8);
    }
}

#[test]
fn can_allocate_global() {
    let mut arena = Arena::new(Global, 4096 * 8).unwrap();

    let mut buckets: Vec<Region> = Vec::with_capacity(8);
    let _bucket_list = arena.allocate(Layout::new::<[usize; 8]>()).unwrap();

    for _ in 0..8 {
        let buf = arena.allocate(Layout::new::<[usize; 255]>()).unwrap();
        for i in 0..255usize {
            arena.write_bytes(buf.offset + i * 8, &(i * i).to_le_bytes());
        }
        buckets.push(buf);
    }

    for buf in buckets.iter() {
        for i in 0..255usize {
            assert_eq!(read_usize(&arena, buf.offset + i * 8), i * i);
        }
    }
}

#[test]
fn can_reset() {
    let mut arena = Arena::new(Global, 4096 * 8).unwrap();
    {
        let mut buckets: Vec<Region> = Vec::with_capacity(8);
        let _bucket_list = arena.allocate(Layout::new::<[usize; 8]>()).unwrap();

        for _ in 0..8 {
            let buf = arena.allocate(Layout::new::<[usize; 255]>()).unwrap();
            for i in 0..255usize {
                arena.write_bytes(buf.offset + i * 8, &(i * i).to_le_bytes());
            }
            buckets.push(buf);
        }

        for buf in buckets.iter() {
            for i in 0..255usize {
                assert_eq!(read_usize(&arena, buf.offset + i * 8), i * i);
            }
        }

        arena.reset();
    }

    assert_eq!(arena.used(), 0);

    let mut s = KString::new_in(&arena);
    s.push("ayye lmao");
    assert_eq!(s.as_str(), "ayye lmao");
}

#[test]
fn scoped_arena() {
    let mut arena = Arena::new(Global, 4096).unwrap();

    {
        let scoped = arena.scoped();

        let mut s = KString::new_in(scoped.get());
        s.push("ayye lmao");
        assert_eq!(s.as_str(), "ayye lmao");
    }

    let mut s = KString::new_in(&arena);
    s.push("ayye lmao");
    assert_eq!(s.as_str(), "ayye lmao");
}
