use kos::buf::fnv_hashmap::{FnvHashMap, InlineKey, Key, KeyValue};
use kos::hash::fnv::hash_string;
use kos::region::Global;

fn slot_of(key: &str, cap: usize) -> usize {
    (hash_string(key) as usize) % cap
}

#[test]
fn get_after_insert() {
    let mut map = FnvHashMap::new_in(Global);
    assert_eq!(map.try_get("asdf"), None);
    map.insert("asdf", 50);
    map.insert("1234", 500);
    assert_eq!(map.try_get("asdf"), Some(&50));
    assert_eq!(*map.get("1234"), 500);
    assert!(map.has("asdf"));
    assert_eq!(map.capacity(), 24);
    assert_eq!(map.len(), 2);
}

#[test]
fn insert_same_key_counts_twice() {
    let mut map = FnvHashMap::new();
    map.insert("k", 1);
    map.insert("k", 2);
    assert_eq!(map.try_get("k"), Some(&2));
    assert_eq!(map.len(), 2);
}

#[test]
fn colliding_keys_share_a_slot() {
    let mut map = FnvHashMap::with_size_in(1, Global);
    assert_eq!(map.capacity(), 1);
    map.insert("first", 1);
    assert_eq!(map.capacity(), 1);
    assert_eq!(map.try_get("anything"), Some(&1));
}

#[test]
fn grows_at_three_quarters() {
    let mut map: FnvHashMap<usize, Global> = FnvHashMap::new();
    for i in 0..18 {
        map.insert(&format!("key{}", i), i);
    }
    assert_eq!(map.capacity(), 24);
    map.insert("key18", 18);
    assert_eq!(map.capacity(), 48);
    assert_eq!(map.try_get("key18"), Some(&18));
    assert_eq!(map.len(), 19);
}

#[test]
fn iterates_in_slot_order() {
    let mut map = FnvHashMap::new();
    map.insert("alpha", 1);
    map.insert("beta", 2);
    let mut expected: Vec<(usize, &str, i32)> =
        vec![(slot_of("alpha", 24), "alpha", 1), (slot_of("beta", 24), "beta", 2)];
    expected.sort();
    let mut keys = map.key_iter();
    let mut vals = map.value_iter();
    for (_, k, v) in expected.iter() {
        assert_eq!(keys.next(), Some(*k));
        assert_eq!(vals.next(), Some(v));
    }
    assert_eq!(keys.next(), None);
    assert_eq!(vals.next(), None);
}

#[test]
fn keys_inline_or_heap() {
    assert!(InlineKey::from_str("abcdefghijklmnopqrstuvw").is_some());
    assert!(InlineKey::from_str("abcdefghijklmnopqrstuvwx").is_none());
    assert_eq!(InlineKey::from_str("abc").unwrap().as_str(), "abc");
    assert_eq!(InlineKey::new().len(), 0);
    let short = Key::from_str("abc");
    assert!(matches!(short, Key::Inline(_)));
    let long = Key::from_str("abcdefghijklmnopqrstuvwx");
    assert!(matches!(long, Key::Heap(_)));
    assert_eq!(long.as_str(), "abcdefghijklmnopqrstuvwx");
    assert!(Key::<Global>::new().is_empty());
    assert!(Key::new_in(Global).is_empty());
    assert_eq!(Key::<Global>::new().as_str(), "");
    assert_eq!(short.hash64(), hash_string("abc"));
    assert_eq!(short.hash_index(24), slot_of("abc", 24));
}

#[test]
fn key_value_parts() {
    let kv = KeyValue::new(Key::from_str("name"), 9);
    assert_eq!(kv.key_str(), "name");
    assert_eq!(*kv.value(), 9);
    assert_eq!(kv.key_hash(), hash_string("name"));
    assert!(!kv.is_empty());
    assert!(KeyValue::new(Key::<Global>::new(), 0).is_empty());
}

#[test]
fn len_counts_values_for_keys_in_distinct_slots() {
    let mut map = FnvHashMap::new();
    let mut used: Vec<usize> = Vec::new();
    let mut i = 0usize;
    while used.len() < 6 {
        let key = format!("k{}", i);
        let slot = slot_of(&key, 24);
        if !used.contains(&slot) {
            used.push(slot);
            map.insert(&key, i);
        }
        i += 1;
    }
    let mut vals = map.value_iter();
    let mut count = 0usize;
    while vals.next().is_some() {
        count += 1;
    }
    assert_eq!(count, map.len());
    assert_eq!(count, 6);
}
