use kos::hash::fnv::{hash_bytes, hash_bytes_const, hash_string, hash_string_const, hasher, FnvHash, OFFSET64, PRIME64};

#[test]
fn fnv_known_values() {
    assert_eq!(hash_bytes(b"a"), 0xaf63dc4c8601ec8c);
    assert_eq!(hash_bytes(b"foobar"), 0x85944171f73967e8);
    assert_eq!(hash_string("foobar"), 0x85944171f73967e8);
    assert_eq!(hash_string_const("a"), 0xaf63dc4c8601ec8c);
}

#[test]
fn fnv_empty_is_zero() {
    assert_eq!(hash_bytes(b""), 0);
    assert_eq!(hash_bytes_const(b""), 0);
    assert_eq!(hash_string(""), 0);
}

#[test]
fn fnv_versions_agree() {
    for s in ["", "x", "hello world", "ayye lmao", "0123456789abcdefghijklmnopqrstuvwxyz"] {
        assert_eq!(hash_bytes(s.as_bytes()), hash_bytes_const(s.as_bytes()));
        assert_eq!(hash_string(s), hash_string_const(s));
    }
}

#[test]
fn fnv_one_round() {
    assert_eq!(hasher(OFFSET64, &b'a'), (OFFSET64 ^ 0x61).wrapping_mul(PRIME64));
}

#[test]
fn fnv_streaming_matches_whole() {
    let mut h = FnvHash::new();
    h.hash_bytes(b"foo");
    h.hash_str("bar");
    assert_eq!(h.finish(), hash_bytes(b"foobar"));
    let mut g = FnvHash::new();
    g.write(b"foobar");
    assert_eq!(g.finish(), 0x85944171f73967e8);
    assert_eq!(FnvHash::new().finish(), OFFSET64);
}
