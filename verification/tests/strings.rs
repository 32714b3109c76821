use kos::buf::kstring::{KString, Utf8Error};
use kos::buf::ustring::{Inline, Inner, UString};
use kos::region::Global;
use std::cmp::Ordering;

#[test]
fn kstring_push_and_read_back() {
    let mut s = KString::new();
    assert!(s.is_empty());
    s.push("ayye");
    s.push_char(' ');
    s.push("lmao");
    assert_eq!(s.as_str(), "ayye lmao");
    assert_eq!(s.len(), 9);
    assert!(s.eq_str("ayye lmao"));
    assert!(!s.eq_str("ayye"));
    assert_eq!(s.to_string(), String::from("ayye lmao"));
}

#[test]
fn kstring_push_char_appends_utf8() {
    let mut s = KString::new();
    s.push_char('é');
    assert_eq!(s.as_bytes(), &[0xC3u8, 0xA9]);
    assert_eq!(s.as_str(), "é");
    s.push_char('\u{141}');
    assert_eq!(s.as_bytes(), &[0xC3u8, 0xA9, 0xC5, 0x81]);
    s.push_char('€');
    s.push_char('😀');
    assert_eq!(s.as_str(), "éŁ€😀");
    assert_eq!(s.len(), 2 + 2 + 3 + 4);
}

#[test]
fn kstring_push_delim_non_ascii() {
    let mut s = KString::from_str("a");
    s.push_delim("b", '→');
    assert_eq!(s.as_str(), "ab→");
    assert_eq!(s.as_bytes(), &[0x61u8, 0x62, 0xE2, 0x86, 0x92]);
}

#[test]
fn kstring_push_delim_and_append() {
    let mut s = KString::from_str("a");
    s.push_delim("b", ',');
    assert_eq!(s.as_str(), "ab,");
    s.append(KString::from_str("cd"));
    s.append_string(KString::from_str("e"));
    assert_eq!(s.as_str(), "ab,cde");
}

#[test]
fn kstring_concat() {
    let a = KString::from_str("left ");
    let b = KString::from_str("right");
    let c = KString::concat(a, b);
    assert_eq!(c.as_str(), "left right");
}

#[test]
fn kstring_utf8_checks() {
    let good = KString::from_bytes_in("héllo".as_bytes(), Global);
    assert_eq!(good.try_utf8(), Ok("héllo"));
    let bad = KString::from_vec(vec![0x66, 0xff, 0x6f]);
    assert_eq!(bad.try_utf8(), Err(Utf8Error));
    let mut bad2 = KString::from_vec(vec![0xc3]);
    assert!(bad2.try_utf8_mut().is_err());
    assert_eq!(bad2.as_bytes(), &[0xc3u8]);
}

#[test]
fn kstring_write_through_str_mut() {
    let mut s = KString::from_str("abc");
    s.as_str_mut().make_ascii_uppercase();
    assert_eq!(s.as_str(), "ABC");
    s.as_bytes_mut()[0] = b'x';
    assert_eq!(s.as_str(), "xBC");
    s.utf8_mut().make_ascii_lowercase();
    assert_eq!(s.utf8(), "xbc");
}

#[test]
fn kstring_order_against_str() {
    let s = KString::from_str("abc");
    assert_eq!(s.partial_cmp_str("abd"), Some(Ordering::Less));
    assert_eq!(s.partial_cmp_str("abc"), Some(Ordering::Equal));
    assert_eq!(s.partial_cmp_str("ab"), Some(Ordering::Greater));
    assert_eq!(s.partial_cmp_str("b"), Some(Ordering::Less));
}

#[test]
fn kstring_capacity_and_copies() {
    let mut s = KString::with_capacity(16);
    s.reserve(32);
    assert_eq!(s.len(), 0);
    s.push("x");
    let c = KString::from_string(s);
    assert_eq!(c.as_str(), "x");
    let d = KString::with_capacity_in(4, 7u8);
    assert_eq!(*d.allocator(), 7u8);
    let e: KString = Default::default();
    assert!(e.is_empty());
}

#[test]
fn ustring_short_is_inline() {
    let u = UString::new("short");
    assert_eq!(u.as_str(), "short");
    assert_eq!(u.len(), 5);
    assert_eq!(u.to_string(), String::from("short"));
    let inline = Inline::try_new("short").unwrap();
    assert_eq!(inline.as_str(), "short");
    assert_eq!(inline.len(), 5);
    assert_eq!(inline.as_bytes(), b"short");
}

#[test]
fn ustring_long_goes_to_heap() {
    let long = "this string is longer than twenty-three bytes";
    let u = UString::new_in(long, Global);
    assert_eq!(u.as_str(), long);
    assert_eq!(u.as_bytes(), long.as_bytes());
    assert!(Inline::try_new(long).is_none());
    match Inner::new(long) {
        Inner::Heap(k) => assert_eq!(k.as_str(), long),
        Inner::Inline(_) => panic!("a long string is not kept inline"),
    }
}

#[test]
fn ustring_boundary_lengths() {
    let s22 = "abcdefghijklmnopqrstuv";
    let s23 = "abcdefghijklmnopqrstuvw";
    let s24 = "abcdefghijklmnopqrstuvwx";
    assert!(matches!(Inner::new(s22), Inner::Inline(_)));
    assert!(matches!(Inner::new(s23), Inner::Inline(_)));
    assert!(matches!(Inner::new(s24), Inner::Heap(_)));
    assert_eq!(Inline::try_new(s23).unwrap().as_str(), s23);
    assert!(Inline::try_new(s24).is_none());
    assert!(Inner::<Global>::new_in(s24, Global).allocator().is_some());
    assert!(Inner::<Global>::new_in(s23, Global).allocator().is_none());
    assert_eq!(UString::new(s23).as_str(), s23);
    assert_eq!(UString::new(s24).as_str(), s24);
}

#[test]
fn inline_new_clamps() {
    let long = "abcdefghijklmnopqrstuvwxyz";
    let i = Inline::new(long);
    assert_eq!(i.as_str(), "abcdefghijklmnopqrstuvw");
    assert_eq!(Inline::empty().len(), 0);
    assert_eq!(UString::<Global>::empty().as_str(), "");
}

#[test]
fn deref_reads_the_string() {
    let u = UString::new("deref me");
    let s: &str = &u;
    assert_eq!(s, "deref me");
    assert_eq!(u.len(), 8);
    let i = Inline::new("abc");
    assert!(i.starts_with("ab"));
    let k = kos::buf::fnv_hashmap::InlineKey::from_str("key").unwrap();
    assert_eq!(&*k, "key");
}

#[test]
fn inline_and_ustring_write_through() {
    let mut i = Inline::new("abc");
    i.as_str_mut().make_ascii_uppercase();
    assert_eq!(i.as_str(), "ABC");
    i.as_bytes_mut()[0] = b'x';
    assert_eq!(i.as_str(), "xBC");
    assert_eq!(i.len(), 3);

    let mut inner = Inner::new("short");
    inner.as_str_mut().make_ascii_uppercase();
    assert_eq!(inner.as_str(), "SHORT");
    inner.as_bytes_mut()[4] = b'!';
    assert_eq!(inner.as_str(), "SHOR!");

    let long = "a string that is well over twenty-three bytes";
    let mut u = UString::new(long);
    u.as_str_mut().make_ascii_uppercase();
    assert_eq!(u.as_str(), "A STRING THAT IS WELL OVER TWENTY-THREE BYTES");
    u.as_bytes_mut()[0] = b'a';
    assert_eq!(&u.as_str()[..8], "a STRING");
    let mut s = UString::new("hi");
    s.as_str_mut().make_ascii_uppercase();
    assert_eq!(s.as_str(), "HI");
    assert_eq!(s.len(), 2);
}
