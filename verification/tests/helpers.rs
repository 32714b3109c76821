use kos::{append_byte_slice, array_from_slice, array_from_slice_with, clamp, clone_slice_into, copy_slice_into};

#[test]
fn clamp_holds_between_bounds() {
    assert_eq!(clamp(1, 5, 3), 3);
    assert_eq!(clamp(1, -2, 3), 1);
    assert_eq!(clamp(1, 2, 3), 2);
}

#[test]
fn append_keeps_a_terminating_byte() {
    let mut v = vec![b'a', b'b', 0];
    append_byte_slice(&mut v, b"cd");
    assert_eq!(v, vec![b'a', b'b', b'c', b'd', 0]);
    let mut w = vec![b'x'];
    append_byte_slice(&mut w, b"");
    assert_eq!(w, vec![b'x']);
}

#[test]
fn copy_and_clone_prefix() {
    let mut dst = [0u8; 4];
    copy_slice_into(&[1, 2], &mut dst);
    assert_eq!(dst, [1, 2, 0, 0]);
    let mut short = [9u8; 2];
    copy_slice_into(&[1, 2, 3], &mut short);
    assert_eq!(short, [1, 2]);
    let mut names = vec![String::new(); 3];
    clone_slice_into(&[String::from("a"), String::from("b")], &mut names);
    assert_eq!(names, vec![String::from("a"), String::from("b"), String::new()]);
}

#[test]
fn arrays_from_slices() {
    let a: [u8; 4] = array_from_slice_with(&[1, 2], 7);
    assert_eq!(a, [1, 2, 7, 7]);
    let b: [u16; 2] = array_from_slice(&[5, 6, 7]);
    assert_eq!(b, [5, 6]);
    let c: [u32; 3] = array_from_slice(&[1]);
    assert_eq!(c, [1, 0, 0]);
}
