//! Bump-style allocators, slot maps, allocator-generic strings and an FNV-1a
//! keyed hash map, modelled over index-addressed byte buffers and verified.
use vstd::prelude::*;
use vstd::std_specs::cmp::OrdSpec;
use core::cmp::Ordering;

pub mod basic;
pub mod buf;
pub mod comp;
pub mod hash;
pub mod mem;
pub mod region;

verus! {

/// A buffer of `n` zero bytes.
pub(crate) fn zeroed_bytes(n: usize) -> (r: Vec<u8>)
    ensures
        r@ == Seq::new(n as nat, |i: int| 0u8),
{
    let mut v: Vec<u8> = Vec::new();
    let mut i: usize = 0;
    while i < n
        invariant
            i <= n,
            v@ == Seq::new(i as nat, |j: int| 0u8),
        decreases n - i,
    {
        v.push(0u8);
        i = i + 1;
    }
    v
}

/// Overwrites `dst` from `offset` on with `data`.
pub(crate) fn write_into(dst: &mut Vec<u8>, offset: usize, data: &[u8])
    requires
        offset + data@.len() <= old(dst)@.len(),
    ensures
        final(dst)@ == old(dst)@.subrange(0, offset as int) + data@ + old(dst)@.subrange(
            offset + data@.len(),
            old(dst)@.len() as int,
        ),
{
    let ghost d0 = dst@;
    let n = dst.len();
    let mut i: usize = 0;
    while i < data.len()
        invariant
            i <= data@.len(),
            offset + data@.len() <= d0.len(),
            n == d0.len(),
            dst@.len() == d0.len(),
            forall|k: int| 0 <= k < offset ==> dst@[k] == d0[k],
            forall|k: int| 0 <= k < i ==> dst@[offset + k] == data@[k],
            forall|k: int| offset + i <= k < d0.len() ==> dst@[k] == d0[k],
        decreases data@.len() - i,
    {
        dst.set(offset + i, data[i]);
        i = i + 1;
    }
    assert(dst@ =~= d0.subrange(0, offset as int) + data@ + d0.subrange(
        offset + data@.len(),
        d0.len() as int,
    ));
}

/// The greater of `a` and `b` by `T`'s order; `b` when they are equal.
pub open spec fn max_by_order<T: Ord>(a: T, b: T) -> T {
    match b.cmp_spec(&a) {
        Ordering::Less => a,
        _ => b,
    }
}

/// The lesser of `a` and `b` by `T`'s order; `a` when they are equal.
pub open spec fn min_by_order<T: Ord>(a: T, b: T) -> T {
    match b.cmp_spec(&a) {
        Ordering::Less => b,
        _ => a,
    }
}

/// `val` held between `lower` and `higher`: the greater of `lower` and the
/// lesser of `val` and `higher`.
pub fn clamp<T: Ord>(lower: T, val: T, higher: T) -> (r: T)
    ensures
        T::obeys_cmp_spec() ==> r == max_by_order(lower, min_by_order(val, higher)),
{
    lower.max(val.min(higher))
}

/// Appends `src` in front of the last byte of `dst`, which becomes a zero
/// byte when `src` is not empty: `dst` keeps a terminating byte at its end.
pub fn append_byte_slice(dst: &mut Vec<u8>, src: &[u8])
    requires
        old(dst)@.len() >= 1,
        old(dst)@.len() + src@.len() <= usize::MAX,
    ensures
        src@.len() == 0 ==> final(dst)@ == old(dst)@,
        src@.len() > 0 ==> final(dst)@ == old(dst)@.drop_last() + src@ + seq![0u8],
{
    let i = dst.len() - 1;
    let end = i + src.len();
    let ghost d0 = dst@;
    let target = dst.len() + src.len();
    while dst.len() < target
        invariant
            d0.len() <= dst@.len() <= target,
            target == d0.len() + src@.len(),
            dst@.subrange(0, d0.len() as int) == d0,
            forall|k: int| d0.len() <= k < dst@.len() ==> dst@[k] == 0u8,
        decreases target - dst@.len(),
    {
        dst.push(0u8);
    }
    assert(end < dst.len());
    let ghost d1 = dst@;
    write_into(dst, i, src);
    proof {
        if src@.len() == 0 {
            assert(d1 =~= d0);
            assert(dst@ =~= d0);
        } else {
            assert(dst@ =~= d0.drop_last() + src@ + seq![0u8]);
        }
    }
}

/// Copies the first `min(src.len(), dst.len())` elements of `src` over the
/// front of `dst`.
pub fn copy_slice_into<T: Copy>(src: &[T], dst: &mut [T])
    ensures
        ({
            let n = if src@.len() < old(dst)@.len() { src@.len() } else { old(dst)@.len() };
            final(dst)@ == src@.subrange(0, n as int) + old(dst)@.subrange(n as int, old(dst)@.len() as int)
        }),
{
    let n = if src.len() < dst.len() {
        src.len()
    } else {
        dst.len()
    };
    let ghost d0 = dst@;
    let mut i: usize = 0;
    while i < n
        invariant
            n <= src@.len(),
            n <= d0.len(),
            i <= n,
            dst@.len() == d0.len(),
            forall|k: int| 0 <= k < i ==> dst@[k] == src@[k],
            forall|k: int| i <= k < d0.len() ==> dst@[k] == d0[k],
        decreases n - i,
    {
        dst[i] = src[i];
        i = i + 1;
    }
    assert(dst@ =~= src@.subrange(0, n as int) + d0.subrange(n as int, d0.len() as int));
}

/// Clones the first `min(src.len(), dst.len())` elements of `src` over the
/// front of `dst`.
pub fn clone_slice_into<T: Clone>(src: &[T], dst: &mut [T])
    ensures
        final(dst)@.len() == old(dst)@.len(),
        ({
            let n = if src@.len() < old(dst)@.len() { src@.len() } else { old(dst)@.len() };
            &&& forall|k: int| 0 <= k < n ==> cloned(src@[k], #[trigger] final(dst)@[k])
            &&& forall|k: int| n <= k < old(dst)@.len() ==> #[trigger] final(dst)@[k] == old(dst)@[k]
        }),
{
    let n = if src.len() < dst.len() {
        src.len()
    } else {
        dst.len()
    };
    let ghost d0 = dst@;
    let mut i: usize = 0;
    while i < n
        invariant
            n <= src@.len(),
            n <= d0.len(),
            i <= n,
            dst@.len() == d0.len(),
            forall|k: int| 0 <= k < i ==> cloned(src@[k], #[trigger] dst@[k]),
            forall|k: int| i <= k < d0.len() ==> #[trigger] dst@[k] == d0[k],
        decreases n - i,
    {
        let c = src[i].clone();
        dst[i] = c;
        i = i + 1;
    }
}

/// An array of `S` elements: the first elements of `sl`, the rest
/// `default_val`.
pub fn array_from_slice_with<const S: usize, T: Copy>(sl: &[T], default_val: T) -> (r: [T; S])
    ensures
        forall|k: int| 0 <= k < S && k < sl@.len() ==> #[trigger] r@[k] == sl@[k],
        forall|k: int| sl@.len() <= k < S ==> #[trigger] r@[k] == default_val,
{
    let mut arr: [T; S] = vstd::array::array_fill_for_copy_types(default_val);
    let n = if sl.len() < S {
        sl.len()
    } else {
        S
    };
    let mut i: usize = 0;
    while i < n
        invariant
            n <= sl@.len(),
            n <= S,
            i <= n,
            arr@.len() == S,
            forall|k: int| 0 <= k < i ==> arr@[k] == sl@[k],
            forall|k: int| i <= k < S ==> #[trigger] arr@[k] == default_val,
        decreases n - i,
    {
        arr[i] = sl[i];
        i = i + 1;
    }
    arr
}

/// An array of `S` elements: the first elements of `sl`, the rest
/// `T::default()`.
pub fn array_from_slice<const S: usize, T: Default + Copy>(sl: &[T]) -> (r: [T; S])
    ensures
        forall|k: int| 0 <= k < S && k < sl@.len() ==> #[trigger] r@[k] == sl@[k],
{
    array_from_slice_with(sl, T::default())
}

} // verus!
