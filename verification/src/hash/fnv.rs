//! 64-bit FNV-1a hashing.
use vstd::prelude::*;
use vstd::string::StringSliceAdditionalSpecFns;

verus! {

pub const PRIME32: u32 = 0x010001930u32;

pub const OFFSET32: u32 = 0x811c9dc5u32;

pub const PRIME64: u64 = 0x00000100000001b3u64;

pub const OFFSET64: u64 = 0xcbf29ce484222325u64;

/// One FNV-1a round: xor the byte in, then multiply by the prime (mod 2^64).
pub open spec fn fnv_step(acc: u64, c: u8) -> u64 {
    (acc ^ (c as u64)).wrapping_mul(PRIME64)
}

/// FNV-1a rounds over `bytes`, starting from `acc`, first byte first.
pub open spec fn fnv_fold(acc: u64, bytes: Seq<u8>) -> u64
    decreases bytes.len(),
{
    if bytes.len() == 0 {
        acc
    } else {
        fnv_step(fnv_fold(acc, bytes.drop_last()), bytes.last())
    }
}

/// The hash this module gives a byte string: 0 for the empty string,
/// otherwise FNV-1a from the 64-bit offset basis.
pub open spec fn fnv1a64(bytes: Seq<u8>) -> u64 {
    if bytes.len() == 0 {
        0
    } else {
        fnv_fold(OFFSET64, bytes)
    }
}

/// Folding over a concatenation is folding over the second part from where
/// the first part left off.
pub proof fn lemma_fnv_fold_append(acc: u64, a: Seq<u8>, b: Seq<u8>)
    ensures
        fnv_fold(acc, a + b) == fnv_fold(fnv_fold(acc, a), b),
    decreases b.len(),
{
    if b.len() == 0 {
        assert(a + b =~= a);
    } else {
        lemma_fnv_fold_append(acc, a, b.drop_last());
        assert((a + b).drop_last() =~= a + b.drop_last());
        assert((a + b).last() == b.last());
    }
}

/// One FNV-1a round on an accumulator.
pub fn hasher(acc: u64, c: &u8) -> (r: u64)
    ensures
        r == fnv_step(acc, *c),
{
    let v = acc ^ (*c as u64);
    v.wrapping_mul(PRIME64)
}

fn fold_bytes(acc: u64, bytes: &[u8]) -> (r: u64)
    ensures
        r == fnv_fold(acc, bytes@),
{
    let mut h = acc;
    let mut i: usize = 0;
    while i < bytes.len()
        invariant
            i <= bytes@.len(),
            h == fnv_fold(acc, bytes@.subrange(0, i as int)),
        decreases bytes@.len() - i,
    {
        proof {
            let s = bytes@.subrange(0, i as int + 1);
            assert(s.drop_last() =~= bytes@.subrange(0, i as int));
        }
        h = hasher(h, &bytes[i]);
        i = i + 1;
    }
    assert(bytes@.subrange(0, i as int) =~= bytes@);
    h
}

/// Hashes a byte string with 64-bit FNV-1a; the empty string hashes to 0.
pub fn hash_bytes(bytes: &[u8]) -> (r: u64)
    ensures
        r == fnv1a64(bytes@),
{
    if bytes.len() == 0 {
        return 0;
    }
    fold_bytes(OFFSET64, bytes)
}

/// Same result as [hash_bytes], computed by an index loop.
pub fn hash_bytes_const(bytes: &[u8]) -> (r: u64)
    ensures
        r == fnv1a64(bytes@),
{
    if bytes.len() == 0 {
        return 0;
    }
    let mut hash: u64 = OFFSET64;
    let len = bytes.len();
    let mut i: usize = 0;
    loop
        invariant
            len == bytes@.len(),
            len > 0,
            i <= len,
            hash == fnv_fold(OFFSET64, bytes@.subrange(0, i as int)),
        ensures
            hash == fnv_fold(OFFSET64, bytes@),
        decreases len - i,
    {
        if i < len {
            proof {
                let s = bytes@.subrange(0, i as int + 1);
                assert(s.drop_last() =~= bytes@.subrange(0, i as int));
            }
            let c = bytes[i] as u64;
            hash = hash ^ c;
            hash = hash.wrapping_mul(PRIME64);
            i = i + 1;
        } else {
            assert(bytes@.subrange(0, i as int) =~= bytes@);
            break;
        }
    }
    hash
}

/// Hashes the UTF-8 bytes of a string with 64-bit FNV-1a.
pub fn hash_string(s: &str) -> (r: u64)
    ensures
        r == fnv1a64(s.spec_bytes()),
{
    hash_bytes(s.as_bytes())
}

/// Same as [hash_string], through [hash_bytes_const].
pub fn hash_string_const(s: &str) -> (r: u64)
    ensures
        r == fnv1a64(s.spec_bytes()),
{
    let bs = s.as_bytes();
    hash_bytes_const(bs)
}

/// An incremental FNV-1a hasher.
pub struct FnvHash(pub u64);

impl FnvHash {
    pub open spec fn state(&self) -> u64 {
        self.0
    }

    /// A hasher at the 64-bit offset basis.
    pub fn new() -> (r: Self)
        ensures
            r.state() == OFFSET64,
    {
        FnvHash(OFFSET64)
    }

    /// Feeds `bytes` to the hasher.
    pub fn hash_bytes(&mut self, bytes: &[u8])
        ensures
            final(self).state() == fnv_fold(old(self).state(), bytes@),
    {
        self.0 = fold_bytes(self.0, bytes);
    }

    /// Feeds the UTF-8 bytes of `s` to the hasher.
    pub fn hash_str(&mut self, s: &str)
        ensures
            final(self).state() == fnv_fold(old(self).state(), s.spec_bytes()),
    {
        self.hash_bytes(s.as_bytes());
    }

    /// The hash of everything fed so far.
    pub fn finish(&self) -> (r: u64)
        ensures
            r == self.state(),
    {
        self.0
    }

    /// Feeds `bytes` to the hasher.
    pub fn write(&mut self, bytes: &[u8])
        ensures
            final(self).state() == fnv_fold(old(self).state(), bytes@),
    {
        self.hash_bytes(bytes);
    }
}

/// Feeding a hasher two pieces one after the other gives the hash of their
/// concatenation; a fresh hasher fed a non-empty string finishes with that
/// string's hash.
pub proof fn law_streaming_hash(a: Seq<u8>, b: Seq<u8>)
    ensures
        fnv_fold(fnv_fold(OFFSET64, a), b) == fnv_fold(OFFSET64, a + b),
        (a + b).len() > 0 ==> fnv_fold(fnv_fold(OFFSET64, a), b) == fnv1a64(a + b),
{
    lemma_fnv_fold_append(OFFSET64, a, b);
}

/// One FNV-1a round xors the byte's unsigned value (0 to 255) into the
/// accumulator, so that only the low eight bits of the accumulator change,
/// and then multiplies by the 64-bit prime modulo 2^64. For instance the
/// two bytes of "é", `[0xC3, 0xA9]`, hash to `0x0ac21707b7181e01`.
pub proof fn law_fnv_step_is_fnv1a_round(acc: u64, c: u8)
    ensures
        ({
            let x: u64 = (acc & 0xffff_ffff_ffff_ff00u64) | (((acc & 0xffu64) as u8 ^ c) as u64);
            &&& fnv_step(acc, c) as nat == (x as nat * PRIME64 as nat) % 0x1_0000_0000_0000_0000nat
            &&& x >> 8u64 == acc >> 8u64
            &&& (x & 0xffu64) as u8 == (acc & 0xffu64) as u8 ^ c
        }),
        fnv1a64(seq![0xC3u8, 0xA9u8]) == 0x0ac21707b7181e01u64,
{
    assert((acc ^ (c as u64)) == ((acc & 0xffff_ffff_ffff_ff00u64) | (((acc & 0xffu64) as u8
        ^ c) as u64))) by (bit_vector);
    assert(((acc & 0xffff_ffff_ffff_ff00u64) | (((acc & 0xffu64) as u8 ^ c) as u64)) >> 8u64
        == acc >> 8u64) by (bit_vector);
    assert((((acc & 0xffff_ffff_ffff_ff00u64) | (((acc & 0xffu64) as u8 ^ c) as u64))
        & 0xffu64) as u8 == (acc & 0xffu64) as u8 ^ c) by (bit_vector);
    lemma_fnv_two_byte_example();
}

/// The FNV-1a hash of the bytes `[0xC3, 0xA9]`, worked out round by round.
proof fn lemma_fnv_two_byte_example()
    ensures
        fnv1a64(seq![0xC3u8, 0xA9u8]) == 0x0ac21707b7181e01u64,
{
    let e = seq![0xC3u8, 0xA9u8];
    let e1 = seq![0xC3u8];
    assert(e.drop_last() =~= e1);
    assert(e1.drop_last() =~= Seq::<u8>::empty());
    assert(0xcbf29ce484222325u64 ^ (0xC3u8 as u64) == 0xcbf29ce4842223e6u64) by (bit_vector);
    assert(0xaf647e4c8602ffd2u64 ^ (0xA9u8 as u64) == 0xaf647e4c8602ff7bu64) by (bit_vector);
    assert(fnv_fold(OFFSET64, Seq::<u8>::empty()) == OFFSET64);
    assert(fnv_step(OFFSET64, 0xC3u8) == 0xaf647e4c8602ffd2u64);
    assert(fnv_fold(OFFSET64, e1) == 0xaf647e4c8602ffd2u64);
    assert(fnv_step(0xaf647e4c8602ffd2u64, 0xA9u8) == 0x0ac21707b7181e01u64);
    assert(fnv_fold(OFFSET64, e) == 0x0ac21707b7181e01u64);
}

} // verus!
