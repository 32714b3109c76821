//! A byte string that carries an allocator handle, as a stand-in for `String`
//! over a chosen allocator.
use vstd::prelude::*;
use vstd::string::StringSliceAdditionalSpecFns;
use vstd::utf8::valid_utf8;
use crate::region::Global;
use core::cmp::Ordering;

verus! {

/// `core::str::from_utf8`: by its documentation, the bytes read as a string
/// exactly when they are valid UTF-8, and the string then has those bytes.
#[verifier::external_body]
pub(crate) fn str_from_utf8(bytes: &[u8]) -> (r: Option<&str>)
    ensures
        r is Some <==> valid_utf8(bytes@),
        r matches Some(s) ==> s.spec_bytes() == bytes@,
{
    core::str::from_utf8(bytes).ok()
}

/// `core::str::from_utf8_mut`: by its documentation, the bytes read as a
/// string exactly when they are valid UTF-8; the string is then a view of
/// those bytes, so whatever is written through it is what the bytes hold
/// afterwards.
#[verifier::external_body]
pub(crate) fn str_from_utf8_mut(bytes: &mut [u8]) -> (r: Option<&mut str>)
    ensures
        r is Some <==> valid_utf8(old(bytes)@),
        r matches Some(s) ==> s.spec_bytes() == old(bytes)@
            && final(s).spec_bytes() == final(bytes)@,
        r is None ==> final(bytes)@ == old(bytes)@,
{
    core::str::from_utf8_mut(bytes).ok()
}

/// The bytes of a string handed to [KString::try_utf8] are not valid UTF-8.
#[derive(Clone, Copy, Debug, PartialEq, Eq, Structural)]
pub struct Utf8Error;

/// A byte string, meant to hold UTF-8, with the allocator handle it was made
/// with.
#[derive(Debug, Clone, PartialEq, Eq, PartialOrd, Ord, Hash)]
pub struct KString<A = Global> {
    buf: Vec<u8>,
    alloc: A,
}

impl<A> View for KString<A> {
    type V = Seq<u8>;

    closed spec fn view(&self) -> Seq<u8> {
        self.buf@
    }
}

/// The UTF-8 encoding of `c`.
pub open spec fn char_utf8(c: char) -> Seq<u8> {
    vstd::utf8::encode_utf8(seq![c])
}

/// The UTF-8 encoding of `c`, one to four bytes.
pub fn encode_char(c: char) -> (r: Vec<u8>)
    ensures
        r@ == char_utf8(c),
{
    let v = c as u32;
    let mut out: Vec<u8> = Vec::new();
    if v <= 0x7F {
        out.push((v & 0x7F) as u8);
    } else if v <= 0x7FF {
        out.push(0xC0u8 | ((v >> 6) & 0x1F) as u8);
        out.push(0x80u8 | (v & 0x3F) as u8);
    } else if v <= 0xFFFF {
        out.push(0xE0u8 | ((v >> 12) & 0x0F) as u8);
        out.push(0x80u8 | ((v >> 6) & 0x3F) as u8);
        out.push(0x80u8 | (v & 0x3F) as u8);
    } else {
        out.push(0xF0u8 | ((v >> 18) & 0x7) as u8);
        out.push(0x80u8 | ((v >> 12) & 0x3F) as u8);
        out.push(0x80u8 | ((v >> 6) & 0x3F) as u8);
        out.push(0x80u8 | (v & 0x3F) as u8);
    }
    proof {
        vstd::utf8::char_is_scalar(c);
        let cs = seq![c];
        assert(cs.drop_first() =~= Seq::<char>::empty());
        assert(vstd::utf8::encode_utf8(cs) =~= vstd::utf8::encode_scalar(v) + vstd::utf8::encode_utf8(
            Seq::<char>::empty(),
        ));
        assert(vstd::utf8::encode_utf8(cs) =~= vstd::utf8::encode_scalar(v));
        assert(out@ =~= vstd::utf8::encode_scalar(v));
    }
    out
}

/// Byte-wise lexicographic order of two byte strings, as `str` orders.
pub open spec fn bytes_order(a: Seq<u8>, b: Seq<u8>) -> Ordering
    decreases a.len(),
{
    if a.len() == 0 {
        if b.len() == 0 {
            Ordering::Equal
        } else {
            Ordering::Less
        }
    } else if b.len() == 0 {
        Ordering::Greater
    } else if a[0] < b[0] {
        Ordering::Less
    } else if a[0] > b[0] {
        Ordering::Greater
    } else {
        bytes_order(a.drop_first(), b.drop_first())
    }
}

/// Two byte strings compare equal exactly when they are the same.
pub proof fn lemma_bytes_order_equal(a: Seq<u8>, b: Seq<u8>)
    ensures
        (bytes_order(a, b) == Ordering::Equal) == (a == b),
    decreases a.len(),
{
    if a.len() > 0 && b.len() > 0 && a[0] == b[0] {
        lemma_bytes_order_equal(a.drop_first(), b.drop_first());
        if a.drop_first() == b.drop_first() {
            assert(a =~= b) by {
                assert forall|k: int| 0 <= k < a.len() implies a[k] == b[k] by {
                    if k > 0 {
                        assert(a[k] == a.drop_first()[k - 1]);
                        assert(b[k] == b.drop_first()[k - 1]);
                    }
                }
            }
        } else {
            assert(a.drop_first() != b.drop_first());
            if a == b {
                assert(a.drop_first() =~= b.drop_first());
            }
        }
    } else if a.len() == 0 && b.len() == 0 {
        assert(a =~= b);
    } else if a.len() > 0 && b.len() > 0 {
        assert(a[0] != b[0]);
    }
}

/// Swapping the two strings swaps `Less` and `Greater`.
pub proof fn lemma_bytes_order_swap(a: Seq<u8>, b: Seq<u8>)
    ensures
        (bytes_order(a, b) == Ordering::Less) == (bytes_order(b, a) == Ordering::Greater),
        (bytes_order(a, b) == Ordering::Greater) == (bytes_order(b, a) == Ordering::Less),
    decreases a.len(),
{
    if a.len() > 0 && b.len() > 0 && a[0] == b[0] {
        lemma_bytes_order_swap(a.drop_first(), b.drop_first());
    }
}

/// A proper prefix orders before the longer string.
pub proof fn lemma_bytes_order_prefix(a: Seq<u8>, b: Seq<u8>)
    requires
        b.len() > 0,
    ensures
        bytes_order(a, a + b) == Ordering::Less,
    decreases a.len(),
{
    if a.len() > 0 {
        assert((a + b)[0] == a[0]);
        assert((a + b).drop_first() =~= a.drop_first() + b);
        lemma_bytes_order_prefix(a.drop_first(), b);
    } else {
        assert(a + b =~= b);
    }
}

/// At the first position where the strings differ, the smaller byte orders
/// its string first.
pub proof fn lemma_bytes_order_first_difference(a: Seq<u8>, b: Seq<u8>, i: int)
    requires
        0 <= i < a.len(),
        i < b.len(),
        a.subrange(0, i) == b.subrange(0, i),
        a[i] < b[i],
    ensures
        bytes_order(a, b) == Ordering::Less,
    decreases i,
{
    if i > 0 {
        assert(a[0] == a.subrange(0, i)[0]);
        assert(b[0] == b.subrange(0, i)[0]);
        assert(a.drop_first().subrange(0, i - 1) =~= b.drop_first().subrange(0, i - 1)) by {
            assert forall|k: int| 0 <= k < i - 1 implies #[trigger] a.drop_first().subrange(0, i - 1)[k]
                == b.drop_first().subrange(0, i - 1)[k] by {
                assert(a.subrange(0, i)[k + 1] == a[k + 1]);
                assert(b.subrange(0, i)[k + 1] == b[k + 1]);
                assert(a.subrange(0, i)[k + 1] == b.subrange(0, i)[k + 1]);
                assert(a.drop_first()[k] == a[k + 1]);
                assert(b.drop_first()[k] == b[k + 1]);
            }
        }
        lemma_bytes_order_first_difference(a.drop_first(), b.drop_first(), i - 1);
    }
}

/// Comparing a string with a `str` is the lexicographic order of their
/// bytes: equal exactly when the bytes are the same; swapping the sides swaps
/// `Less` and `Greater`; a proper prefix orders first; and otherwise the
/// first differing byte decides.
pub proof fn law_bytes_order_lexicographic(a: Seq<u8>, b: Seq<u8>, rest: Seq<u8>, i: int)
    ensures
        (bytes_order(a, b) == Ordering::Equal) == (a == b),
        (bytes_order(a, b) == Ordering::Less) == (bytes_order(b, a) == Ordering::Greater),
        rest.len() > 0 ==> bytes_order(a, a + rest) == Ordering::Less,
        rest.len() > 0 ==> bytes_order(a + rest, a) == Ordering::Greater,
        (0 <= i < a.len() && i < b.len() && a.subrange(0, i) == b.subrange(0, i) && a[i] < b[i])
            ==> bytes_order(a, b) == Ordering::Less,
{
    lemma_bytes_order_equal(a, b);
    lemma_bytes_order_swap(a, b);
    if rest.len() > 0 {
        lemma_bytes_order_prefix(a, rest);
        lemma_bytes_order_swap(a, a + rest);
    }
    if 0 <= i < a.len() && i < b.len() && a.subrange(0, i) == b.subrange(0, i) && a[i] < b[i] {
        lemma_bytes_order_first_difference(a, b, i);
    }
}

/// The bytes of `s` from index `i` on.
pub open spec fn tail_from(s: Seq<u8>, i: usize) -> Seq<u8> {
    s.subrange(i as int, s.len() as int)
}

/// Dropping the first byte of a tail gives the tail one index further on.
pub proof fn lemma_tail_step(s: Seq<u8>, i: usize)
    requires
        i < s.len(),
        s.len() <= usize::MAX,
    ensures
        tail_from(s, i).drop_first() == tail_from(s, (i + 1) as usize),
        tail_from(s, i)[0] == s[i as int],
        tail_from(s, i).len() > 0,
{
    assert(tail_from(s, i).drop_first() =~= tail_from(s, (i + 1) as usize));
}

/// The tail from index 0 is the whole sequence.
pub proof fn lemma_tail_zero(s: Seq<u8>)
    ensures
        tail_from(s, 0) == s,
{
    assert(tail_from(s, 0) =~= s);
}

impl<A> KString<A> {
    pub closed spec fn allocator_spec(&self) -> A {
        self.alloc
    }

    /// Whether the bytes are valid UTF-8, so that the string can be read.
    pub open spec fn is_utf8(&self) -> bool {
        valid_utf8(self@)
    }

    /// Makes room for `additional` more bytes; the contents stay.
    pub fn reserve(&mut self, additional: usize)
        requires
            old(self)@.len() + additional <= isize::MAX,
        ensures
            final(self)@ == old(self)@,
            final(self).allocator_spec() == old(self).allocator_spec(),
    {
        self.buf.reserve(additional);
    }

    /// Number of bytes.
    pub fn len(&self) -> (r: usize)
        ensures
            r == self@.len(),
    {
        self.buf.len()
    }

    pub fn is_empty(&self) -> (r: bool)
        ensures
            r == (self@.len() == 0),
    {
        self.buf.len() == 0
    }

    /// An empty string over `alloc`.
    pub fn new_in(alloc: A) -> (r: Self)
        ensures
            r@ == Seq::<u8>::empty(),
            r.allocator_spec() == alloc,
    {
        KString { buf: Vec::new(), alloc }
    }

    /// The allocator handle.
    pub fn allocator(&self) -> (r: &A)
        ensures
            *r == self.allocator_spec(),
    {
        &self.alloc
    }

    /// The string with the bytes of `lhs` followed by those of `rhs`, over a
    /// clone of the allocator of `lhs`. Both must read as UTF-8.
    pub fn concat(lhs: Self, rhs: Self) -> (r: Self)
        where
            A: Clone,
        requires
            lhs.is_utf8(),
            rhs.is_utf8(),
            lhs@.len() + rhs@.len() <= isize::MAX,
        ensures
            r@ == lhs@ + rhs@,
            r.is_utf8(),
            cloned(lhs.allocator_spec(), r.allocator_spec()),
    {
        let alloc = lhs.allocator().clone();
        let mut res = Self::with_capacity_in(lhs.len() + rhs.len(), alloc);
        res.push(lhs.utf8());
        res.push(rhs.utf8());
        proof {
            vstd::utf8::valid_utf8_concat(lhs@, rhs@);
        }
        res
    }

    /// The string with the bytes of `s`, over `alloc`.
    pub fn from_str_in(s: &str, alloc: A) -> (r: Self)
        ensures
            r@ == s.spec_bytes(),
            r.is_utf8(),
            r.allocator_spec() == alloc,
    {
        proof {
            vstd::utf8::encode_utf8_valid_utf8(s@);
        }
        Self::from_bytes_in(s.as_bytes(), alloc)
    }

    /// The string with the bytes `bytes`, over `alloc`.
    pub fn from_bytes_in(bytes: &[u8], alloc: A) -> (r: Self)
        ensures
            r@ == bytes@,
            r.allocator_spec() == alloc,
    {
        let mut buf: Vec<u8> = Vec::new();
        let mut i: usize = 0;
        while i < bytes.len()
            invariant
                i <= bytes@.len(),
                buf@ == bytes@.subrange(0, i as int),
            decreases bytes@.len() - i,
        {
            buf.push(bytes[i]);
            i = i + 1;
            assert(buf@ =~= bytes@.subrange(0, i as int));
        }
        assert(bytes@.subrange(0, i as int) =~= bytes@);
        KString { buf, alloc }
    }

    /// An empty string over `alloc` with room for `cap` bytes.
    pub fn with_capacity_in(cap: usize, alloc: A) -> (r: Self)
        requires
            cap <= isize::MAX,
        ensures
            r@ == Seq::<u8>::empty(),
            r.allocator_spec() == alloc,
    {
        KString { buf: Vec::with_capacity(cap), alloc }
    }

    /// The string read as UTF-8, or an error when its bytes are not UTF-8.
    pub fn try_utf8(&self) -> (r: Result<&str, Utf8Error>)
        ensures
            r is Ok <==> self.is_utf8(),
            r matches Ok(s) ==> s.spec_bytes() == self@,
    {
        match str_from_utf8(self.buf.as_slice()) {
            Some(s) => Ok(s),
            None => Err(Utf8Error),
        }
    }

    /// The string read as UTF-8; its bytes must be UTF-8.
    pub fn utf8(&self) -> (r: &str)
        requires
            self.is_utf8(),
        ensures
            r.spec_bytes() == self@,
    {
        match self.try_utf8() {
            Ok(s) => s,
            Err(_) => {
                assert(false);
                ""
            },
        }
    }

    /// The bytes.
    pub fn as_bytes(&self) -> (r: &[u8])
        ensures
            r@ == self@,
    {
        self.buf.as_slice()
    }

    /// The bytes, to write through.
    pub fn as_bytes_mut(&mut self) -> (r: &mut [u8])
        ensures
            r@ == old(self)@,
            final(r)@ == final(self)@,
            final(self).allocator_spec() == old(self).allocator_spec(),
    {
        self.buf.as_mut_slice()
    }

    /// The string read as UTF-8, to write through, or an error when its
    /// bytes are not UTF-8.
    pub fn try_utf8_mut(&mut self) -> (r: Result<&mut str, Utf8Error>)
        ensures
            r is Ok <==> old(self).is_utf8(),
            r matches Ok(s) ==> s.spec_bytes() == old(self)@
                && final(s).spec_bytes() == final(self)@,
            r is Err ==> final(self)@ == old(self)@,
            final(self).allocator_spec() == old(self).allocator_spec(),
    {
        match str_from_utf8_mut(self.buf.as_mut_slice()) {
            Some(s) => Ok(s),
            None => Err(Utf8Error),
        }
    }

    /// The string read as UTF-8, to write through; its bytes must be UTF-8.
    pub fn utf8_mut(&mut self) -> (r: &mut str)
        requires
            old(self).is_utf8(),
        ensures
            r.spec_bytes() == old(self)@,
            final(r).spec_bytes() == final(self)@,
            final(self).allocator_spec() == old(self).allocator_spec(),
    {
        self.try_utf8_mut().unwrap()
    }

    /// Same as [KString::utf8_mut].
    pub fn as_str_mut(&mut self) -> (r: &mut str)
        requires
            old(self).is_utf8(),
        ensures
            r.spec_bytes() == old(self)@,
            final(r).spec_bytes() == final(self)@,
            final(self).allocator_spec() == old(self).allocator_spec(),
    {
        self.utf8_mut()
    }

    /// The string as a `String`; its bytes must be UTF-8.
    pub fn to_string(&self) -> (r: String)
        requires
            self.is_utf8(),
        ensures
            r@ == vstd::utf8::decode_utf8(self@),
    {
        let s = self.utf8();
        proof {
            vstd::utf8::encode_utf8_decode_utf8(s@);
        }
        s.to_owned()
    }

    /// Appends the UTF-8 encoding of `c`.
    pub fn push_char(&mut self, c: char)
        ensures
            final(self)@ == old(self)@ + char_utf8(c),
            final(self).allocator_spec() == old(self).allocator_spec(),
            old(self).is_utf8() ==> final(self).is_utf8(),
    {
        let bytes = encode_char(c);
        let ghost start = self.buf@;
        let mut i: usize = 0;
        while i < bytes.len()
            invariant
                i <= bytes@.len(),
                self.buf@ == start + bytes@.subrange(0, i as int),
                self.alloc == old(self).alloc,
            decreases bytes@.len() - i,
        {
            self.buf.push(bytes[i]);
            i = i + 1;
            assert(self.buf@ =~= start + bytes@.subrange(0, i as int));
        }
        assert(bytes@.subrange(0, i as int) =~= bytes@);
        proof {
            vstd::utf8::encode_utf8_valid_utf8(seq![c]);
            if valid_utf8(start) {
                vstd::utf8::valid_utf8_concat(start, bytes@);
            }
        }
    }

    /// Appends the bytes of `string`.
    pub fn push(&mut self, string: &str)
        ensures
            final(self)@ == old(self)@ + string.spec_bytes(),
            final(self).allocator_spec() == old(self).allocator_spec(),
            old(self).is_utf8() ==> final(self).is_utf8(),
    {
        let bytes = string.as_bytes();
        let ghost start = self.buf@;
        let mut i: usize = 0;
        while i < bytes.len()
            invariant
                i <= bytes@.len(),
                self.buf@ == start + bytes@.subrange(0, i as int),
                self.alloc == old(self).alloc,
            decreases bytes@.len() - i,
        {
            self.buf.push(bytes[i]);
            i = i + 1;
            assert(self.buf@ =~= start + bytes@.subrange(0, i as int));
        }
        assert(bytes@.subrange(0, i as int) =~= bytes@);
        proof {
            vstd::utf8::encode_utf8_valid_utf8(string@);
            if valid_utf8(start) {
                vstd::utf8::valid_utf8_concat(start, bytes@);
            }
        }
    }

    /// Appends the bytes of `string`, then the UTF-8 encoding of `delim`.
    pub fn push_delim(&mut self, string: &str, delim: char)
        ensures
            final(self)@ == old(self)@ + string.spec_bytes() + char_utf8(delim),
            old(self).is_utf8() ==> final(self).is_utf8(),
            final(self).allocator_spec() == old(self).allocator_spec(),
    {
        self.push(string);
        self.push_char(delim);
    }

    /// Appends the contents of `other`, which must read as UTF-8.
    pub fn append_string(&mut self, other: KString)
        requires
            other.is_utf8(),
        ensures
            final(self)@ == old(self)@ + other@,
            final(self).allocator_spec() == old(self).allocator_spec(),
    {
        self.push(other.as_str());
    }

    /// The string read as UTF-8; its bytes must be UTF-8.
    pub fn as_str(&self) -> (r: &str)
        requires
            self.is_utf8(),
        ensures
            r.spec_bytes() == self@,
    {
        self.utf8()
    }

    /// Appends the contents of `other`, which must read as UTF-8.
    pub fn append(&mut self, other: Self)
        requires
            other.is_utf8(),
        ensures
            final(self)@ == old(self)@ + other@,
            final(self).allocator_spec() == old(self).allocator_spec(),
    {
        self.push(other.utf8());
    }

    /// How the string, read as UTF-8, orders against `other`; the bytes must
    /// be UTF-8.
    pub fn partial_cmp_str(&self, other: &str) -> (r: Option<Ordering>)
        requires
            self.is_utf8(),
        ensures
            r == Some(bytes_order(self@, other.spec_bytes())),
    {
        let a = self.utf8().as_bytes();
        let b = other.as_bytes();
        proof {
            lemma_tail_zero(a@);
            lemma_tail_zero(b@);
        }
        let mut i: usize = 0;
        while i < a.len() && i < b.len()
            invariant
                a@ == self@,
                b@ == other.spec_bytes(),
                i <= a@.len(),
                i <= b@.len(),
                bytes_order(a@, b@) == bytes_order(tail_from(a@, i), tail_from(b@, i)),
            decreases a@.len() - i,
        {
            let x = a[i];
            let y = b[i];
            proof {
                lemma_tail_step(a@, i);
                lemma_tail_step(b@, i);
            }
            if x < y {
                return Some(Ordering::Less);
            }
            if x > y {
                return Some(Ordering::Greater);
            }
            i = i + 1;
        }
        if i < b.len() {
            Some(Ordering::Less)
        } else if i < a.len() {
            Some(Ordering::Greater)
        } else {
            Some(Ordering::Equal)
        }
    }

    /// Whether the string, read as UTF-8, equals `other`; the bytes must be
    /// UTF-8.
    pub fn eq_str(&self, other: &str) -> (r: bool)
        requires
            self.is_utf8(),
        ensures
            r == (self@ == other.spec_bytes()),
    {
        let a = self.utf8().as_bytes();
        let b = other.as_bytes();
        if a.len() != b.len() {
            assert(a@.len() != b@.len());
            return false;
        }
        let mut i: usize = 0;
        while i < a.len()
            invariant
                a@.len() == b@.len(),
                a@ == self@,
                b@ == other.spec_bytes(),
                i <= a@.len(),
                forall|k: int| 0 <= k < i ==> a@[k] == b@[k],
            decreases a@.len() - i,
        {
            if a[i] != b[i] {
                assert(a@[i as int] != b@[i as int]);
                return false;
            }
            i = i + 1;
        }
        assert(a@ =~= b@);
        true
    }
}

impl KString<Global> {
    /// A copy of `string`.
    pub fn from_string(string: KString) -> (r: Self)
        ensures
            r@ == string@,
    {
        Self::from_bytes_in(string.as_bytes(), Global)
    }

    /// An empty string over the process heap.
    pub fn new() -> (r: Self)
        ensures
            r@ == Seq::<u8>::empty(),
    {
        Self::new_in(Global)
    }

    /// An empty string over the process heap with room for `cap` bytes.
    pub fn with_capacity(cap: usize) -> (r: Self)
        requires
            cap <= isize::MAX,
        ensures
            r@ == Seq::<u8>::empty(),
    {
        Self::with_capacity_in(cap, Global)
    }

    /// The string that owns `vec` as its bytes.
    pub fn from_vec(vec: Vec<u8>) -> (r: Self)
        ensures
            r@ == vec@,
    {
        KString { buf: vec, alloc: Global }
    }

    /// The string with the bytes of `value`.
    pub fn from_str(value: &str) -> (r: Self)
        ensures
            r@ == value.spec_bytes(),
            r.is_utf8(),
    {
        Self::from_str_in(value, Global)
    }
}

impl Default for KString<Global> {
    fn default() -> (r: Self)
        ensures
            r@ == Seq::<u8>::empty(),
    {
        Self::new()
    }
}

/// Reading back: a string made from a `&str` reads as UTF-8, and reading it
/// back gives the same string, character for character; appending a `&str`
/// to a UTF-8 string keeps it UTF-8.
pub proof fn law_kstring_round_trip<A>(s: &str, k: KString<A>, back: &str, prefix: Seq<u8>)
    requires
        k@ == s.spec_bytes(),
        back.spec_bytes() == k@,
    ensures
        k.is_utf8(),
        back@ == s@,
        valid_utf8(prefix) ==> valid_utf8(prefix + s.spec_bytes()),
{
    vstd::utf8::encode_utf8_valid_utf8(s@);
    vstd::utf8::encode_utf8_decode_utf8(s@);
    vstd::utf8::encode_utf8_decode_utf8(back@);
    if valid_utf8(prefix) {
        vstd::utf8::valid_utf8_concat(prefix, s.spec_bytes());
    }
}

} // verus!
