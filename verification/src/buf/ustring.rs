//! A string that keeps contents of at most [INLINE_LEN] bytes inline and
//! puts longer contents in a [KString].
use vstd::prelude::*;
use vstd::string::StringSliceAdditionalSpecFns;
use vstd::utf8::{valid_utf8, is_char_boundary};
use crate::buf::kstring::{KString, str_from_utf8, str_from_utf8_mut};
use crate::region::Global;

verus! {

/// Bytes an inline string can hold.
pub const INLINE_LEN: usize = 23;

/// Up to [INLINE_LEN] bytes of UTF-8 kept in place.
#[derive(Clone, Copy, Debug)]
pub struct Inline {
    len: u8,
    buf: [u8; 23],
}

impl View for Inline {
    type V = Seq<u8>;

    closed spec fn view(&self) -> Seq<u8> {
        self.buf@.subrange(0, self.len as int)
    }
}

impl Inline {
    /// The length never exceeds the buffer, and the bytes in use are UTF-8.
    pub closed spec fn wf(&self) -> bool {
        &&& self.len <= 23
        &&& valid_utf8(self.buf@.subrange(0, self.len as int))
    }

    /// The empty inline string.
    pub fn empty() -> (r: Self)
        ensures
            r@ == Seq::<u8>::empty(),
            r.wf(),
    {
        let r = Inline { len: 0, buf: [0u8; 23] };
        proof {
            assert(r.buf@.subrange(0, 0) =~= Seq::<u8>::empty());
            vstd::utf8::encode_utf8_valid_utf8(Seq::<char>::empty());
            assert(vstd::utf8::encode_utf8(Seq::<char>::empty()) =~= Seq::<u8>::empty());
        }
        r
    }

    /// The first `min(s.len(), INLINE_LEN)` bytes of `s`; when `s` is longer
    /// than [INLINE_LEN] bytes, the cut must fall on a character boundary.
    pub fn new(s: &str) -> (r: Self)
        requires
            s.spec_bytes().len() <= INLINE_LEN || is_char_boundary(s.spec_bytes(), INLINE_LEN as int),
        ensures
            s.spec_bytes().len() <= INLINE_LEN ==> r@ == s.spec_bytes(),
            s.spec_bytes().len() > INLINE_LEN ==> r@ == s.spec_bytes().subrange(0, INLINE_LEN as int),
            r.wf(),
    {
        let bytes = s.as_bytes();
        let len = if bytes.len() < INLINE_LEN {
            bytes.len()
        } else {
            INLINE_LEN
        };
        let mut buf = [0u8; 23];
        let mut i: usize = 0;
        while i < len
            invariant
                len <= 23,
                len <= bytes@.len(),
                i <= len,
                buf@.len() == 23,
                forall|k: int| 0 <= k < i ==> buf@[k] == bytes@[k],
            decreases len - i,
        {
            buf[i] = bytes[i];
            i = i + 1;
        }
        proof {
            assert(buf@.subrange(0, len as int) =~= bytes@.subrange(0, len as int));
            vstd::utf8::encode_utf8_valid_utf8(s@);
            if bytes@.len() > INLINE_LEN {
                vstd::utf8::valid_utf8_split(bytes@, INLINE_LEN as int);
            } else {
                assert(bytes@.subrange(0, len as int) =~= bytes@);
            }
        }
        #[verifier::truncate]
        let l = len as u8;
        Inline { len: l, buf }
    }

    /// `s` kept inline when it has at most [INLINE_LEN] bytes.
    pub fn try_new(s: &str) -> (r: Option<Self>)
        ensures
            r is Some <==> s.spec_bytes().len() <= INLINE_LEN,
            r matches Some(i) ==> i@ == s.spec_bytes() && i.wf(),
    {
        if s.as_bytes().len() > INLINE_LEN {
            None
        } else {
            Some(Self::new(s))
        }
    }

    /// Number of bytes.
    pub fn len(&self) -> (r: usize)
        requires
            self.wf(),
        ensures
            r == self@.len(),
    {
        self.len as usize
    }

    /// The bytes.
    pub fn as_bytes(&self) -> (r: &[u8])
        requires
            self.wf(),
        ensures
            r@ == self@,
    {
        vstd::slice::slice_subrange(self.buf.as_slice(), 0, self.len as usize)
    }

    /// The bytes read as a string.
    pub fn as_str(&self) -> (r: &str)
        requires
            self.wf(),
        ensures
            r.spec_bytes() == self@,
    {
        match str_from_utf8(self.as_bytes()) {
            Some(s) => s,
            None => {
                assert(false);
                ""
            },
        }
    }

    /// The bytes, to write through: whatever is written through them is what
    /// the inline string holds afterwards, which reads as a string again
    /// exactly when those bytes are UTF-8.
    pub fn as_bytes_mut(&mut self) -> (r: &mut [u8])
        requires
            old(self).wf(),
        ensures
            r@ == old(self)@,
            final(self)@ == final(r)@,
            final(self).wf() == valid_utf8(final(r)@),
    {
        let len = self.len as usize;
        let whole: &mut [u8] = &mut self.buf;
        let (head, tail) = whole.split_at_mut(len);
        proof {
            assert(has_resolved(tail));
        }
        head
    }

    /// The bytes read as a string, to write through: whatever is written
    /// through it is what the inline string holds afterwards.
    pub fn as_str_mut(&mut self) -> (r: &mut str)
        requires
            old(self).wf(),
        ensures
            r.spec_bytes() == old(self)@,
            final(self)@ == final(r).spec_bytes(),
            final(self).wf(),
    {
        broadcast use vstd::utf8::encode_utf8_valid_utf8;
        let len = self.len as usize;
        let whole: &mut [u8] = &mut self.buf;
        let (head, tail) = whole.split_at_mut(len);
        proof {
            assert(has_resolved(tail));
        }
        str_from_utf8_mut(head).unwrap()
    }
}

/// Where a [UString] keeps its bytes.
#[derive(Debug, Clone)]
pub enum Inner<A> {
    Inline(Inline),
    Heap(KString<A>),
}

impl<A> View for Inner<A> {
    type V = Seq<u8>;

    open spec fn view(&self) -> Seq<u8> {
        match self {
            Inner::Inline(i) => i@,
            Inner::Heap(k) => k@,
        }
    }
}

impl<A> Inner<A> {
    /// The bytes read as UTF-8.
    pub open spec fn wf(&self) -> bool {
        match self {
            Inner::Inline(i) => i.wf(),
            Inner::Heap(k) => k.is_utf8(),
        }
    }

    /// Inline storage of no bytes.
    pub fn empty() -> (r: Self)
        ensures
            r@ == Seq::<u8>::empty(),
            r is Inline,
            r.wf(),
    {
        Inner::Inline(Inline::empty())
    }

    /// `s` kept inline when it has at most [INLINE_LEN] bytes, otherwise in a
    /// [KString] over `alloc`.
    pub fn new_in(s: &str, alloc: A) -> (r: Self)
        ensures
            r@ == s.spec_bytes(),
            r is Inline <==> s.spec_bytes().len() <= INLINE_LEN,
            r.wf(),
            r matches Inner::Heap(k) ==> k.allocator_spec() == alloc,
    {
        if let Some(inl) = Inline::try_new(s) {
            Inner::Inline(inl)
        } else {
            Inner::Heap(KString::from_str_in(s, alloc))
        }
    }

    /// The allocator handle, when the bytes are not inline.
    pub fn allocator(&self) -> (r: Option<&A>)
        ensures
            r is Some <==> self is Heap,
            r matches Some(a) ==> self matches Inner::Heap(k) && *a == k.allocator_spec(),
    {
        match self {
            Inner::Inline(_) => None,
            Inner::Heap(kstring) => Some(kstring.allocator()),
        }
    }

    /// The bytes read as a string.
    pub fn as_str(&self) -> (r: &str)
        requires
            self.wf(),
        ensures
            r.spec_bytes() == self@,
    {
        match self {
            Inner::Inline(inline) => inline.as_str(),
            Inner::Heap(kstring) => kstring.as_str(),
        }
    }

    /// The bytes.
    pub fn as_bytes(&self) -> (r: &[u8])
        requires
            self.wf(),
        ensures
            r@ == self@,
    {
        match self {
            Inner::Inline(inline) => inline.as_bytes(),
            Inner::Heap(kstring) => kstring.as_bytes(),
        }
    }
}

impl<A> Inner<A> {
    /// The bytes, to write through: whatever is written through them is what
    /// the storage holds afterwards, which reads as a string again exactly
    /// when those bytes are UTF-8.
    pub fn as_bytes_mut(&mut self) -> (r: &mut [u8])
        requires
            old(self).wf(),
        ensures
            r@ == old(self)@,
            final(self)@ == final(r)@,
            final(self).wf() == valid_utf8(final(r)@),
            (*old(self) is Inline) == (*final(self) is Inline),
    {
        match self {
            Inner::Inline(inline) => inline.as_bytes_mut(),
            Inner::Heap(kstring) => kstring.as_bytes_mut(),
        }
    }

    /// The bytes read as a string, to write through: whatever is written
    /// through it is what the storage holds afterwards.
    pub fn as_str_mut(&mut self) -> (r: &mut str)
        requires
            old(self).wf(),
        ensures
            r.spec_bytes() == old(self)@,
            final(self)@ == final(r).spec_bytes(),
            final(self).wf(),
            (*old(self) is Inline) == (*final(self) is Inline),
    {
        broadcast use vstd::utf8::encode_utf8_valid_utf8;
        match self {
            Inner::Inline(inline) => inline.as_str_mut(),
            Inner::Heap(kstring) => kstring.as_str_mut(),
        }
    }
}

impl Inner<Global> {
    /// `s` kept inline when it has at most [INLINE_LEN] bytes, otherwise in a
    /// [KString] over the process heap.
    pub fn new(s: &str) -> (r: Self)
        ensures
            r@ == s.spec_bytes(),
            r is Inline <==> s.spec_bytes().len() <= INLINE_LEN,
            r.wf(),
    {
        if let Some(inl) = Inline::try_new(s) {
            Inner::Inline(inl)
        } else {
            Inner::Heap(KString::from_str(s))
        }
    }
}

impl<A> Default for Inner<A> {
    fn default() -> (r: Self)
        ensures
            r@ == Seq::<u8>::empty(),
            r is Inline,
    {
        Self::empty()
    }
}

/// A UTF-8 string that keeps at most [INLINE_LEN] bytes inline and longer
/// contents in a [KString].
#[derive(Debug)]
pub struct UString<A>(Inner<A>);

impl<A> View for UString<A> {
    type V = Seq<u8>;

    closed spec fn view(&self) -> Seq<u8> {
        self.0@
    }
}

impl<A> UString<A> {
    /// The bytes read as UTF-8.
    pub closed spec fn wf(&self) -> bool {
        self.0.wf()
    }

    /// Whether the bytes are kept inline.
    pub closed spec fn is_inline(&self) -> bool {
        self.0 is Inline
    }

    /// Where the string keeps its bytes.
    pub closed spec fn inner_spec(&self) -> Inner<A> {
        self.0
    }

    /// The empty string, kept inline.
    pub fn empty() -> (r: Self)
        ensures
            r@ == Seq::<u8>::empty(),
            r.is_inline(),
            r.wf(),
    {
        UString(Inner::empty())
    }

    /// `s`, kept inline when it has at most [INLINE_LEN] bytes, otherwise over
    /// `alloc`.
    pub fn new_in(s: &str, alloc: A) -> (r: Self)
        ensures
            r@ == s.spec_bytes(),
            r.is_inline() <==> s.spec_bytes().len() <= INLINE_LEN,
            r.wf(),
            r.inner_spec() matches Inner::Heap(k) ==> k.allocator_spec() == alloc,
    {
        UString(Inner::new_in(s, alloc))
    }

    /// The string.
    pub fn as_str(&self) -> (r: &str)
        requires
            self.wf(),
        ensures
            r.spec_bytes() == self@,
    {
        Inner::<A>::as_str(&self.0)
    }

    /// The string, to write through: whatever is written through it is what
    /// the string holds afterwards, kept where it was kept before.
    pub fn as_str_mut(&mut self) -> (r: &mut str)
        requires
            old(self).wf(),
        ensures
            r.spec_bytes() == old(self)@,
            final(self)@ == final(r).spec_bytes(),
            final(self).wf(),
            final(self).is_inline() == old(self).is_inline(),
    {
        Inner::<A>::as_str_mut(&mut self.0)
    }

    /// The bytes.
    pub fn as_bytes(&self) -> (r: &[u8])
        requires
            self.wf(),
        ensures
            r@ == self@,
    {
        Inner::<A>::as_bytes(&self.0)
    }

    /// The bytes, to write through: whatever is written through them is what
    /// the string holds afterwards, which reads as a string again exactly
    /// when those bytes are UTF-8.
    pub fn as_bytes_mut(&mut self) -> (r: &mut [u8])
        requires
            old(self).wf(),
        ensures
            r@ == old(self)@,
            final(self)@ == final(r)@,
            final(self).wf() == valid_utf8(final(r)@),
            final(self).is_inline() == old(self).is_inline(),
    {
        Inner::<A>::as_bytes_mut(&mut self.0)
    }

    /// Number of bytes.
    pub fn len(&self) -> (r: usize)
        requires
            self.wf(),
        ensures
            r == self@.len(),
    {
        self.as_bytes().len()
    }

    /// The string as a `String`.
    pub fn to_string(&self) -> (r: String)
        requires
            self.wf(),
        ensures
            r@ == vstd::utf8::decode_utf8(self@),
    {
        let s = self.as_str();
        proof {
            vstd::utf8::encode_utf8_decode_utf8(s@);
        }
        s.to_owned()
    }
}

impl<A> core::ops::Deref for UString<A> {
    type Target = str;

    /// The string, as [UString::as_str] reads it.
    fn deref(&self) -> (r: &str)
        ensures
            self.wf() ==> r.spec_bytes() == self@,
    {
        match &self.0 {
            Inner::Inline(inline) => &**inline,
            Inner::Heap(kstring) => match kstring.try_utf8() {
                Ok(s) => s,
                Err(_) => "",
            },
        }
    }
}

impl core::ops::Deref for Inline {
    type Target = str;

    /// The string, as [Inline::as_str] reads it.
    fn deref(&self) -> (r: &str)
        ensures
            self.wf() ==> r.spec_bytes() == self@,
    {
        if self.len as usize <= INLINE_LEN {
            let bytes = vstd::slice::slice_subrange(self.buf.as_slice(), 0, self.len as usize);
            match str_from_utf8(bytes) {
                Some(s) => s,
                None => "",
            }
        } else {
            ""
        }
    }
}

impl UString<Global> {
    /// `s`, kept inline when it has at most [INLINE_LEN] bytes, otherwise on
    /// the process heap.
    pub fn new(s: &str) -> (r: Self)
        ensures
            r@ == s.spec_bytes(),
            r.is_inline() <==> s.spec_bytes().len() <= INLINE_LEN,
            r.wf(),
    {
        UString(Inner::new(s))
    }
}

impl<A> Default for UString<A> {
    fn default() -> (r: Self)
        ensures
            r@ == Seq::<u8>::empty(),
            r.is_inline(),
            r.wf(),
    {
        Self::empty()
    }
}

/// Reading back: a string kept in a [UString] and read back with
/// [UString::as_str] is the string that was put in, character for
/// character.
pub proof fn law_ustring_round_trip<A>(s: &str, u: UString<A>, back: &str)
    requires
        u@ == s.spec_bytes(),
        back.spec_bytes() == u@,
    ensures
        back@ == s@,
{
    vstd::utf8::encode_utf8_decode_utf8(s@);
    vstd::utf8::encode_utf8_decode_utf8(back@);
}

} // verus!
