//! A map from strings to values that places each entry at the slot its key's
//! FNV-1a hash names. A new entry takes its slot over, whatever was there.
use vstd::prelude::*;
use vstd::string::StringSliceAdditionalSpecFns;
use vstd::utf8::valid_utf8;
use crate::buf::kstring::{KString, str_from_utf8};
use crate::hash::fnv::{fnv1a64, hash_string_const};
use crate::region::Global;
use core::marker::PhantomData;

verus! {

/// Bytes an inline key can hold.
pub const INLINE_KEY_LEN: usize = 23;

/// A key of up to [INLINE_KEY_LEN] bytes of UTF-8, kept in place.
#[derive(Clone, Copy, Debug)]
pub struct InlineKey {
    len: u8,
    buf: [u8; 23],
}

impl View for InlineKey {
    type V = Seq<u8>;

    closed spec fn view(&self) -> Seq<u8> {
        self.buf@.subrange(0, self.len as int)
    }
}

impl InlineKey {
    /// The length never exceeds the buffer, and the bytes in use are UTF-8.
    #[verifier::type_invariant]
    spec fn inv(&self) -> bool {
        &&& self.len <= 23
        &&& valid_utf8(self.buf@.subrange(0, self.len as int))
    }

    /// The empty key.
    pub fn new() -> (r: Self)
        ensures
            r@ == Seq::<u8>::empty(),
    {
        let r = InlineKey { len: 0, buf: [0u8; 23] };
        proof {
            assert(r.buf@.subrange(0, 0) =~= Seq::<u8>::empty());
            vstd::utf8::encode_utf8_valid_utf8(Seq::<char>::empty());
            assert(vstd::utf8::encode_utf8(Seq::<char>::empty()) =~= Seq::<u8>::empty());
        }
        r
    }

    /// `s` as an inline key, if it has at most [INLINE_KEY_LEN] bytes.
    pub fn from_str(s: &str) -> (r: Option<Self>)
        ensures
            r is Some <==> s.spec_bytes().len() <= INLINE_KEY_LEN,
            r matches Some(k) ==> k@ == s.spec_bytes(),
    {
        let bytes = s.as_bytes();
        if bytes.len() > INLINE_KEY_LEN {
            None
        } else {
            let len = bytes.len();
            let mut buf = [0u8; 23];
            let mut i: usize = 0;
            while i < len
                invariant
                    len <= 23,
                    len == bytes@.len(),
                    i <= len,
                    buf@.len() == 23,
                    forall|k: int| 0 <= k < i ==> buf@[k] == bytes@[k],
                decreases len - i,
            {
                buf[i] = bytes[i];
                i = i + 1;
            }
            proof {
                assert(buf@.subrange(0, len as int) =~= bytes@);
                vstd::utf8::encode_utf8_valid_utf8(s@);
            }
            #[verifier::truncate]
            let l = len as u8;
            Some(InlineKey { len: l, buf })
        }
    }

    /// Number of bytes.
    pub fn len(&self) -> (r: usize)
        ensures
            r == self@.len(),
    {
        proof {
            use_type_invariant(self);
        }
        self.len as usize
    }

    /// The key read as a string.
    pub fn as_str(&self) -> (r: &str)
        ensures
            r.spec_bytes() == self@,
    {
        proof {
            use_type_invariant(self);
        }
        let b = vstd::slice::slice_subrange(self.buf.as_slice(), 0, self.len as usize);
        match str_from_utf8(b) {
            Some(s) => s,
            None => {
                assert(false);
                ""
            },
        }
    }
}

impl core::ops::Deref for InlineKey {
    type Target = str;

    fn deref(&self) -> (r: &str)
        ensures
            r.spec_bytes() == self@,
    {
        self.as_str()
    }
}

/// A key of the map: none, a short key kept inline, or a longer one in a
/// [KString].
#[derive(Debug, Clone)]
pub enum Key<A> {
    Empty,
    Inline(InlineKey),
    Heap(KString<A>),
}

impl<A> View for Key<A> {
    type V = Seq<u8>;

    open spec fn view(&self) -> Seq<u8> {
        match self {
            Key::Empty => Seq::<u8>::empty(),
            Key::Inline(k) => k@,
            Key::Heap(k) => k@,
        }
    }
}

/// The slot a key with bytes `key` is looked up at, in `cap` slots.
pub open spec fn lookup_slot(key: Seq<u8>, cap: nat) -> int {
    ((fnv1a64(key) as usize) as nat % cap) as int
}

/// The slot an entry with key bytes `key` moves to when the map grows to
/// `cap` slots.
pub open spec fn rehash_slot(key: Seq<u8>, cap: nat) -> int {
    ((fnv1a64(key) as nat) % cap) as int
}

impl<A> Key<A> {
    /// The key's bytes read as UTF-8.
    pub open spec fn wf(&self) -> bool {
        match self {
            Key::Heap(k) => k.is_utf8(),
            _ => true,
        }
    }

    /// No key.
    pub fn new() -> (r: Self)
        ensures
            r@ == Seq::<u8>::empty(),
            r is Empty,
            r.wf(),
    {
        Key::Empty
    }

    /// An empty key kept in a [KString] over `alloc`.
    pub fn new_in(alloc: A) -> (r: Self)
        ensures
            r@ == Seq::<u8>::empty(),
            r is Heap,
            r.wf(),
    {
        proof {
            vstd::utf8::encode_utf8_valid_utf8(Seq::<char>::empty());
            assert(vstd::utf8::encode_utf8(Seq::<char>::empty()) =~= Seq::<u8>::empty());
        }
        Key::Heap(KString::new_in(alloc))
    }

    /// Whether the key has no bytes.
    pub fn is_empty(&self) -> (r: bool)
        ensures
            r == (self@.len() == 0),
    {
        match self {
            Key::Empty => true,
            Key::Inline(inline_key) => inline_key.len() == 0,
            Key::Heap(kstring) => kstring.len() == 0,
        }
    }

    /// The FNV-1a hash of the key's bytes.
    pub fn hash64(&self) -> (r: u64)
        requires
            self.wf(),
        ensures
            r == fnv1a64(self@),
    {
        hash_string_const(self.as_str())
    }

    /// The slot the key falls in among `size` slots.
    pub fn hash_index(&self, size: usize) -> (r: usize)
        requires
            self.wf(),
            size > 0,
        ensures
            r == lookup_slot(self@, size as nat),
            r < size,
    {
        #[verifier::truncate]
        let h = self.hash64() as usize;
        h % size
    }

    /// The key read as a string.
    pub fn as_str(&self) -> (r: &str)
        requires
            self.wf(),
        ensures
            r.spec_bytes() == self@,
    {
        match self {
            Key::Empty => {
                let e = "";
                proof {
                    reveal_strlit("");
                    vstd::utf8::encode_utf8_valid_utf8(e@);
                    assert(e@ =~= Seq::<char>::empty());
                    assert(vstd::utf8::encode_utf8(Seq::<char>::empty()) =~= Seq::<u8>::empty());
                }
                e
            },
            Key::Inline(inline_key) => inline_key.as_str(),
            Key::Heap(kstring) => kstring.as_str(),
        }
    }

    /// `s` as a key: inline when it has at most [INLINE_KEY_LEN] bytes,
    /// otherwise in a [KString] over `alloc`.
    pub fn from_str_in(s: &str, alloc: A) -> (r: Self)
        ensures
            r@ == s.spec_bytes(),
            r.wf(),
            r is Inline <==> s.spec_bytes().len() <= INLINE_KEY_LEN,
            r is Heap <==> s.spec_bytes().len() > INLINE_KEY_LEN,
            r matches Key::Heap(k) ==> k.allocator_spec() == alloc,
    {
        if s.as_bytes().len() > INLINE_KEY_LEN {
            Key::Heap(KString::from_str_in(s, alloc))
        } else {
            match InlineKey::from_str(s) {
                Some(k) => Key::Inline(k),
                None => {
                    assert(false);
                    Key::Empty
                },
            }
        }
    }
}

impl Key<Global> {
    /// `s` as a key over the process heap.
    pub fn from_str(s: &str) -> (r: Self)
        ensures
            r@ == s.spec_bytes(),
            r.wf(),
    {
        Self::from_str_in(s, Global)
    }
}

impl<A> Default for Key<A> {
    fn default() -> (r: Self)
        ensures
            r is Empty,
    {
        Key::Empty
    }
}

/// An entry of the map.
#[derive(Debug, Clone)]
pub struct KeyValue<V, A> {
    pub key: Key<A>,
    pub val: V,
}

impl<V, A> KeyValue<V, A> {
    /// An entry for `key` and `val`.
    pub fn new(key: Key<A>, val: V) -> (r: Self)
        ensures
            r.key == key,
            r.val == val,
    {
        KeyValue { key, val }
    }

    /// Whether the key has no bytes.
    pub fn is_empty(&self) -> (r: bool)
        ensures
            r == (self.key@.len() == 0),
    {
        self.key.is_empty()
    }

    /// The FNV-1a hash of the key.
    pub fn key_hash(&self) -> (r: u64)
        requires
            self.key.wf(),
        ensures
            r == fnv1a64(self.key@),
    {
        self.key.hash64()
    }

    /// The key read as a string.
    pub fn key_str(&self) -> (r: &str)
        requires
            self.key.wf(),
        ensures
            r.spec_bytes() == self.key@,
    {
        self.key.as_str()
    }

    /// The value.
    pub fn value(&self) -> (r: &V)
        ensures
            *r == self.val,
    {
        &self.val
    }
}

/// A slot of the map seen as plain values: the key's bytes and the value.
pub open spec fn slot_view<V, A>(o: Option<KeyValue<V, A>>) -> Option<(Seq<u8>, V)> {
    match o {
        Some(kv) => Some((kv.key@, kv.val)),
        None => None,
    }
}

/// The slots of a buffer seen as plain values.
pub open spec fn slots_view<V, A>(buf: Seq<Option<KeyValue<V, A>>>) -> Seq<Option<(Seq<u8>, V)>> {
    buf.map_values(|o: Option<KeyValue<V, A>>| slot_view(o))
}

/// The slots after moving, first to last, every entry of `entries` into
/// `cap` empty slots, each at the slot its key names; a later entry takes a
/// slot over from an earlier one.
pub open spec fn rehash<V>(entries: Seq<Option<(Seq<u8>, V)>>, cap: nat) -> Seq<Option<(Seq<u8>, V)>>
    decreases entries.len(),
{
    if entries.len() == 0 {
        Seq::new(cap, |i: int| None::<(Seq<u8>, V)>)
    } else {
        let r = rehash(entries.drop_last(), cap);
        match entries.last() {
            Some(kv) => r.update(rehash_slot(kv.0, cap), Some(kv)),
            None => r,
        }
    }
}

pub proof fn lemma_rehash_len<V>(entries: Seq<Option<(Seq<u8>, V)>>, cap: nat)
    requires
        cap > 0,
    ensures
        rehash(entries, cap).len() == cap,
    decreases entries.len(),
{
    if entries.len() > 0 {
        lemma_rehash_len(entries.drop_last(), cap);
    }
}

/// The map as plain values: its slots and the number of insertions made.
pub struct FnvHashMapView<V> {
    pub slots: Seq<Option<(Seq<u8>, V)>>,
    pub len: nat,
}

/// Whether `len` entries fill at least three quarters of `cap` slots.
pub open spec fn over_load(len: nat, cap: nat) -> bool {
    4 * len >= 3 * cap
}

/// The slots an insertion writes into: 24 empty slots for a map without
/// any, then twice as many (with every entry moved) once the map is at
/// least three quarters full.
pub open spec fn slots_before_write<V>(m: FnvHashMapView<V>) -> Seq<Option<(Seq<u8>, V)>> {
    let s0 = if m.slots.len() == 0 {
        Seq::new(24, |i: int| None::<(Seq<u8>, V)>)
    } else {
        m.slots
    };
    if over_load(m.len, s0.len()) {
        rehash(s0, 2 * s0.len())
    } else {
        s0
    }
}

/// The map after inserting `value` under a key with bytes `key`: the entry
/// takes over the slot its key names.
pub open spec fn insert_spec<V>(m: FnvHashMapView<V>, key: Seq<u8>, value: V) -> FnvHashMapView<V> {
    let s = slots_before_write(m);
    FnvHashMapView {
        slots: s.update(lookup_slot(key, s.len()), Some((key, value))),
        len: m.len + 1,
    }
}

/// What a lookup of a key with bytes `key` finds: the value of whatever entry
/// holds the slot the key names.
pub open spec fn lookup_spec<V>(m: FnvHashMapView<V>, key: Seq<u8>) -> Option<V> {
    if m.slots.len() == 0 {
        None
    } else {
        match m.slots[lookup_slot(key, m.slots.len())] {
            Some(kv) => Some(kv.1),
            None => None,
        }
    }
}

/// Keys of the occupied slots, in slot order.
pub open spec fn present_keys<V>(slots: Seq<Option<(Seq<u8>, V)>>) -> Seq<Seq<u8>>
    decreases slots.len(),
{
    if slots.len() == 0 {
        Seq::empty()
    } else {
        let r = present_keys(slots.drop_last());
        match slots.last() {
            Some(kv) => r.push(kv.0),
            None => r,
        }
    }
}

/// Values of the occupied slots, in slot order.
pub open spec fn present_values<V>(slots: Seq<Option<(Seq<u8>, V)>>) -> Seq<V>
    decreases slots.len(),
{
    if slots.len() == 0 {
        Seq::empty()
    } else {
        let r = present_values(slots.drop_last());
        match slots.last() {
            Some(kv) => r.push(kv.1),
            None => r,
        }
    }
}

/// A map from strings to values, addressed by the FNV-1a hash of the key.
#[derive(Debug, Clone)]
pub struct FnvHashMap<V, A> {
    buf: Vec<Option<KeyValue<V, A>>>,
    len: usize,
    alloc: A,
}

impl<V, A> View for FnvHashMap<V, A> {
    type V = FnvHashMapView<V>;

    closed spec fn view(&self) -> FnvHashMapView<V> {
        FnvHashMapView { slots: slots_view(self.buf@), len: self.len as nat }
    }
}

impl<V> FnvHashMap<V, Global> {
    /// An empty map with no slots over the process heap.
    pub fn new() -> (r: Self)
        ensures
            r@.slots.len() == 0,
            r@.len == 0,
            r.wf(),
    {
        proof {
            assert(slots_view(Seq::<Option<KeyValue<V, Global>>>::empty()) =~= Seq::empty());
        }
        FnvHashMap { buf: Vec::new(), len: 0, alloc: Global }
    }
}

impl<V> Default for FnvHashMap<V, Global> {
    fn default() -> (r: Self)
        ensures
            r@.slots.len() == 0,
            r@.len == 0,
            r.wf(),
    {
        Self::new()
    }
}

impl<V, A> FnvHashMap<V, A> {
    /// Every stored key reads as UTF-8.
    pub closed spec fn wf(&self) -> bool {
        forall|i: int|
            0 <= i < self.buf@.len() ==> (#[trigger] self.buf@[i] matches Some(kv) ==> kv.key.wf())
    }

    pub closed spec fn allocator_spec(&self) -> A {
        self.alloc
    }

    /// An empty map with no slots over `alloc`.
    pub fn new_in(alloc: A) -> (r: Self)
        ensures
            r@.slots.len() == 0,
            r@.len == 0,
            r.wf(),
            r.allocator_spec() == alloc,
    {
        proof {
            assert(slots_view(Seq::<Option<KeyValue<V, A>>>::empty()) =~= Seq::empty());
        }
        FnvHashMap { buf: Vec::new(), len: 0, alloc }
    }

    /// Number of slots.
    pub fn capacity(&self) -> (r: usize)
        ensures
            r == self@.slots.len(),
    {
        self.buf.len()
    }

    /// Number of insertions made.
    pub fn len(&self) -> (r: usize)
        ensures
            r == self@.len,
    {
        self.len
    }

    /// An empty map with `size` empty slots over `alloc`.
    pub fn with_size_in(size: usize, alloc: A) -> (r: Self)
        ensures
            r@.slots == Seq::new(size as nat, |i: int| None::<(Seq<u8>, V)>),
            r@.len == 0,
            r.wf(),
            r.allocator_spec() == alloc,
    {
        let buf = Self::empty_slots(size);
        proof {
            assert(slots_view(buf@) =~= Seq::new(size as nat, |i: int| None::<(Seq<u8>, V)>));
        }
        FnvHashMap { buf, len: 0, alloc }
    }

    fn empty_slots(n: usize) -> (r: Vec<Option<KeyValue<V, A>>>)
        ensures
            r@.len() == n,
            forall|i: int| 0 <= i < n ==> r@[i] is None,
    {
        let mut v: Vec<Option<KeyValue<V, A>>> = Vec::new();
        let mut i: usize = 0;
        while i < n
            invariant
                i <= n,
                v@.len() == i,
                forall|j: int| 0 <= j < i ==> v@[j] is None,
            decreases n - i,
        {
            v.push(None);
            i = i + 1;
        }
        v
    }

    /// Whether the entries fill at least three quarters of the slots.
    fn over_load_factor(&self) -> (r: bool)
        ensures
            r == over_load(self@.len, self@.slots.len()),
    {
        (self.len as u128) * 4 >= (self.buf.len() as u128) * 3
    }

    /// Moves every entry, first to last, into twice as many slots.
    fn grow(&mut self)
        requires
            old(self).wf(),
            old(self)@.slots.len() * 2 <= usize::MAX,
        ensures
            final(self).wf(),
            final(self)@.slots == rehash(old(self)@.slots, 2 * old(self)@.slots.len()),
            old(self)@.slots.len() > 0 ==> final(self)@.slots.len() == 2 * old(self)@.slots.len(),
            final(self)@.len == old(self)@.len,
            final(self).allocator_spec() == old(self).allocator_spec(),
    {
        let cap = self.buf.len() * 2;
        let mut next = Self::empty_slots(cap);
        let mut old_buf: Vec<Option<KeyValue<V, A>>> = Vec::new();
        core::mem::swap(&mut old_buf, &mut self.buf);
        let ghost entries = slots_view(old_buf@);
        let ghost orig = old_buf@;
        let n = old_buf.len();
        proof {
            assert(slots_view(next@) =~= rehash(entries.subrange(0, 0), cap as nat));
        }
        let mut i: usize = 0;
        while i < n
            invariant
                n == old_buf@.len(),
                n == orig.len(),
                entries == slots_view(orig),
                i <= n,
                cap > 0 || n == 0,
                next@.len() == cap,
                forall|j: int| i <= j < n ==> old_buf@[j] == orig[j],
                forall|j: int| 0 <= j < n ==> (#[trigger] orig[j] matches Some(kv) ==> kv.key.wf()),
                forall|j: int| 0 <= j < cap ==> (#[trigger] next@[j] matches Some(kv) ==> kv.key.wf()),
                slots_view(next@) == rehash(entries.subrange(0, i as int), cap as nat),
            decreases n - i,
        {
            let mut item: Option<KeyValue<V, A>> = None;
            old_buf.set_and_swap(i, &mut item);
            proof {
                let e = entries.subrange(0, i as int + 1);
                assert(e.drop_last() =~= entries.subrange(0, i as int));
                assert(e.last() == slot_view(orig[i as int]));
            }
            match item {
                Some(kv) => {
                    let h = kv.key_hash();
                    let j = (h % (cap as u64)) as usize;
                    next.set(j, Some(kv));
                    proof {
                        assert(slots_view(next@) =~= rehash(
                            entries.subrange(0, i as int + 1),
                            cap as nat,
                        ));
                    }
                },
                None => {
                },
            }
            i = i + 1;
        }
        proof {
            assert(entries.subrange(0, n as int) =~= entries);
            if n > 0 {
                lemma_rehash_len(entries, cap as nat);
            }
        }
        self.buf = next;
    }

    /// Inserts `value` under `key`. The map first gets 24 slots if it has
    /// none, and doubles its slots once it is three quarters full; the entry
    /// then takes over the slot its key names. The count of insertions grows
    /// by one.
    pub fn insert(&mut self, key: &str, value: V)
        where
            A: Copy,
        requires
            old(self).wf(),
            old(self)@.len < usize::MAX,
            old(self)@.slots.len() > 0 && over_load(old(self)@.len, old(self)@.slots.len())
                ==> old(self)@.slots.len() * 2 <= usize::MAX,
        ensures
            final(self).wf(),
            final(self)@ == insert_spec(old(self)@, key.spec_bytes(), value),
            final(self).allocator_spec() == old(self).allocator_spec(),
    {
        if self.capacity() == 0 {
            self.buf = Self::empty_slots(24);
            proof {
                assert(slots_view(self.buf@) =~= Seq::new(24, |i: int| None::<(Seq<u8>, V)>));
            }
        }
        if self.over_load_factor() {
            self.grow();
        }
        let alloc = self.alloc;
        let k = Key::from_str_in(key, alloc);
        let i = k.hash_index(self.capacity());
        let entry = KeyValue::new(Key::from_str_in(key, alloc), value);
        self.buf.set(i, Some(entry));
        self.len = self.len + 1;
        proof {
            assert(slots_view(self.buf@) =~= insert_spec(old(self)@, key.spec_bytes(), value).slots);
        }
    }

    /// The value in the slot `key` names, if that slot is occupied.
    pub fn try_get(&self, key: &str) -> (r: Option<&V>)
        ensures
            r is Some <==> lookup_spec(self@, key.spec_bytes()) is Some,
            r matches Some(v) ==> lookup_spec(self@, key.spec_bytes()) == Some(*v),
    {
        if self.capacity() == 0 {
            return None;
        }
        let h = hash_string_const(key);
        #[verifier::truncate]
        let hu = h as usize;
        let i = hu % self.capacity();
        match &self.buf[i] {
            Some(elem) => Some(&elem.val),
            None => None,
        }
    }

    /// The value in the slot `key` names, which must be occupied.
    pub fn get(&self, key: &str) -> (r: &V)
        requires
            lookup_spec(self@, key.spec_bytes()) is Some,
        ensures
            lookup_spec(self@, key.spec_bytes()) == Some(*r),
    {
        self.try_get(key).unwrap()
    }

    /// Whether the slot `key` names is occupied.
    pub fn has(&self, key: &str) -> (r: bool)
        ensures
            r == lookup_spec(self@, key.spec_bytes()) is Some,
    {
        self.try_get(key).is_some()
    }
}

/// The bytes of each string of `keys`.
pub open spec fn keys_bytes(keys: Seq<&str>) -> Seq<Seq<u8>> {
    keys.map_values(|k: &str| k.spec_bytes())
}

/// The keys of a map's occupied slots, handed out one at a time in slot
/// order.
pub struct KeyIter<'a, A> {
    keys: Vec<&'a str>,
    bi: usize,
    _pd: PhantomData<A>,
}

impl<'a, A> KeyIter<'a, A> {
    /// The keys still to be handed out.
    pub closed spec fn remaining(&self) -> Seq<Seq<u8>> {
        keys_bytes(self.keys@.subrange(self.bi as int, self.keys@.len() as int))
    }

    pub closed spec fn wf(&self) -> bool {
        self.bi <= self.keys@.len()
    }

    /// The next key, if any is left.
    pub fn next(&mut self) -> (r: Option<&'a str>)
        requires
            old(self).wf(),
        ensures
            final(self).wf(),
            old(self).remaining().len() == 0 ==> r is None && final(self).remaining() == old(
                self,
            ).remaining(),
            old(self).remaining().len() > 0 ==> (r matches Some(k) && k.spec_bytes() == old(
                self,
            ).remaining()[0]) && final(self).remaining() == old(self).remaining().drop_first(),
    {
        if self.bi >= self.keys.len() {
            return None;
        }
        let k = self.keys[self.bi];
        self.bi = self.bi + 1;
        proof {
            assert(keys_bytes(self.keys@.subrange(self.bi as int, self.keys@.len() as int))
                =~= keys_bytes(self.keys@.subrange(self.bi - 1, self.keys@.len() as int)).drop_first());
        }
        Some(k)
    }
}

/// The values of a map's occupied slots, handed out one at a time in slot
/// order.
pub struct ValueIter<'a, V, A> {
    vals: Vec<&'a V>,
    bi: usize,
    _pd: PhantomData<A>,
}

impl<'a, V, A> ValueIter<'a, V, A> {
    /// The values still to be handed out.
    pub closed spec fn remaining(&self) -> Seq<V> {
        self.vals@.subrange(self.bi as int, self.vals@.len() as int).map_values(|v: &V| *v)
    }

    pub closed spec fn wf(&self) -> bool {
        self.bi <= self.vals@.len()
    }

    /// The next value, if any is left.
    pub fn next(&mut self) -> (r: Option<&'a V>)
        requires
            old(self).wf(),
        ensures
            final(self).wf(),
            old(self).remaining().len() == 0 ==> r is None && final(self).remaining() == old(
                self,
            ).remaining(),
            old(self).remaining().len() > 0 ==> (r matches Some(v) && *v == old(
                self,
            ).remaining()[0]) && final(self).remaining() == old(self).remaining().drop_first(),
    {
        if self.bi >= self.vals.len() {
            return None;
        }
        let v = self.vals[self.bi];
        self.bi = self.bi + 1;
        proof {
            assert(self.vals@.subrange(self.bi as int, self.vals@.len() as int).map_values(
                |v: &V| *v,
            ) =~= self.vals@.subrange(self.bi - 1, self.vals@.len() as int).map_values(
                |v: &V| *v,
            ).drop_first());
        }
        Some(v)
    }
}

impl<V, A> FnvHashMap<V, A> {
    /// The keys of the occupied slots, in slot order.
    pub fn key_iter<'a>(&'a self) -> (r: KeyIter<'a, A>)
        requires
            self.wf(),
        ensures
            r.wf(),
            r.remaining() == present_keys(self@.slots),
    {
        let mut keys: Vec<&'a str> = Vec::new();
        let mut i: usize = 0;
        while i < self.buf.len()
            invariant
                self.wf(),
                i <= self.buf@.len(),
                keys_bytes(keys@) == present_keys(slots_view(self.buf@).subrange(0, i as int)),
            decreases self.buf@.len() - i,
        {
            proof {
                let e = slots_view(self.buf@).subrange(0, i as int + 1);
                assert(e.drop_last() =~= slots_view(self.buf@).subrange(0, i as int));
            }
            match &self.buf[i] {
                Some(kv) => {
                    let k = kv.key_str();
                    keys.push(k);
                    proof {
                        assert(keys_bytes(keys@) =~= keys_bytes(keys@.drop_last()).push(
                            k.spec_bytes(),
                        ));
                    }
                },
                None => {},
            }
            i = i + 1;
        }
        proof {
            assert(slots_view(self.buf@).subrange(0, i as int) =~= slots_view(self.buf@));
            assert(keys@.subrange(0, keys@.len() as int) =~= keys@);
        }
        KeyIter { keys, bi: 0, _pd: PhantomData }
    }

    /// The values of the occupied slots, in slot order.
    pub fn value_iter<'a>(&'a self) -> (r: ValueIter<'a, V, A>)
        ensures
            r.wf(),
            r.remaining() == present_values(self@.slots),
    {
        let mut vals: Vec<&'a V> = Vec::new();
        let mut i: usize = 0;
        while i < self.buf.len()
            invariant
                i <= self.buf@.len(),
                vals@.map_values(|v: &V| *v) == present_values(
                    slots_view(self.buf@).subrange(0, i as int),
                ),
            decreases self.buf@.len() - i,
        {
            proof {
                let e = slots_view(self.buf@).subrange(0, i as int + 1);
                assert(e.drop_last() =~= slots_view(self.buf@).subrange(0, i as int));
            }
            match &self.buf[i] {
                Some(kv) => {
                    let v = kv.value();
                    vals.push(v);
                    proof {
                        assert(vals@.map_values(|v: &V| *v) =~= vals@.drop_last().map_values(
                            |v: &V| *v,
                        ).push(*v));
                    }
                },
                None => {},
            }
            i = i + 1;
        }
        proof {
            assert(slots_view(self.buf@).subrange(0, i as int) =~= slots_view(self.buf@));
            assert(vals@.subrange(0, vals@.len() as int) =~= vals@);
        }
        ValueIter { vals, bi: 0, _pd: PhantomData }
    }
}

/// Reading back: right after `value` is inserted under `key`, a lookup of
/// `key` finds `value`, the map has slots, and the count of insertions has
/// grown by one.
pub proof fn law_get_after_insert<V>(m: FnvHashMapView<V>, key: Seq<u8>, value: V)
    ensures
        lookup_spec(insert_spec(m, key, value), key) == Some(value),
        insert_spec(m, key, value).slots.len() > 0,
        insert_spec(m, key, value).len == m.len + 1,
{
    let s0 = if m.slots.len() == 0 {
        Seq::new(24, |i: int| None::<(Seq<u8>, V)>)
    } else {
        m.slots
    };
    lemma_rehash_len(s0, 2 * s0.len());
    let s = slots_before_write(m);
    assert(s.len() >= s0.len());
    assert(s.len() > 0);
    let idx = lookup_slot(key, s.len());
    assert(0 <= idx < s.len());
}

/// Filling a free slot adds one value to those the slots hold.
pub proof fn lemma_present_values_fill<V>(s: Seq<Option<(Seq<u8>, V)>>, i: int, kv: (Seq<u8>, V))
    requires
        0 <= i < s.len(),
        s[i] is None,
    ensures
        present_values(s.update(i, Some(kv))).len() == present_values(s).len() + 1,
    decreases s.len(),
{
    let t = s.update(i, Some(kv));
    if i == s.len() - 1 {
        assert(t.drop_last() =~= s.drop_last());
    } else {
        lemma_present_values_fill(s.drop_last(), i, kv);
        assert(t.drop_last() =~= s.drop_last().update(i, Some(kv)));
    }
}

/// Counting: while the length of a map equals the number of values its
/// value iterator yields, an insertion that lands in a free slot (and loses
/// no entry when the slots grow) keeps it so; the empty map starts that way.
pub proof fn law_len_counts_values<V>(m: FnvHashMapView<V>, key: Seq<u8>, value: V)
    requires
        m.len == present_values(m.slots).len(),
        present_values(slots_before_write(m)).len() == m.len,
        slots_before_write(m)[lookup_slot(key, slots_before_write(m).len())] is None,
    ensures
        insert_spec(m, key, value).len == present_values(insert_spec(m, key, value).slots).len(),
        present_values(Seq::<Option<(Seq<u8>, V)>>::empty()).len() == 0,
{
    law_get_after_insert(m, key, value);
    let s = slots_before_write(m);
    let idx = lookup_slot(key, s.len());
    assert(0 <= idx < s.len());
    lemma_present_values_fill(s, idx, (key, value));
}

/// Looking up: a lookup reads only the slot the key's hash names, the FNV-1a
/// hash of the key's bytes modulo the number of slots. An empty slot (or a
/// map without slots) gives nothing; an occupied one gives the value stored
/// there.
pub proof fn law_lookup_reads_hash_slot<V>(m: FnvHashMapView<V>, key: Seq<u8>)
    ensures
        m.slots.len() == 0 ==> lookup_spec(m, key) is None,
        m.slots.len() > 0 ==> ({
            let s = ((fnv1a64(key) as usize) as nat % m.slots.len()) as int;
            &&& 0 <= s < m.slots.len()
            &&& m.slots[s] is None ==> lookup_spec(m, key) is None
            &&& m.slots[s] is Some ==> lookup_spec(m, key) == Some(m.slots[s].unwrap().1)
        }),
        lookup_spec(m, key) is Some ==> exists|s: int|
            0 <= s < m.slots.len() && #[trigger] m.slots[s] is Some && m.slots[s].unwrap().1
                == lookup_spec(m, key).unwrap(),
{
    if m.slots.len() > 0 {
        let s = ((fnv1a64(key) as usize) as nat % m.slots.len()) as int;
        assert(0 <= s < m.slots.len());
        if lookup_spec(m, key) is Some {
            assert(m.slots[s] is Some);
        }
    }
}

/// Growing: moving the entries into `cap` slots puts each entry at the slot
/// the FNV-1a hash of its key names, modulo `cap`. An entry that no later
/// entry displaces from that slot is found there afterwards, and so a lookup
/// of its key in the grown slots gives its value.
pub proof fn law_rehash_places_by_hash<V>(entries: Seq<Option<(Seq<u8>, V)>>, cap: nat, j: int)
    requires
        cap > 0,
        0 <= j < entries.len(),
        entries[j] is Some,
        forall|i: int|
            j < i < entries.len() && (#[trigger] entries[i]) is Some ==> (fnv1a64(
                entries[i].unwrap().0,
            ) as nat) % cap != (fnv1a64(entries[j].unwrap().0) as nat) % cap,
    ensures
        rehash(entries, cap).len() == cap,
        rehash(entries, cap)[((fnv1a64(entries[j].unwrap().0) as nat) % cap) as int]
            == entries[j],
        (fnv1a64(entries[j].unwrap().0) as usize) as nat == fnv1a64(entries[j].unwrap().0) as nat
            ==> lookup_spec(
            FnvHashMapView { slots: rehash(entries, cap), len: 0 },
            entries[j].unwrap().0,
        ) == Some(entries[j].unwrap().1),
    decreases entries.len(),
{
    lemma_rehash_len(entries, cap);
    let n = entries.len() - 1;
    let key = entries[j].unwrap().0;
    let s = ((fnv1a64(key) as nat) % cap) as int;
    lemma_rehash_len(entries.drop_last(), cap);
    if j < n {
        assert forall|i: int|
            j < i < entries.drop_last().len() && (#[trigger] entries.drop_last()[i]) is Some implies (
            fnv1a64(entries.drop_last()[i].unwrap().0) as nat) % cap != (fnv1a64(
                entries.drop_last()[j].unwrap().0,
            ) as nat) % cap by {
            assert(entries.drop_last()[i] == entries[i]);
        }
        law_rehash_places_by_hash(entries.drop_last(), cap, j);
        assert(entries.drop_last()[j] == entries[j]);
        if entries.last() is Some {
            assert(entries[n] is Some);
        }
    }
}

/// Every filled slot after growing holds one of the entries, at the slot the
/// FNV-1a hash of its key names.
pub proof fn law_rehash_only_moves<V>(entries: Seq<Option<(Seq<u8>, V)>>, cap: nat, s: int)
    requires
        cap > 0,
        0 <= s < cap,
        rehash(entries, cap)[s] is Some,
    ensures
        (fnv1a64(rehash(entries, cap)[s].unwrap().0) as nat) % cap == s,
        entries.contains(rehash(entries, cap)[s]),
    decreases entries.len(),
{
    lemma_rehash_len(entries, cap);
    if entries.len() > 0 {
        lemma_rehash_len(entries.drop_last(), cap);
        let n = entries.len() - 1;
        let r = rehash(entries.drop_last(), cap);
        if entries.last() is Some && rehash_slot(entries.last().unwrap().0, cap) == s {
            assert(rehash(entries, cap)[s] == entries[n]);
        } else {
            assert(rehash(entries, cap)[s] == r[s]);
            law_rehash_only_moves(entries.drop_last(), cap, s);
            let w = choose|k: int| 0 <= k < entries.drop_last().len() && entries.drop_last()[k] == r[s];
            assert(entries[w] == r[s]);
        }
    }
}

/// Iterating: the key iterator yields the keys of exactly the occupied slots
/// and the value iterator their values, both in slot order; so both yield as
/// many items as there are occupied slots.
pub proof fn law_iterators_yield_occupied_slots<V>(slots: Seq<Option<(Seq<u8>, V)>>)
    ensures
        present_keys(slots) == slots.filter(|o: Option<(Seq<u8>, V)>| o is Some).map_values(
            |o: Option<(Seq<u8>, V)>| o.unwrap().0,
        ),
        present_values(slots) == slots.filter(|o: Option<(Seq<u8>, V)>| o is Some).map_values(
            |o: Option<(Seq<u8>, V)>| o.unwrap().1,
        ),
        present_keys(slots).len() == present_values(slots).len(),
    decreases slots.len(),
{
    reveal(Seq::filter);
    let occupied = |o: Option<(Seq<u8>, V)>| o is Some;
    let key_of = |o: Option<(Seq<u8>, V)>| o.unwrap().0;
    let value_of = |o: Option<(Seq<u8>, V)>| o.unwrap().1;
    if slots.len() == 0 {
        assert(present_keys(slots) =~= slots.filter(occupied).map_values(key_of));
        assert(present_values(slots) =~= slots.filter(occupied).map_values(value_of));
    } else {
        law_iterators_yield_occupied_slots(slots.drop_last());
        let f0 = slots.drop_last().filter(occupied);
        assert(slots.filter(occupied) == (if occupied(slots.last()) {
            f0.push(slots.last())
        } else {
            f0
        }));
        if slots.last() is Some {
            assert(f0.push(slots.last()).map_values(key_of) =~= f0.map_values(key_of).push(
                slots.last().unwrap().0,
            ));
            assert(f0.push(slots.last()).map_values(value_of) =~= f0.map_values(value_of).push(
                slots.last().unwrap().1,
            ));
        }
    }
}

} // verus!
