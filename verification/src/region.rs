//! Layouts, regions and the allocator interface shared by the allocators of
//! this crate.
//!
//! The allocators here hand out regions of an index-addressed byte buffer:
//! a region is an offset into the buffer and a length. Alignment is measured
//! from the start of the buffer, which is taken to be aligned for every
//! alignment a layout may ask for.
use vstd::prelude::*;
use vstd::arithmetic::power2::is_pow2;
use vstd::layout::valid_layout;

verus! {

/// Size and alignment of a requested block of memory.
#[derive(Clone, Copy, Debug, PartialEq, Eq, Structural)]
pub struct Layout {
    size: usize,
    align: usize,
}

/// The plain values a [Layout] holds.
pub struct LayoutView {
    pub size: nat,
    pub align: nat,
}

impl View for Layout {
    type V = LayoutView;

    closed spec fn view(&self) -> LayoutView {
        LayoutView { size: self.size as nat, align: self.align as nat }
    }
}

/// Whether `n` is a power of two, decided by halving.
pub fn is_power_of_two(n: usize) -> (r: bool)
    ensures
        r == is_pow2(n as int),
{
    reveal(is_pow2);
    if n == 0 {
        return false;
    }
    let mut a = n;
    while a % 2 == 0
        invariant
            a > 0,
            is_pow2(a as int) == is_pow2(n as int),
        decreases a,
    {
        proof {
            reveal(is_pow2);
        }
        a = a / 2;
    }
    a == 1
}

/// Padding that takes position `pos` up to the next multiple of `align`.
pub open spec fn align_pad(pos: int, align: int) -> int {
    if pos % align == 0 {
        0
    } else {
        align - pos % align
    }
}

/// The padding is below the alignment and lands on a multiple of it.
pub proof fn lemma_align_pad(pos: int, align: int)
    requires
        align > 0,
        pos >= 0,
    ensures
        0 <= align_pad(pos, align) < align,
        (pos + align_pad(pos, align)) % align == 0,
{
    vstd::arithmetic::div_mod::lemma_fundamental_div_mod(pos, align);
    let q = pos / align;
    let r = pos % align;
    if r != 0 {
        assert(pos + align - r == align * (q + 1)) by (nonlinear_arith)
            requires
                pos == align * q + r,
        ;
        vstd::arithmetic::div_mod::lemma_mod_multiples_basic(q + 1, align);
        vstd::arithmetic::mul::lemma_mul_is_commutative(q + 1, align);
    }
}

/// Padding that takes `pos` up to the next multiple of `align`.
pub fn pad_to_align(pos: usize, align: usize) -> (r: usize)
    requires
        align > 0,
    ensures
        r == align_pad(pos as int, align as int),
        r < align,
{
    proof {
        lemma_align_pad(pos as int, align as int);
    }
    let rem = pos % align;
    if rem == 0 {
        0
    } else {
        align - rem
    }
}

impl Layout {
    /// A layout is valid when its alignment is a power of two and its size,
    /// rounded up to the alignment, does not exceed `isize::MAX`.
    pub open spec fn wf(&self) -> bool {
        valid_layout(self@.size as usize, self@.align as usize)
    }

    pub proof fn lemma_wf(&self)
        requires
            self.wf(),
        ensures
            self@.align > 0,
            self@.size <= isize::MAX,
            self@.size <= usize::MAX,
            self@.align <= usize::MAX,
    {
        reveal(is_pow2);
    }

    /// The layout of `size` bytes aligned to `align`, if that is a valid
    /// layout.
    pub fn from_size_align(size: usize, align: usize) -> (r: Option<Layout>)
        ensures
            r is Some <==> valid_layout(size, align),
            r matches Some(l) ==> l@.size == size && l@.align == align && l.wf(),
    {
        if !is_power_of_two(align) {
            return None;
        }
        proof {
            reveal(is_pow2);
        }
        let max: usize = isize::MAX as usize;
        assert(max % align <= max) by (nonlinear_arith)
            requires
                align > 0,
        ;
        if size <= max - max % align {
            Some(Layout { size, align })
        } else {
            None
        }
    }

    /// The layout of a value of type `T`.
    pub fn new<T>() -> (r: Layout)
        ensures
            r@.size == vstd::layout::size_of::<T>(),
            r@.align == vstd::layout::align_of::<T>(),
            r.wf(),
    {
        vstd::layout::layout_for_type_is_valid::<T>();
        Layout { size: core::mem::size_of::<T>(), align: core::mem::align_of::<T>() }
    }

    /// The layout of an array of `n` bytes, if `n` does not exceed
    /// `isize::MAX`.
    pub fn array_bytes(n: usize) -> (r: Option<Layout>)
        ensures
            r is Some <==> n <= isize::MAX,
            r matches Some(l) ==> l@.size == n && l@.align == 1 && l.wf(),
    {
        proof {
            reveal(is_pow2);
        }
        if n <= isize::MAX as usize {
            Some(Layout { size: n, align: 1 })
        } else {
            None
        }
    }

    /// The layout of a value of the unit type: no bytes, alignment one.
    pub fn unit() -> (r: Layout)
        ensures
            r@.size == 0,
            r@.align == 1,
            r.wf(),
    {
        proof {
            reveal(is_pow2);
        }
        Layout { size: 0, align: 1 }
    }

    pub fn size(&self) -> (r: usize)
        ensures
            r == self@.size,
    {
        self.size
    }

    pub fn align(&self) -> (r: usize)
        ensures
            r == self@.align,
    {
        self.align
    }
}

/// A block of a byte buffer: its offset from the buffer's start and its
/// length.
#[derive(Clone, Copy, Debug, PartialEq, Eq, Structural)]
pub struct Region {
    pub offset: usize,
    pub len: usize,
}

impl Region {
    /// One past the region's last byte.
    pub open spec fn end(&self) -> int {
        self.offset + self.len
    }
}

/// A request that an allocator could not satisfy.
#[derive(Clone, Copy, Debug, PartialEq, Eq, Structural)]
pub struct AllocError;

/// Something that hands out regions of memory for layouts.
pub trait Allocator: Sized {
    /// The allocator's own well-formedness.
    spec fn inv(&self) -> bool;

    /// The request keeps the allocator's arithmetic within machine limits.
    spec fn in_range(&self, layout: LayoutView) -> bool;

    /// The allocator, as it stands, grants a request for `layout`.
    spec fn grants(&self, layout: LayoutView) -> bool;

    /// The allocator grants every request, now and after every allocation.
    spec fn unbounded(&self) -> bool;

    /// This is what the allocator `before` becomes once it has granted a
    /// request for `layout`.
    spec fn after_grant(&self, before: Self, layout: LayoutView) -> bool;

    /// An allocator that grants every request grants this one, within
    /// machine limits.
    proof fn lemma_unbounded(&self, layout: LayoutView)
        ensures
            self.unbounded() ==> self.grants(layout) && self.in_range(layout),
    ;

    /// Asks for a block of memory that fits `layout`.
    fn allocate(&mut self, layout: Layout) -> (r: Result<Region, AllocError>)
        requires
            layout.wf(),
            old(self).inv(),
            old(self).in_range(layout@),
        ensures
            final(self).inv(),
            r is Ok <==> old(self).grants(layout@),
            r matches Ok(reg) ==> reg.len == layout@.size,
            r is Ok ==> final(self).after_grant(*old(self), layout@),
            old(self).unbounded() ==> final(self).unbounded(),
    ;

    /// Gives a block back. The allocators of this crate keep no record of
    /// the blocks they hand out, so this changes nothing.
    fn deallocate(&mut self, region: Region, layout: Layout)
        ensures
            *final(self) == *old(self),
    ;
}

/// The process heap: every request is granted, and the regions it hands out
/// are not addressed through it.
#[derive(Clone, Copy, Debug, PartialEq, Eq, Structural)]
pub struct Global;

impl Allocator for Global {
    open spec fn inv(&self) -> bool {
        true
    }

    open spec fn in_range(&self, layout: LayoutView) -> bool {
        true
    }

    open spec fn grants(&self, layout: LayoutView) -> bool {
        true
    }

    open spec fn unbounded(&self) -> bool {
        true
    }

    open spec fn after_grant(&self, before: Self, layout: LayoutView) -> bool {
        *self == before
    }

    proof fn lemma_unbounded(&self, layout: LayoutView) {
    }

    fn allocate(&mut self, layout: Layout) -> (r: Result<Region, AllocError>)
        ensures
            r == Ok::<Region, AllocError>(Region { offset: 0, len: layout@.size as usize }),
    {
        Ok(Region { offset: 0, len: layout.size() })
    }

    fn deallocate(&mut self, region: Region, layout: Layout) {
    }
}

} // verus!
