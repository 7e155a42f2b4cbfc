//! Sizes with alignments.
use vstd::arithmetic::power2::is_pow2;
use vstd::prelude::*;

verus! {

/// A size and an alignment, in bytes.
#[verifier::ext_equal]
pub struct Extent {
    pub size: nat,
    pub align: nat,
}

impl Extent {
    /// The alignment is a power of two, and the size rounded up to it does not
    /// pass `isize::MAX`.
    pub open spec fn valid(self) -> bool {
        &&& is_pow2(self.align as int)
        &&& self.size + self.align <= isize::MAX + 1
    }

    /// The extent of `len` values of type `T`, one after the other.
    pub open spec fn array<T>(len: nat) -> Extent {
        Extent {
            size: len * vstd::layout::size_of::<T>(),
            align: vstd::layout::align_of::<T>(),
        }
    }
}

/// How far the next multiple of `align` lies from `addr`.
pub open spec fn padding(addr: nat, align: nat) -> nat {
    if addr % align == 0 {
        0
    } else {
        (align - addr % align) as nat
    }
}

/// The least multiple of `unit` that is not below `n`.
pub open spec fn round_up(n: nat, unit: nat) -> nat {
    n + padding(n, unit)
}

/// The layout of a block of memory.
#[derive(Clone, Copy, Debug, PartialEq, Eq, Structural)]
pub struct Layout {
    size: usize,
    align: usize,
}

impl View for Layout {
    type V = Extent;

    closed spec fn view(&self) -> Extent {
        Extent { size: self.size as nat, align: self.align as nat }
    }
}

impl Layout {
    #[verifier::type_invariant]
    spec fn inv(self) -> bool {
        self@.valid()
    }

    /// The layout of `size` bytes at a multiple of `align`, where that is
    /// valid.
    pub fn from_size_align(size: usize, align: usize) -> (r: Option<Layout>)
        ensures
            r is Some <==> (Extent { size: size as nat, align: align as nat }).valid(),
            r matches Some(layout) ==> layout@ == (Extent {
                size: size as nat,
                align: align as nat,
            }),
    {
        if is_power_of_two(align) {
            let limit: usize = isize::MAX as usize;
            if align <= limit + 1 && size <= limit + 1 - align {
                return Some(Layout { size, align });
            }
        }
        None
    }

    /// The layout of `len` values of type `T`, where that is valid.
    pub fn array<T>(len: usize) -> (r: Option<Layout>)
        ensures
            r is Some <==> Extent::array::<T>(len as nat).valid(),
            r matches Some(layout) ==> layout@ == Extent::array::<T>(len as nat),
    {
        let item: usize = core::mem::size_of::<T>();
        match len.checked_mul(item) {
            Some(size) => Layout::from_size_align(size, core::mem::align_of::<T>()),
            None => None,
        }
    }

    /// The size in bytes.
    pub fn size(&self) -> (size: usize)
        ensures
            size == self@.size,
            self@.valid(),
    {
        proof {
            use_type_invariant(self);
        }
        self.size
    }

    /// The alignment in bytes.
    pub fn align(&self) -> (align: usize)
        ensures
            align == self@.align,
            align > 0,
            self@.valid(),
    {
        proof {
            use_type_invariant(self);
            reveal(is_pow2);
        }
        self.align
    }
}

/// Whether `n` is a power of two.
fn is_power_of_two(n: usize) -> (r: bool)
    ensures
        r <==> is_pow2(n as int),
{
    reveal(is_pow2);
    if n == 0 {
        return false;
    }
    let mut m: usize = n;
    while m > 1
        invariant
            m >= 1,
            is_pow2(n as int) <==> is_pow2(m as int),
        decreases m,
    {
        reveal(is_pow2);
        if m % 2 != 0 {
            return false;
        }
        m = m / 2;
    }
    true
}

/// The bytes to skip from `addr` to reach a multiple of `align`.
pub fn align_offset(addr: usize, align: usize) -> (off: usize)
    requires
        align != 0,
    ensures
        off == padding(addr as nat, align as nat),
{
    let rest = addr % align;
    if rest == 0 {
        0
    } else {
        align - rest
    }
}

} // verus!
