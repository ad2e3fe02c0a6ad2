//! Sizes, alignments and the arithmetic that places fields in a block.

use vstd::arithmetic::div_mod::{
    lemma_fundamental_div_mod, lemma_mod_multiples_basic, lemma_mod_pos_bound,
};
use vstd::arithmetic::power2::is_pow2;
use vstd::layout::{align_of, layout_for_type_is_valid, size_of};
use vstd::prelude::*;

pub mod placement;
pub mod rounding;

pub use placement::{
    aggregate_align, aggregate_size, all_wf, field_offset, fields_align, fields_end, fits,
    lemma_addresses_aligned, lemma_aggregate_align, lemma_aggregate_size, lemma_field_offset,
    lemma_fields_disjoint, lemma_fields_prefix, lemma_fits_parts, lemma_no_fields,
    lemma_no_items, lemma_trailing_offset, trailing_offset, unpadded_size,
};
pub use rounding::{
    lemma_align_divides_max, lemma_round_up, lemma_round_up_least, lemma_round_up_unique,
    lemma_valid_layout, max_align, max_size, round_up, valid_layout,
};

verus! {

/// Tells whether `n` is a power of two.
pub fn is_power_of_two(n: usize) -> (r: bool)
    ensures
        r == is_pow2(n as int),
{
    if n == 0 {
        proof {
            reveal(is_pow2);
        }
        return false;
    }
    let mut x: usize = n;
    while x % 2 == 0
        invariant
            0 < x <= n,
            is_pow2(x as int) == is_pow2(n as int),
        decreases x,
    {
        proof {
            reveal(is_pow2);
        }
        x = x / 2;
    }
    proof {
        reveal(is_pow2);
    }
    x == 1
}

/// `n` rounded up to the next multiple of `align`.
fn round_up_to(n: usize, align: usize) -> (r: usize)
    requires
        is_pow2(align as int),
        n <= max_size(),
    ensures
        r == round_up(n as int, align as int),
        r <= max_size() + 1,
{
    proof {
        lemma_align_divides_max(align as int);
        lemma_round_up(n as int, align as int);
        lemma_round_up_least(n as int, align as int, max_size() + 1);
    }
    let rem = n % align;
    proof {
        let q = n as int / align as int;
        lemma_fundamental_div_mod(n as int, align as int);
        lemma_mod_pos_bound(n as int, align as int);
        assert(0 <= q && n - rem + align == (q + 1) * align) by (nonlinear_arith)
            requires
                n == align * q + rem,
                0 <= rem < align,
        ;
        lemma_mod_multiples_basic(q + 1, align as int);
    }
    if rem == 0 {
        n
    } else {
        proof {
            lemma_round_up_unique(n as int, align as int, n - rem + align);
        }
        n - rem + align
    }
}

/// The error of a layout computation: the requested size exceeds the
/// largest size a block may have. It carries nothing else.
#[derive(Clone, Copy, Debug, PartialEq, Eq, Structural)]
pub struct LayoutError;

/// The memory footprint of a field: its size in bytes and the alignment its
/// start address needs.
#[derive(Clone, Copy, Debug, PartialEq, Eq, Hash, Structural)]
pub struct FieldLayout {
    size: usize,
    align: usize,
}

impl FieldLayout {
    #[verifier::type_invariant]
    spec fn inv(self) -> bool {
        valid_layout(self.size as int, self.align as int)
    }

    /// The size in bytes.
    pub closed spec fn spec_size(&self) -> usize {
        self.size
    }

    /// The alignment in bytes.
    pub closed spec fn spec_align(&self) -> usize {
        self.align
    }

    /// The layout with the given size and alignment.
    pub closed spec fn spec_from_size_align(size: usize, align: usize) -> Self {
        FieldLayout { size, align }
    }

    /// The size and the alignment of `spec_from_size_align(size, align)`
    /// are `size` and `align`.
    pub proof fn lemma_from_size_align(size: usize, align: usize)
        ensures
            Self::spec_from_size_align(size, align).size() == size,
            Self::spec_from_size_align(size, align).align() == align,
    {
    }

    /// Well-formedness: the size and the alignment form a valid layout.
    /// Every value that executable code holds is well formed.
    pub open spec fn wf(self) -> bool {
        valid_layout(self.size() as int, self.align() as int)
    }

    /// A well-formed layout has a positive alignment that divides
    /// `max_size() + 1`, and its size leaves room for the padding.
    pub proof fn lemma_wf(self)
        requires
            self.wf(),
        ensures
            0 < self.align() <= max_size() + 1,
            self.size() + self.align() - 1 <= max_size(),
            (max_size() + 1) % (self.align() as int) == 0,
    {
        lemma_valid_layout(self.size() as int, self.align() as int);
        lemma_align_divides_max(self.align() as int);
    }

    /// The layout of nothing: no bytes, at any address.
    pub fn empty() -> (r: Self)
        ensures
            r == Self::spec_from_size_align(0, 1),
            r.size() == 0,
            r.align() == 1,
            r.wf(),
    {
        proof {
            reveal(is_pow2);
            lemma_round_up(0, 1);
        }
        FieldLayout { size: 0, align: 1 }
    }

    /// The layout with the given size and alignment, if they form one.
    pub fn from_size_align(size: usize, align: usize) -> (r: Result<Self, LayoutError>)
        ensures
            r is Ok <==> valid_layout(size as int, align as int),
            r matches Ok(l) ==> {
                &&& l == Self::spec_from_size_align(size, align)
                &&& l.size() == size
                &&& l.align() == align
                &&& l.wf()
            },
    {
        if !is_power_of_two(align) {
            return Err(LayoutError);
        }
        proof {
            lemma_valid_layout(size as int, align as int);
        }
        if size > (isize::MAX as usize) - (align - 1) {
            return Err(LayoutError);
        }
        Ok(FieldLayout { size, align })
    }

    /// The layout of a value of type `T`.
    pub fn new<T>() -> (r: Self)
        ensures
            r == Self::spec_from_size_align(size_of::<T>() as usize, align_of::<T>() as usize),
            r.size() == size_of::<T>(),
            r.align() == align_of::<T>(),
            r.size() % r.align() == 0,
            r.wf(),
    {
        layout_for_type_is_valid::<T>();
        let size = core::mem::size_of::<T>();
        let align = core::mem::align_of::<T>();
        proof {
            lemma_valid_layout(size as int, align as int);
            lemma_round_up(size as int, align as int);
        }
        FieldLayout { size, align }
    }

    /// The layout of `n` items of layout `item`, one after the other.
    pub fn array(item: Self, n: usize) -> (r: Result<Self, LayoutError>)
        ensures
            r is Ok <==> valid_layout(n * item.size(), item.align() as int),
            r matches Ok(l) ==> l.size() == n * item.size() && l.align() == item.align() && l.wf(),
    {
        proof {
            use_type_invariant(item);
            lemma_valid_layout(item.size as int, item.align as int);
            assert(0 <= n * item.size) by (nonlinear_arith);
            lemma_valid_layout(n * item.size, item.align as int);
        }
        match n.checked_mul(item.size) {
            None => {
                Err(LayoutError)
            },
            Some(size) => {
                if size > (isize::MAX as usize) - (item.align - 1) {
                    Err(LayoutError)
                } else {
                    Ok(FieldLayout { size, align: item.align })
                }
            },
        }
    }

    /// This layout followed by `next`, with the padding that `next` needs
    /// before it and none after it; and the offset at which `next` starts.
    pub fn extend(&self, next: Self) -> (r: Result<(Self, usize), LayoutError>)
        ensures
            r is Ok <==> valid_layout(
                round_up(self.size() as int, next.align() as int) + next.size(),
                max_align(self.align() as int, next.align() as int),
            ),
            r matches Ok((l, offset)) ==> {
                &&& offset == round_up(self.size() as int, next.align() as int)
                &&& l.size() == offset + next.size()
                &&& l.align() == max_align(self.align() as int, next.align() as int)
                &&& l.wf()
            },
    {
        proof {
            use_type_invariant(self);
            use_type_invariant(next);
            lemma_valid_layout(self.size as int, self.align as int);
            lemma_valid_layout(next.size as int, next.align as int);
        }
        let align = if self.align >= next.align {
            self.align
        } else {
            next.align
        };
        let offset = round_up_to(self.size, next.align);
        let size = offset + next.size;
        proof {
            lemma_valid_layout(size as int, align as int);
        }
        if size > (isize::MAX as usize) - (align - 1) {
            Err(LayoutError)
        } else {
            Ok((FieldLayout { size, align }, offset))
        }
    }

    /// This layout with its size rounded up to a multiple of its alignment.
    pub fn pad_to_align(&self) -> (r: Self)
        ensures
            r.size() == round_up(self.size() as int, self.align() as int),
            r.align() == self.align(),
            r.wf(),
    {
        proof {
            use_type_invariant(self);
            lemma_valid_layout(self.size as int, self.align as int);
            lemma_round_up(self.size as int, self.align as int);
        }
        let size = round_up_to(self.size, self.align);
        proof {
            lemma_round_up(size as int, self.align as int);
        }
        FieldLayout { size, align: self.align }
    }

    /// The size in bytes.
    #[verifier::when_used_as_spec(spec_size)]
    pub fn size(&self) -> (r: usize)
        ensures
            r == self.size(),
            self.wf(),
    {
        proof {
            use_type_invariant(self);
        }
        self.size
    }

    /// The alignment in bytes.
    #[verifier::when_used_as_spec(spec_align)]
    pub fn align(&self) -> (r: usize)
        ensures
            r == self.align(),
            self.wf(),
    {
        proof {
            use_type_invariant(self);
        }
        self.align
    }
}

} // verus!
