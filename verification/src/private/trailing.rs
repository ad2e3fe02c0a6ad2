//! The values that can back the trailing sequence of an aggregate.

use super::sealed::Sealed;
use crate::layout::FieldLayout;
use vstd::prelude::*;
use vstd::string::StringSliceAdditionalSpecFns;

verus! {

/// A value that can back the trailing sequence of an aggregate: a run of
/// items of one layout, exposed as the bytes that are copied into the block.
/// Nothing is transformed and nothing is allocated.
pub trait AsSlice: Sealed {
    /// The layout of one item.
    spec fn spec_item(&self) -> FieldLayout;

    /// The number of items.
    spec fn spec_count(&self) -> nat;

    /// The bytes of the items, in order.
    spec fn spec_content(&self) -> Seq<u8>;

    /// The layout of one item.
    fn item_layout(&self) -> (r: FieldLayout)
        ensures
            r == self.spec_item(),
            r.wf(),
    ;

    /// The number of items.
    fn count(&self) -> (r: usize)
        ensures
            r == self.spec_count(),
    ;

    /// The bytes of the items: `count()` times the size of one.
    fn as_slice(&self) -> (r: &[u8])
        ensures
            r@ == self.spec_content(),
            r@.len() == self.spec_count() * self.spec_item().size(),
    ;
}

/// The layout of one byte.
fn byte_layout() -> (r: FieldLayout)
    ensures
        r == FieldLayout::spec_from_size_align(1, 1),
        r.size() == 1,
        r.align() == 1,
        r.wf(),
{
    broadcast use vstd::layout::layout_of_primitives;
    broadcast use vstd::layout::align_of_u8;

    FieldLayout::new::<u8>()
}

impl Sealed for [u8] {

}

/// A slice of bytes: each byte is an item.
impl AsSlice for [u8] {
    open spec fn spec_item(&self) -> FieldLayout {
        FieldLayout::spec_from_size_align(1, 1)
    }

    open spec fn spec_count(&self) -> nat {
        self@.len()
    }

    open spec fn spec_content(&self) -> Seq<u8> {
        self@
    }

    fn item_layout(&self) -> FieldLayout {
        byte_layout()
    }

    fn count(&self) -> usize {
        self.len()
    }

    fn as_slice(&self) -> &[u8] {
        proof {
            FieldLayout::lemma_from_size_align(1, 1);
        }
        self
    }
}

impl Sealed for str {

}

/// Text: the items are the bytes of its UTF-8 encoding.
impl AsSlice for str {
    open spec fn spec_item(&self) -> FieldLayout {
        FieldLayout::spec_from_size_align(1, 1)
    }

    open spec fn spec_count(&self) -> nat {
        self.spec_bytes().len()
    }

    open spec fn spec_content(&self) -> Seq<u8> {
        self.spec_bytes()
    }

    fn item_layout(&self) -> FieldLayout {
        byte_layout()
    }

    fn count(&self) -> usize {
        self.as_bytes().len()
    }

    fn as_slice(&self) -> &[u8] {
        proof {
            FieldLayout::lemma_from_size_align(1, 1);
        }
        self.as_bytes()
    }
}

/// A run of `count` items of one layout, given by their bytes. It stands
/// for a slice of any type whose values can be copied byte by byte.
pub struct RawSlice<'a> {
    item: FieldLayout,
    count: usize,
    bytes: &'a [u8],
}

impl<'a> RawSlice<'a> {
    #[verifier::type_invariant]
    spec fn inv(&self) -> bool {
        self.bytes@.len() == self.count * self.item.size()
    }

    /// The run of `count` items of layout `item` whose bytes are `bytes`,
    /// if `bytes` has the length of `count` such items.
    pub fn new(item: FieldLayout, count: usize, bytes: &'a [u8]) -> (r: Option<Self>)
        ensures
            r is Some <==> bytes@.len() == count * item.size(),
            r matches Some(s) ==> {
                &&& s.spec_item() == item
                &&& s.spec_count() == count
                &&& s.spec_content() == bytes@
            },
    {
        let given = bytes.len();
        match count.checked_mul(item.size()) {
            None => None,
            Some(len) => if len == given {
                Some(RawSlice { item, count, bytes })
            } else {
                None
            },
        }
    }
}

impl<'a> Sealed for RawSlice<'a> {

}

impl<'a> AsSlice for RawSlice<'a> {
    closed spec fn spec_item(&self) -> FieldLayout {
        self.item
    }

    closed spec fn spec_count(&self) -> nat {
        self.count as nat
    }

    closed spec fn spec_content(&self) -> Seq<u8> {
        self.bytes@
    }

    fn item_layout(&self) -> FieldLayout {
        let _ = self.item.size();
        self.item
    }

    fn count(&self) -> usize {
        self.count
    }

    fn as_slice(&self) -> &[u8] {
        proof {
            use_type_invariant(self);
        }
        self.bytes
    }
}

/// The bytes form a zero-terminated string: the last byte is zero and no
/// byte before it is.
pub open spec fn nul_terminated(bytes: Seq<u8>) -> bool {
    &&& bytes.len() >= 1
    &&& bytes[bytes.len() - 1] == 0
    &&& forall|i: int| 0 <= i < bytes.len() - 1 ==> bytes[i] != 0
}

/// A zero-terminated string of bytes, terminator included.
pub struct NulTerminated<'a> {
    bytes: &'a [u8],
}

impl<'a> NulTerminated<'a> {
    #[verifier::type_invariant]
    spec fn inv(&self) -> bool {
        nul_terminated(self.bytes@)
    }

    /// The string whose bytes, terminator included, are `bytes`, if they
    /// end in a zero byte and hold no other.
    pub fn from_bytes_with_nul(bytes: &'a [u8]) -> (r: Option<Self>)
        ensures
            r is Some <==> nul_terminated(bytes@),
            r matches Some(s) ==> s.spec_content() == bytes@,
    {
        let len = bytes.len();
        if len == 0 {
            return None;
        }
        let mut i: usize = 0;
        while i < len - 1
            invariant
                len == bytes@.len(),
                i <= len - 1,
                forall|j: int| 0 <= j < i ==> bytes@[j] != 0,
            decreases len - i,
        {
            if bytes[i] == 0 {
                return None;
            }
            i += 1;
        }
        if bytes[len - 1] != 0 {
            return None;
        }
        Some(NulTerminated { bytes })
    }
}

impl<'a> Sealed for NulTerminated<'a> {

}

/// A zero-terminated string: the items are its bytes, and the terminator
/// is one of them.
impl<'a> AsSlice for NulTerminated<'a> {
    open spec fn spec_item(&self) -> FieldLayout {
        FieldLayout::spec_from_size_align(1, 1)
    }

    open spec fn spec_count(&self) -> nat {
        self.spec_content().len()
    }

    closed spec fn spec_content(&self) -> Seq<u8> {
        self.bytes@
    }

    fn item_layout(&self) -> FieldLayout {
        byte_layout()
    }

    fn count(&self) -> usize {
        self.bytes.len()
    }

    fn as_slice(&self) -> (r: &[u8])
        ensures
            nul_terminated(r@),
    {
        proof {
            use_type_invariant(self);
            FieldLayout::lemma_from_size_align(1, 1);
        }
        self.bytes
    }
}

} // verus!
