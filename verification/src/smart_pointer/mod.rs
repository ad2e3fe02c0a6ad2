//! The ways in which a finished aggregate can be owned, and the guard that
//! owns its block while it is being built.

use crate::layout::FieldLayout;
use vstd::prelude::*;

mod arc;
mod boxed;
mod rc;

verus! {

/// Implemented only by the pointer types of this crate's choosing.
pub trait Sealed {

}

/// `bytes` with the bytes from index `at` on replaced by those of `src`.
pub open spec fn splice(bytes: Seq<u8>, at: int, src: Seq<u8>) -> Seq<u8> {
    Seq::new(
        bytes.len(),
        |i: int|
            if at <= i < at + src.len() {
                src[i - at]
            } else {
                bytes[i]
            },
    )
}

/// What a [`DropGuard`] holds: the address of its block, the layout the
/// block was allocated with, and the bytes of the block.
pub struct GuardView {
    pub base: usize,
    pub layout: FieldLayout,
    pub bytes: Seq<u8>,
}

/// The owner of a block from its allocation until the aggregate in it is
/// complete. Whoever drops the guard frees the block; only `disarm` hands
/// the block on.
pub struct DropGuard {
    base: usize,
    layout: FieldLayout,
    bytes: Vec<u8>,
}

impl View for DropGuard {
    type V = GuardView;

    closed spec fn view(&self) -> GuardView {
        GuardView { base: self.base, layout: self.layout, bytes: self.bytes@ }
    }
}

/// A block at `base` can hold a value of layout `layout`: the address is
/// not null, it is a multiple of the alignment, and the block ends within
/// the address space.
pub open spec fn block_at(base: usize, layout: FieldLayout) -> bool {
    &&& layout.wf()
    &&& base != 0
    &&& base as int % layout.align() as int == 0
    &&& base + layout.size() <= usize::MAX
}

impl DropGuard {
    #[verifier::type_invariant]
    spec fn inv(&self) -> bool {
        self.wf()
    }

    /// Well-formedness: the block has the size of its layout and lies at
    /// an address fit for it. Every guard that executable code holds is
    /// well formed.
    pub open spec fn wf(&self) -> bool {
        &&& block_at(self@.base, self@.layout)
        &&& self@.bytes.len() == self@.layout.size()
    }

    /// The guard of the block `bytes` at address `base`.
    pub fn new(base: usize, layout: FieldLayout, bytes: Vec<u8>) -> (r: Self)
        requires
            block_at(base, layout),
            bytes@.len() == layout.size(),
        ensures
            r@ == (GuardView { base, layout, bytes: bytes@ }),
            r.wf(),
    {
        DropGuard { base, layout, bytes }
    }

    /// The address of the block.
    pub fn base(&self) -> (r: usize)
        ensures
            r == self@.base,
            self.wf(),
    {
        proof {
            use_type_invariant(self);
        }
        self.base
    }

    /// The layout the block was allocated with.
    pub fn layout(&self) -> (r: FieldLayout)
        ensures
            r == self@.layout,
            self.wf(),
    {
        proof {
            use_type_invariant(self);
        }
        self.layout
    }

    /// Copies `src` into the block, to the address `addr`.
    pub fn write(&mut self, addr: usize, src: &[u8])
        requires
            old(self)@.base <= addr,
            addr + src@.len() <= old(self)@.base + old(self)@.layout.size(),
        ensures
            final(self)@ == (GuardView {
                bytes: splice(old(self)@.bytes, addr - old(self)@.base, src@),
                ..old(self)@
            }),
            final(self).wf(),
    {
        proof {
            use_type_invariant(&*self);
        }
        let at = addr - self.base;
        let len = src.len();
        let mut i: usize = 0;
        while i < len
            invariant
                i <= len,
                len == src@.len(),
                at + len <= self.bytes@.len() <= usize::MAX,
                self.bytes@.len() == old(self).bytes@.len(),
                self.wf(),
                self.base == old(self).base,
                self.layout == old(self).layout,
                forall|j: int|
                    0 <= j < self.bytes@.len() ==> self.bytes@[j] == if at <= j < at + i {
                        src@[j - at]
                    } else {
                        old(self).bytes@[j]
                    },
            decreases len - i,
        {
            self.bytes[at + i] = src[i];
            i += 1;
        }
        assert(self.bytes@ =~= splice(old(self).bytes@, at as int, src@));
    }

    /// Ends the guard's watch and hands over the bytes of the block.
    pub fn disarm(self) -> (r: Vec<u8>)
        ensures
            r@ == self@.bytes,
            self.wf(),
    {
        proof {
            use_type_invariant(&self);
        }
        self.bytes
    }
}

/// A pointer type that can own or share a finished aggregate of type `T`.
pub trait SmartPointer<T>: Sealed + Sized {
    /// The value that the pointer leads to.
    spec fn pointee(&self) -> T;

    /// Allocates a block for a value of layout `layout` and returns its
    /// address with the guard that owns it. What the block holds is not
    /// specified.
    fn allocate(layout: FieldLayout) -> (r: (usize, DropGuard))
        ensures
            r.1.wf(),
            r.1@.base == r.0,
            r.1@.layout == layout,
    ;

    /// Turns the finished value into the pointer that owns it.
    fn cast(base: T) -> (r: Self)
        ensures
            r.pointee() == base,
    ;
}

} // verus!
