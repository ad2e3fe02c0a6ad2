//! Exclusive ownership.

use super::{DropGuard, Sealed, SmartPointer};
use crate::layout::FieldLayout;
use vstd::prelude::*;

verus! {

impl<T> Sealed for Box<T> {

}

impl<T> SmartPointer<T> for Box<T> {
    open spec fn pointee(&self) -> T {
        **self
    }

    /// The block has as many bytes as the layout asks for, and takes no
    /// memory where it asks for none. Its address is the layout's
    /// alignment, the lowest address that is neither null nor misaligned:
    /// for a block of size zero, which is never read or written, that
    /// address is all there is.
    fn allocate(layout: FieldLayout) -> (r: (usize, DropGuard))
        ensures
            layout.size() == 0 ==> r.0 == layout.align(),
    {
        let bytes: Vec<u8> = if layout.size() != 0 {
            vec![0u8; layout.size()]
        } else {
            Vec::new()
        };
        let base = layout.align();
        proof {
            layout.lemma_wf();
            vstd::arithmetic::div_mod::lemma_mod_self_0(base as int);
        }
        (base, DropGuard::new(base, layout, bytes))
    }

    fn cast(base: T) -> Self {
        Box::new(base)
    }
}

} // verus!
