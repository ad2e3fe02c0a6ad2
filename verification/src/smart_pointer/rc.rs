//! Shared ownership within one thread.

use super::{DropGuard, Sealed, SmartPointer};
use crate::layout::FieldLayout;
use std::rc::Rc;
use vstd::prelude::*;

verus! {

impl<T> Sealed for Rc<T> {

}

impl<T> SmartPointer<T> for Rc<T> {
    open spec fn pointee(&self) -> T {
        **self
    }

    /// The block is allocated as for a `Box`.
    fn allocate(layout: FieldLayout) -> (r: (usize, DropGuard))
        ensures
            layout.size() == 0 ==> r.0 == layout.align(),
    {
        <Box<T> as SmartPointer<T>>::allocate(layout)
    }

    fn cast(base: T) -> Self {
        Rc::new(base)
    }
}

} // verus!
