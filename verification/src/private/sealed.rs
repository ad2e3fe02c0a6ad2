//! Keeps the set of trailing-sequence types closed.

use vstd::prelude::*;

verus! {

/// Implemented only by the types of this crate that can back a trailing
/// sequence.
pub trait Sealed {

}

} // verus!
