//! Construction of dynamically sized aggregates: a fixed set of header
//! fields followed by one variable-length trailing sequence, all placed in
//! a single block whose layout is computed and proved here.

pub mod layout;
pub mod aggregate;
pub mod compare;
pub mod derive;
pub mod private;
mod smart_pointer;

pub use aggregate::{Aggregate, AggregateView};
pub use smart_pointer::{block_at, splice, DropGuard, GuardView, SmartPointer};
