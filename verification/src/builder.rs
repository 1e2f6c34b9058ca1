//! The interface shared by the builders of this crate.
use vstd::prelude::*;

verus! {

/// A value assembled step by step that is turned into a `T` at the end.
pub trait Builder<T> {
    /// Consumes the builder and gives what it has assembled.
    fn create(self) -> T;
}

} // verus!
