//! Values that contracts speak of by the place they are kept in.
//!
//! A contract cannot name a boxed trait object directly: a specification
//! function that returns one does not return what it was given. It can name
//! the [`Kept`] that holds the object, and say of it what it holds.

use vstd::prelude::*;

verus! {

/// A value, kept as it was given.
pub struct Kept<T> {
    value: T,
}

impl<T> Kept<T> {
    /// The value that is kept.
    pub closed spec fn value(&self) -> T {
        self.value
    }

    /// Keeps `value`.
    pub fn new(value: T) -> (k: Kept<T>)
        ensures
            k.value() == value,
    {
        Kept { value }
    }

    /// The value that is kept.
    pub fn get(&self) -> (v: &T)
        ensures
            *v == self.value(),
    {
        &self.value
    }
}

} // verus!
