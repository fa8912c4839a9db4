//! A shared value that is identified by where it lies.

use crate::arc::{same_allocation, share};
use vstd::prelude::*;

verus! {

/// A thread-safe, reference-counting pointer to a unique `T`.
///
/// Uniqueness means that whoever makes these pointers sees to it that no two
/// of them, made apart, hold equal values. On this promise two pointers are
/// compared by the place they point to.
#[derive(Debug)]
pub struct UArc<T>(pub std::sync::Arc<T>);

impl<T> UArc<T> {
    pub fn new(t: T) -> (r: Self)
        ensures
            *r.0 == t,
    {
        UArc(std::sync::Arc::new(t))
    }

    pub fn into_arc(self) -> (r: std::sync::Arc<T>)
        ensures
            r == self.0,
    {
        self.0
    }

    pub fn as_ref(&self) -> (r: &T)
        ensures
            *r == *self.0,
    {
        &*self.0
    }

    /// One more pointer to the same place.
    pub fn clone(&self) -> (r: Self)
        ensures
            r.0 == self.0,
    {
        UArc(share(&self.0))
    }

    /// Whether the two pointers point to one place; if so, they hold one
    /// value.
    pub fn equals(&self, other: &Self) -> (r: bool)
        ensures
            r ==> *self.0 == *other.0,
    {
        same_allocation(&self.0, &other.0)
    }
}

} // verus!
