//! A shared value with a precomputed hash.

use crate::arc::share;
use crate::hash::prehashed::PreHashed;
use std::hash::Hash;
use vstd::prelude::*;

verus! {

/// A thread-safe reference-counting pointer that keeps the hash of the
/// value it holds, computed exactly once, when the value is wrapped.
#[derive(Debug)]
pub struct Arc<T>(pub std::sync::Arc<PreHashed<T>>);

impl<T> Arc<T> {
    pub fn new(val: T) -> (r: Self) where T: Hash
        ensures
            r.0.val == val,
    {
        Arc(std::sync::Arc::new(PreHashed::new(val)))
    }

    pub fn as_ref(&self) -> (r: &T)
        ensures
            *r == self.0.val,
    {
        (&*self.0).as_ref()
    }

    /// The hash that was computed when the value was wrapped.
    pub fn hash_value(&self) -> (r: u64)
        ensures
            r == self.0.hash.hash,
    {
        (&*self.0).hash_value()
    }

    /// One more pointer to the same value.
    pub fn clone(&self) -> (r: Self)
        ensures
            r.0 == self.0,
    {
        Arc(share(&self.0))
    }
}

} // verus!
