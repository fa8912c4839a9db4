//! A hash that is computed when the value is wrapped.

use crate::hash::fx_hash;
use std::hash::Hash;
use std::marker::PhantomData;
use vstd::prelude::*;

verus! {

/// A precomputed hash for a value of type `T`. The type parameter keeps
/// hashes of values of different types apart.
#[derive(Debug)]
pub struct PrecomputedHash<T> {
    pub hash: u64,
    pub phantom: PhantomData<T>,
}

impl<T> PrecomputedHash<T> {
    /// The hash as given; nothing checks that it is the hash of a value.
    pub fn unsafe_from_u64(hash: u64) -> (r: Self)
        ensures
            r.hash == hash,
    {
        PrecomputedHash { hash, phantom: PhantomData }
    }

    /// The same hash for a value of another type.
    pub fn unsafe_coerce<R>(self) -> (r: PrecomputedHash<R>)
        ensures
            r.hash == self.hash,
    {
        PrecomputedHash { hash: self.hash, phantom: PhantomData }
    }

    /// The hash of the value.
    pub fn new(val: &T) -> (r: Self) where T: Hash {
        Self::unsafe_from_u64(fx_hash(val))
    }

    pub fn to_u64(self) -> (r: u64)
        ensures
            r == self.hash,
    {
        self.hash
    }

    pub fn clone(&self) -> (r: Self)
        ensures
            r.hash == self.hash,
    {
        PrecomputedHash { hash: self.hash, phantom: PhantomData }
    }

    /// Whether the hashes are equal.
    pub fn equals(&self, other: &Self) -> (r: bool)
        ensures
            r == (self.hash == other.hash),
    {
        self.hash == other.hash
    }
}

} // verus!
