//! A value together with its hash.

use crate::hash::precomputed::PrecomputedHash;
use std::hash::Hash;
use vstd::prelude::*;

verus! {

/// A wrapper for `T` that precomputes its hash. Two wrappers count as
/// equal when their hashes are.
#[derive(Debug)]
pub struct PreHashed<T> {
    pub val: T,
    pub hash: PrecomputedHash<T>,
}

impl<T> PreHashed<T> {
    pub fn new(val: T) -> (r: Self) where T: Hash
        ensures
            r.val == val,
    {
        let hash = PrecomputedHash::new(&val);
        Self { val, hash }
    }

    /// The wrapper of a reference to the value, with the same hash.
    pub fn for_ref(&self) -> (r: PreHashed<&T>)
        ensures
            *r.val == self.val,
            r.hash.hash == self.hash.hash,
    {
        PreHashed { val: &self.val, hash: self.hash.clone().unsafe_coerce() }
    }

    pub fn into_inner(self) -> (r: T)
        ensures
            r == self.val,
    {
        self.val
    }

    /// The wrapper of what `f` makes of the value, with the hash as it is:
    /// it is for the caller to see that `f` leaves the hash alone.
    pub fn unsafe_map<R, F: FnOnce(T) -> R>(self, f: F) -> (r: PreHashed<R>)
        requires
            f.requires((self.val,)),
        ensures
            f.ensures((self.val,), r.val),
            r.hash.hash == self.hash.hash,
    {
        let hash = self.hash.unsafe_coerce();
        PreHashed { val: f(self.val), hash }
    }

    pub fn as_ref(&self) -> (r: &T)
        ensures
            *r == self.val,
    {
        &self.val
    }

    /// The hash that was computed when the value was wrapped.
    pub fn hash_value(&self) -> (r: u64)
        ensures
            r == self.hash.hash,
    {
        self.hash.hash
    }

    /// Whether the hashes are equal.
    pub fn equals(&self, other: &Self) -> (r: bool)
        ensures
            r == (self.hash.hash == other.hash.hash),
    {
        self.hash.equals(&other.hash)
    }
}

impl<T: Clone> PreHashed<&T> {
    /// The wrapper of a copy of the value, with the same hash.
    pub fn from_ref(&self) -> (r: PreHashed<T>)
        ensures
            cloned(*self.val, r.val),
            r.hash.hash == self.hash.hash,
    {
        PreHashed {
            val: self.val.clone(),
            hash: PrecomputedHash::unsafe_from_u64(self.hash.clone().to_u64()),
        }
    }
}

} // verus!
