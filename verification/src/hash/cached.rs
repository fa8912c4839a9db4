//! A hash that is computed when it is first asked for.

use crate::hash::fx_hash;
use std::hash::Hash;
use std::marker::PhantomData;
use vstd::prelude::*;

verus! {

/// The hash that is cached for a value whose hasher gives `hash`: zero
/// stands for "not yet computed", so one is cached in its place.
pub open spec fn never_zero_spec(hash: u64) -> u64 {
    if hash == 0 {
        1
    } else {
        hash
    }
}

/// The hash that is cached for a value whose hasher gives `hash`.
pub fn never_zero(hash: u64) -> (r: u64)
    ensures
        r == never_zero_spec(hash),
{
    if hash == 0 {
        1
    } else {
        hash
    }
}

/// A cached hash of a value of type `T`; zero stands for "not yet
/// computed". The type parameter keeps hashes of values of different types
/// apart.
#[derive(Debug)]
pub struct CachedHash<T> {
    hash: u64,
    phantom: PhantomData<T>,
}

impl<T> CachedHash<T> {
    /// The cached hash, if there is one.
    pub closed spec fn value(self) -> Option<u64> {
        if self.hash == 0 {
            None
        } else {
            Some(self.hash)
        }
    }

    /// The hash of the value, never zero: what the hasher gives for it, with
    /// one in the place of zero.
    pub fn compute_hash(val: &T) -> (r: u64) where T: Hash
        ensures
            r != 0,
    {
        never_zero(fx_hash(val))
    }

    /// The cache that holds `hash`, or nothing where `hash` is zero.
    pub fn from_u64(hash: u64) -> (r: Self)
        ensures
            r.value() == if hash == 0 {
                None
            } else {
                Some(hash)
            },
    {
        CachedHash { hash, phantom: PhantomData }
    }

    /// The cache that holds `hash`.
    pub fn from_non_zero(hash: u64) -> (r: Self)
        requires
            hash != 0,
        ensures
            r.value() == Some(hash),
    {
        Self::from_u64(hash)
    }

    /// The cache that holds the hash of the value.
    pub fn cached(val: &T) -> (r: Self) where T: Hash
        ensures
            r.value() is Some,
    {
        Self::from_non_zero(Self::compute_hash(val))
    }

    /// The cached hash, if available.
    pub fn get(&self) -> (r: Option<u64>)
        ensures
            r == self.value(),
            r matches Some(h) ==> h != 0,
    {
        if self.hash == 0 {
            None
        } else {
            Some(self.hash)
        }
    }

    /// The cached hash if available; else the hash of the value, which is
    /// cached.
    pub fn get_or_init(&mut self, val: &T) -> (r: u64) where T: Hash
        ensures
            r != 0,
            final(self).value() == Some(r),
            old(self).value() is Some ==> old(self).value() == Some(r),
    {
        if self.hash == 0 {
            self.hash = Self::compute_hash(val);
        }
        self.hash
    }

    pub fn clone(&self) -> (r: Self)
        ensures
            r.value() == self.value(),
    {
        CachedHash { hash: self.hash, phantom: PhantomData }
    }
}

impl<T> Default for CachedHash<T> {
    /// Unset.
    fn default() -> (r: Self)
        ensures
            r.value() is None,
    {
        Self::from_u64(0)
    }
}

} // verus!
