//! A shared value with a cached hash.

use crate::arc::share;
use crate::hash::cached::CachedHash;
use std::hash::Hash;
use vstd::prelude::*;

verus! {

/// A thread-safe reference-counting pointer that caches the hash of the
/// value it holds, so that it is computed once at most.
#[derive(Debug)]
pub struct Arc<T> {
    pub rc: std::sync::Arc<T>,
    pub hash: CachedHash<T>,
}

impl<T> Arc<T> {
    pub fn new(x: T) -> (r: Self)
        ensures
            *r.rc == x,
            r.hash.value() is None,
    {
        Self { rc: std::sync::Arc::new(x), hash: CachedHash::default() }
    }

    pub fn as_ref(&self) -> (r: &T)
        ensures
            *r == *self.rc,
    {
        &*self.rc
    }

    /// One more pointer to the same value, with the hash as far as it is
    /// cached.
    pub fn clone(&self) -> (r: Self)
        ensures
            r.rc == self.rc,
            r.hash.value() == self.hash.value(),
    {
        Arc { rc: share(&self.rc), hash: self.hash.clone() }
    }

    /// The hash of the value, computed when it is first asked for.
    pub fn hash_value(&mut self) -> (r: u64) where T: Hash
        ensures
            r != 0,
            final(self).rc == old(self).rc,
            final(self).hash.value() == Some(r),
            old(self).hash.value() is Some ==> old(self).hash.value() == Some(r),
    {
        self.hash.get_or_init(&*self.rc)
    }
}

} // verus!
