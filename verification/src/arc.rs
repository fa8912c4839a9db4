//! Shared values.
//!
//! The pointers are `std::sync::Arc`. Verus knows what such a pointer
//! holds, so the contracts of the handles speak of the shared value itself.

pub mod cached;
pub mod precomputed;
pub mod uarc;

use vstd::prelude::*;

verus! {

/// `std::sync::Arc::clone`: one more pointer to the same value.
#[verifier::external_body]
pub(crate) fn share<T>(a: &std::sync::Arc<T>) -> (r: std::sync::Arc<T>)
    ensures
        r == *a,
{
    a.clone()
}

/// `std::sync::Arc::ptr_eq`: two pointers to one allocation hold one value.
#[verifier::external_body]
pub(crate) fn same_allocation<T>(a: &std::sync::Arc<T>, b: &std::sync::Arc<T>) -> (r: bool)
    ensures
        r ==> *a == *b,
{
    std::sync::Arc::ptr_eq(a, b)
}

} // verus!
