//! A reference that is identified by where it points.

use vstd::prelude::*;

verus! {

/// `std::ptr::eq`: whether the two references hold one address. Nothing is
/// claimed of the result: values of a type without size may share an address
/// and still differ.
#[verifier::external_body]
fn same_place<T>(a: &T, b: &T) -> (r: bool) {
    std::ptr::eq(a, b)
}

/// A unique read-only pointer to a `T`.
///
/// Uniqueness means that whoever makes these pointers sees to it that no two
/// of them hold different references to equal values. On this promise two
/// pointers are compared by the place they point to.
#[derive(Debug)]
pub struct RefHash<'a, T>(pub &'a T);

impl<'a, T> RefHash<'a, T> {
    pub fn new(ptr: &'a T) -> (r: Self)
        ensures
            *r.0 == *ptr,
    {
        RefHash(ptr)
    }

    pub fn into_inner(self) -> (r: &'a T)
        ensures
            *r == *self.0,
    {
        self.0
    }

    pub fn as_ref(&self) -> (r: &T)
        ensures
            *r == *self.0,
    {
        self.0
    }

    /// Whether the two point to one place. That pointers to one place are
    /// pointers to equal values, and no others are, is the promise of whoever
    /// made them; nothing is stated of the result.
    pub fn equals(&self, other: &Self) -> (r: bool) {
        same_place(self.0, other.0)
    }
}

} // verus!
