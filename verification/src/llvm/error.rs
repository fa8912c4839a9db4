//! The error of a module that cannot be modelled.

use vstd::prelude::*;

verus! {

/// A malformed module, with a description of what is wrong with it.
#[derive(Debug)]
pub struct Error(pub String);

impl View for Error {
    type V = Seq<char>;

    open spec fn view(&self) -> Seq<char> {
        self.0@
    }
}

} // verus!
