//! Hashes that are computed once and kept with the value.

pub mod cached;
pub mod precomputed;
pub mod prehashed;
pub mod refhash;

use std::hash::Hash;
use std::hash::Hasher;
use vstd::prelude::*;

verus! {

/// `rustc_hash::FxHasher`: the hash that a fresh hasher gives after the
/// value was fed to it. Nothing is claimed of the number: it depends on the
/// width of the machine's words.
#[verifier::external_body]
pub(crate) fn fx_hash<T: Hash>(val: &T) -> (r: u64) {
    let mut hasher = rustc_hash::FxHasher::default();
    val.hash(&mut hasher);
    hasher.finish()
}

} // verus!
