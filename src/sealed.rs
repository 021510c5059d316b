use vstd::prelude::*;

verus! {

/// Only the types of this crate can be stored: each of them has a variant
/// of `Value` to itself, so no two of them share a tag.
pub trait Sealed {}

} // verus!
