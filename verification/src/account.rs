use vstd::prelude::*;

verus! {

/// An account identity: an opaque fixed-width value used only as a lookup
/// key. Equality is exact on the underlying bits; no arithmetic is ever
/// performed on it.
#[derive(Clone, Copy, PartialEq, Eq, Structural, Debug)]
pub struct Address {
    pub id: u64,
}

} // verus!
