use vstd::prelude::*;

verus! {

/// An identity as the host hands it to the contract: an account or contract
/// address. The distribution logic never looks inside an identity; it only
/// compares identities for equality, so one is carried here as an opaque
/// numeric handle.
#[derive(Clone, Copy, PartialEq, Eq, Structural, Debug)]
pub struct Identity {
    pub id: u64,
}

} // verus!
