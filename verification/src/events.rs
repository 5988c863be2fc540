use vstd::prelude::*;

use crate::ident::Identity;

verus! {

/// A claim notification, ready for the host's event sink. Publication is
/// fire-and-forget and purely observational: nothing feeds back into the
/// state machine.
#[derive(Clone, Copy, PartialEq, Eq, Structural, Debug)]
pub struct ClaimEvent {
    pub user: Identity,
    pub amount: i128,
}

impl ClaimEvent {
    /// The topic under which the host publishes a claim.
    pub fn topic(&self) -> (r: &'static str)
        ensures
            r@ == "dist_claim"@,
    {
        "dist_claim"
    }
}

pub struct ContractEvents {}

impl ContractEvents {
    /// Emitted when a distribution is claimed
    ///
    /// - topics - `["dist_claim", user]`
    /// - data - `amount`
    pub fn claim(user: Identity, amount: i128) -> (ev: ClaimEvent)
        ensures
            ev.user == user,
            ev.amount == amount,
    {
        ClaimEvent { user, amount }
    }
}

} // verus!
