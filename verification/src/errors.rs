use vstd::prelude::*;

verus! {

/// The error codes for the contract.
///
/// Every failing operation aborts with one of these and leaves the state
/// untouched; the contracts on `Distributor` state exactly which inputs
/// produce which error.
#[derive(Clone, Copy, PartialEq, Eq, Structural, Debug)]
pub enum ContractError {
    // Default errors to align with built-in contract
    InternalError,
    AlreadyInitializedError,
    UnauthorizedError,
    NegativeAmountError,
    AllowanceError,
    BalanceError,
    OverflowError,
    // Custom errors
    DeadlineError,
    NotFinalizedError,
    AlreadyClaimedError,
    AlreadyFinalizedError,
    NoDistributionError,
}

} // verus!
