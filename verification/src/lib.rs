//! A one-time, deadline-bounded token distribution.
//!
//! An administrator registers allocations, freezes them, and recipients pull
//! their allocation before a fixed ledger deadline; whatever is left after the
//! deadline is refunded to the administrator. The host environment (persistent
//! storage, authorization, token transfers, the ledger clock, the event sink)
//! stays outside: the contract logic here works on an explicit state value and
//! plain inputs, and tells its caller which transfer to perform.

pub mod contract;
pub mod errors;
pub mod events;
pub mod ident;
pub mod storage;

pub use contract::Distributor;
pub use errors::ContractError;
pub use events::ClaimEvent;
pub use events::ContractEvents;
pub use ident::Identity;
pub use storage::ONE_DAY_LEDGERS;
