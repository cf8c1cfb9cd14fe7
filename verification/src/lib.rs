//! An administrable governance and ledger-integrity layer for a fungible
//! token hosted on a blockchain runtime.
//!
//! The library is the contract's decision core: a pure state machine over
//! plain values. Every entry point takes the authenticated caller identity
//! as an argument, checks the access-control policy (single owner, guardian
//! set, per-account blacklist, pause circuit breaker), and either mutates
//! the state or returns an error while leaving the state untouched — the
//! host chain's all-or-nothing call semantics are mirrored by the
//! "no change on `Err`" postconditions. The token ledger (total supply and
//! per-account balances) is modelled here as well, with the invariant that
//! the total supply always equals the sum of all balances.
//!
//! Host concerns — reading the caller from the transaction context,
//! persisting the state, emitting events, scheduling the deploy-and-migrate
//! promise batch — live outside the library, in the thin runtime shim.

mod account;
mod assoc;
mod contract;
mod ledger;
mod metadata;
mod roster;
mod types;
mod upgrade;

pub use account::AccountId;
pub use assoc::keyed;
pub use assoc::map_of;
pub use assoc::unique_keys;
pub use contract::status_in;
pub use contract::Contract;
pub use contract::ContractView;
pub use contract::PersistedState;
pub use contract::VERSION_TAG;
pub use ledger::min_u128;
pub use ledger::spec_refund;
pub use ledger::spec_transfer_error;
pub use ledger::spec_unused;
pub use ledger::sum_entries;
pub use ledger::Ledger;
pub use metadata::FungibleTokenMetadata;
pub use metadata::MetaView;
pub use roster::all_present;
pub use roster::names_of;
pub use roster::none_present;
pub use roster::pairwise_distinct;
pub use roster::unique_members;
pub use roster::Roster;
pub use types::BlackListStatus;
pub use types::ContractStatus;
pub use types::Error;
pub use upgrade::upgrade;
pub use upgrade::UpgradeBatch;
