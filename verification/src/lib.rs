//! Two cooperating ledgers for one fungible asset: a token ledger
//! (balances, allowances, a rate-limited faucet) and a vault
//! (custodial balances and time-locked savings) that moves value
//! through the token ledger.
//!
//! The host environment supplies persistence, authorization, the
//! clock and sequence oracle, and the event sink; this crate holds
//! the state-transition core, with every operation verified against
//! its contract.  Account identities are opaque to the core: it only
//! compares them, so they appear here as plain `u64` identifiers the
//! host assigns to its own address values.

pub mod errors;
pub mod laws;
pub mod store;
pub mod token;
pub mod vault;

pub use errors::Error;
pub use token::SenteToken;
pub use vault::SenteVault;
