//! Failure taxonomy shared by the token ledger and the vault.
//!
//! Every failure aborts the whole operation: a function that returns
//! one of these errors leaves its state exactly as it was.

use vstd::prelude::*;

verus! {

/// Why an operation was rejected.
#[derive(Clone, Copy, Debug, PartialEq, Eq, Structural)]
pub enum Error {
    /// The setup entry point was run a second time.
    AlreadyInitialized,
    /// Metadata or configuration was read, or a dependent operation
    /// attempted, before setup.
    NotInitialized,
    /// The caller is not the identity the operation is reserved for.
    Unauthorized,
    /// A negative amount, a non-positive amount where positivity is
    /// required, or an amount that would push a stored quantity past
    /// its representable range.
    InvalidAmount,
    /// The requested amount exceeds the liquid balance.
    InsufficientBalance,
    /// The requested amount exceeds the remaining allowance.
    InsufficientAllowance,
    /// The requested amount exceeds the savings balance.
    InsufficientSavings,
    /// The faucet was claimed again before the cooldown elapsed.
    CooldownActive,
    /// A savings withdrawal was attempted before the unlock threshold.
    StillLocked,
    /// A lock duration outside the accepted range of days.
    InvalidLockDuration,
}

} // verus!
