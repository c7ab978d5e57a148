use vstd::prelude::*;

verus! {

/// Every way in which a request to the contract can be refused.
#[derive(Clone, Copy, Debug, PartialEq, Eq, Structural)]
pub enum NovaError {
    /// `initialize` was called on an initialized contract.
    AlreadyInitialized,
    /// The operation needs an admin and none has been set.
    NotInitialized,
    /// A user operation was requested while the contract is paused.
    ContractPaused,
    /// A recovery operation was requested while the contract is running.
    ContractNotPaused,
    /// An amount that must be positive was zero or negative.
    NonPositiveAmount,
    /// The minimum output of a swap was negative.
    NegativeMinOutput,
    /// The swap path has more intermediate hops than the protocol allows.
    PathTooLong,
    /// The account does not hold enough Nova points.
    InsufficientBalance,
    /// No DEX router has been configured.
    RouterNotConfigured,
    /// The router delivered less than the requested minimum.
    Slippage,
    /// The migration for the current code version has already run.
    MigrationAlreadyApplied,
    /// The annual rate lies outside `0..=10000` basis points.
    InvalidRate,
    /// The account already has an active stake.
    StakeExists,
    /// The account has no active stake.
    NoStake,
    /// No snapshot has been captured for the account.
    SnapshotNotFound,
    /// A recovery would leave a negative balance.
    Overdraw,
    /// An intermediate or final amount does not fit in an `i128`.
    Overflow,
}

} // verus!
