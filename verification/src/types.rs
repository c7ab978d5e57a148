use vstd::prelude::*;

verus! {

/// An active stake: the principal and the ledger time at which it was staked.
#[derive(Clone, Copy, Debug, PartialEq, Eq, Structural)]
pub struct StakeRecord {
    pub amount: i128,
    pub staked_at: u64,
}

impl View for StakeRecord {
    type V = StakeRecord;

    open spec fn view(&self) -> StakeRecord {
        *self
    }
}

/// A restorable copy of an account's balance and stake.
#[derive(Clone, Copy, Debug, PartialEq, Eq, Structural)]
pub struct AccountSnapshot {
    pub balance: i128,
    pub stake: Option<StakeRecord>,
    pub captured_at: u64,
}

impl View for AccountSnapshot {
    type V = AccountSnapshot;

    open spec fn view(&self) -> AccountSnapshot {
        *self
    }
}

/// The kind of an emergency recovery operation.
#[derive(Clone, Copy, Debug, PartialEq, Eq, Structural)]
pub enum RecoveryKind {
    StateSnapshot,
    StateRestore,
    Transaction,
    Fund,
}

/// The record of an executed recovery operation, kept under its operation id
/// so that the operation runs at most once.
#[derive(Clone, Debug, PartialEq, Eq)]
pub struct RecoveryOperation {
    pub kind: RecoveryKind,
    /// The account the operation was applied to (the source for a fund move).
    pub account: Vec<u8>,
    /// The receiving account of a fund move.
    pub counterparty: Option<Vec<u8>>,
    pub amount: i128,
    pub executed_at: u64,
}

/// What a recovery operation record holds, with byte strings as sequences.
pub struct OperationView {
    pub kind: RecoveryKind,
    pub account: Seq<u8>,
    pub counterparty: Option<Seq<u8>>,
    pub amount: i128,
    pub executed_at: u64,
}

impl View for RecoveryOperation {
    type V = OperationView;

    open spec fn view(&self) -> OperationView {
        OperationView {
            kind: self.kind,
            account: self.account@,
            counterparty: match self.counterparty {
                Some(c) => Some(c@),
                None => None,
            },
            amount: self.amount,
            executed_at: self.executed_at,
        }
    }
}

/// What unstaking pays back: the principal, the accrued yield and their sum.
#[derive(Clone, Copy, Debug, PartialEq, Eq, Structural)]
pub struct UnstakeReceipt {
    pub principal: i128,
    pub yield_amount: i128,
    pub total_return: i128,
}

} // verus!
