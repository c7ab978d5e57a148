use vstd::prelude::*;

use crate::error::NovaError;
use crate::payout::{accrued_yield, elapsed_since, fits_i128, yield_overflows, BASIS_POINTS};
use crate::types::{AccountSnapshot, OperationView, RecoveryKind, StakeRecord, UnstakeReceipt};

verus! {

/// The code version whose data migration `migrate` applies.
pub const CONTRACT_VERSION: u32 = 1;

/// The most intermediate hops a swap path may have.
pub const MAX_SWAP_HOPS: usize = 5;

/// The contract's storage, as mathematical values: account addresses and
/// operation ids are byte strings.
#[verifier::ext_equal]
pub struct ContractView {
    pub admin: Option<Seq<u8>>,
    pub recovery_admin: Option<Seq<u8>>,
    pub migrated_version: u32,
    pub paused: bool,
    pub emergency_procedure: Option<Seq<u8>>,
    pub xlm_token: Option<Seq<u8>>,
    pub router: Option<Seq<u8>>,
    pub annual_rate: i128,
    pub balances: Map<Seq<u8>, i128>,
    pub stakes: Map<Seq<u8>, StakeRecord>,
    pub snapshots: Map<Seq<u8>, AccountSnapshot>,
    pub operations: Map<Seq<u8>, OperationView>,
}

impl ContractView {
    /// The storage of a freshly deployed contract: nothing is set.
    pub open spec fn deployed() -> ContractView {
        ContractView {
            admin: None,
            recovery_admin: None,
            migrated_version: 0,
            paused: false,
            emergency_procedure: None,
            xlm_token: None,
            router: None,
            annual_rate: 0,
            balances: Map::empty(),
            stakes: Map::empty(),
            snapshots: Map::empty(),
            operations: Map::empty(),
        }
    }

    /// What every reachable storage satisfies: the rate is a valid number of
    /// basis points, no migration beyond the current version has run, and
    /// every stake, live or captured in a snapshot, has a positive principal.
    pub open spec fn inv(self) -> bool {
        &&& 0 <= self.annual_rate <= BASIS_POINTS
        &&& self.migrated_version <= CONTRACT_VERSION
        &&& forall|a: Seq<u8>| #[trigger] self.stakes.contains_key(a) ==> self.stakes[a].amount > 0
        &&& forall|a: Seq<u8>|
            #[trigger] self.snapshots.contains_key(a) ==> match self.snapshots[a].stake {
                Some(r) => r.amount > 0,
                None => true,
            }
    }

    /// The admin, who must authorize every administrative operation.
    pub open spec fn admin_of(self) -> Result<Seq<u8>, NovaError> {
        match self.admin {
            Some(a) => Ok(a),
            None => Err(NovaError::NotInitialized),
        }
    }

    /// The recovery operator: the dedicated one if set, else the admin.
    pub open spec fn recovery_admin_of(self) -> Result<Seq<u8>, NovaError> {
        match self.recovery_admin {
            Some(r) => Ok(r),
            None => self.admin_of(),
        }
    }

    /// The balance of an account; zero for one never written.
    pub open spec fn balance_of(self, account: Seq<u8>) -> i128 {
        if self.balances.contains_key(account) {
            self.balances[account]
        } else {
            0
        }
    }

    /// The active stake of an account, if any.
    pub open spec fn stake_of(self, account: Seq<u8>) -> Option<StakeRecord> {
        if self.stakes.contains_key(account) {
            Some(self.stakes[account])
        } else {
            None
        }
    }

    /// The storage with the balance of `account` set to `amount`.
    pub open spec fn with_balance(self, account: Seq<u8>, amount: i128) -> ContractView {
        ContractView { balances: self.balances.insert(account, amount), ..self }
    }

    /// The storage with the stake of `account` set, or cleared for `None`.
    pub open spec fn with_stake(self, account: Seq<u8>, stake: Option<StakeRecord>) -> ContractView {
        match stake {
            Some(r) => ContractView { stakes: self.stakes.insert(account, r), ..self },
            None => ContractView { stakes: self.stakes.remove(account), ..self },
        }
    }

    /// Records a recovery operation under `id`, unless one is recorded there.
    pub open spec fn record_operation(
        self,
        id: Seq<u8>,
        kind: RecoveryKind,
        account: Seq<u8>,
        counterparty: Option<Seq<u8>>,
        amount: i128,
        now: u64,
    ) -> ContractView {
        if self.operations.contains_key(id) {
            self
        } else {
            ContractView {
                operations: self.operations.insert(
                    id,
                    OperationView { kind, account, counterparty, amount, executed_at: now },
                ),
                ..self
            }
        }
    }

    pub open spec fn initialize(self, admin: Seq<u8>) -> Result<ContractView, NovaError> {
        if self.admin is Some {
            Err(NovaError::AlreadyInitialized)
        } else {
            Ok(
                ContractView {
                    admin: Some(admin),
                    recovery_admin: Some(admin),
                    migrated_version: 0,
                    paused: false,
                    ..self
                },
            )
        }
    }

    pub open spec fn set_swap_config(self, xlm_token: Seq<u8>, router: Seq<u8>) -> Result<
        ContractView,
        NovaError,
    > {
        match self.admin_of() {
            Err(e) => Err(e),
            Ok(_) => Ok(ContractView { xlm_token: Some(xlm_token), router: Some(router), ..self }),
        }
    }

    pub open spec fn set_recovery_admin(self, recovery_admin: Seq<u8>) -> Result<
        ContractView,
        NovaError,
    > {
        match self.admin_of() {
            Err(e) => Err(e),
            Ok(_) => Ok(ContractView { recovery_admin: Some(recovery_admin), ..self }),
        }
    }

    pub open spec fn pause(self, procedure: Seq<u8>) -> Result<ContractView, NovaError> {
        match self.admin_of() {
            Err(e) => Err(e),
            Ok(_) => Ok(ContractView { paused: true, emergency_procedure: Some(procedure), ..self }),
        }
    }

    pub open spec fn resume(self) -> Result<ContractView, NovaError> {
        match self.admin_of() {
            Err(e) => Err(e),
            Ok(_) => Ok(ContractView { paused: false, emergency_procedure: None, ..self }),
        }
    }

    pub open spec fn migrate(self) -> Result<ContractView, NovaError> {
        match self.admin_of() {
            Err(e) => Err(e),
            Ok(_) => if CONTRACT_VERSION <= self.migrated_version {
                Err(NovaError::MigrationAlreadyApplied)
            } else {
                Ok(ContractView { migrated_version: CONTRACT_VERSION, ..self })
            },
        }
    }

    pub open spec fn set_annual_rate(self, rate: i128) -> Result<ContractView, NovaError> {
        match self.admin_of() {
            Err(e) => Err(e),
            Ok(_) => if rate < 0 || rate > BASIS_POINTS {
                Err(NovaError::InvalidRate)
            } else {
                Ok(ContractView { annual_rate: rate, ..self })
            },
        }
    }

    /// The checks of a swap before the router is called; its result is the
    /// router to call.
    pub open spec fn swap_route(
        self,
        user: Seq<u8>,
        nova_amount: i128,
        min_xlm_out: i128,
        path_len: nat,
    ) -> Result<Seq<u8>, NovaError> {
        if self.paused {
            Err(NovaError::ContractPaused)
        } else if nova_amount <= 0 {
            Err(NovaError::NonPositiveAmount)
        } else if min_xlm_out < 0 {
            Err(NovaError::NegativeMinOutput)
        } else if path_len > MAX_SWAP_HOPS {
            Err(NovaError::PathTooLong)
        } else if self.balance_of(user) < nova_amount {
            Err(NovaError::InsufficientBalance)
        } else {
            match self.router {
                Some(r) => Ok(r),
                None => Err(NovaError::RouterNotConfigured),
            }
        }
    }

    /// A whole swap, given what the router delivered: the Nova points are
    /// burned and the delivered amount returned, unless it is below the
    /// minimum.
    pub open spec fn swap_for_xlm(
        self,
        user: Seq<u8>,
        nova_amount: i128,
        min_xlm_out: i128,
        path_len: nat,
        xlm_received: i128,
    ) -> Result<(ContractView, i128), NovaError> {
        match self.swap_route(user, nova_amount, min_xlm_out, path_len) {
            Err(e) => Err(e),
            Ok(_) => if xlm_received < min_xlm_out {
                Err(NovaError::Slippage)
            } else {
                Ok(
                    (
                        self.with_balance(user, (self.balance_of(user) - nova_amount) as i128),
                        xlm_received,
                    ),
                )
            },
        }
    }

    pub open spec fn stake(self, staker: Seq<u8>, amount: i128, now: u64) -> Result<
        ContractView,
        NovaError,
    > {
        if self.paused {
            Err(NovaError::ContractPaused)
        } else if amount <= 0 {
            Err(NovaError::NonPositiveAmount)
        } else if self.stakes.contains_key(staker) {
            Err(NovaError::StakeExists)
        } else if self.balance_of(staker) < amount {
            Err(NovaError::InsufficientBalance)
        } else {
            Ok(
                self.with_balance(staker, (self.balance_of(staker) - amount) as i128).with_stake(
                    staker,
                    Some(StakeRecord { amount, staked_at: now }),
                ),
            )
        }
    }

    /// The yield accrued by the stake of `staker` at time `now`; zero
    /// without a stake.
    pub open spec fn calculate_yield(self, staker: Seq<u8>, now: u64) -> Result<i128, NovaError> {
        match self.stake_of(staker) {
            None => Ok(0),
            Some(r) => {
                let elapsed = elapsed_since(now, r.staked_at);
                if yield_overflows(r.amount as int, self.annual_rate as int, elapsed) {
                    Err(NovaError::Overflow)
                } else {
                    Ok(accrued_yield(r.amount as int, self.annual_rate as int, elapsed) as i128)
                }
            },
        }
    }

    pub open spec fn unstake(self, staker: Seq<u8>, now: u64) -> Result<
        (ContractView, UnstakeReceipt),
        NovaError,
    > {
        if self.paused {
            Err(NovaError::ContractPaused)
        } else {
            match self.stake_of(staker) {
                None => Err(NovaError::NoStake),
                Some(r) => {
                    let elapsed = elapsed_since(now, r.staked_at);
                    if yield_overflows(r.amount as int, self.annual_rate as int, elapsed) {
                        Err(NovaError::Overflow)
                    } else {
                        let y = accrued_yield(r.amount as int, self.annual_rate as int, elapsed);
                        let total = r.amount + y;
                        let new_balance = self.balance_of(staker) + total;
                        if !fits_i128(total) || !fits_i128(new_balance) {
                            Err(NovaError::Overflow)
                        } else {
                            Ok(
                                (
                                    self.with_balance(staker, new_balance as i128).with_stake(
                                        staker,
                                        None,
                                    ),
                                    UnstakeReceipt {
                                        principal: r.amount,
                                        yield_amount: y as i128,
                                        total_return: total as i128,
                                    },
                                ),
                            )
                        }
                    }
                },
            }
        }
    }

    pub open spec fn snapshot_account(self, user: Seq<u8>, id: Seq<u8>, now: u64) -> Result<
        (ContractView, AccountSnapshot),
        NovaError,
    > {
        match self.recovery_admin_of() {
            Err(e) => Err(e),
            Ok(_) => if self.operations.contains_key(id) {
                if self.snapshots.contains_key(user) {
                    Ok((self, self.snapshots[user]))
                } else {
                    Err(NovaError::SnapshotNotFound)
                }
            } else {
                let snap = AccountSnapshot {
                    balance: self.balance_of(user),
                    stake: self.stake_of(user),
                    captured_at: now,
                };
                let stored = ContractView { snapshots: self.snapshots.insert(user, snap), ..self };
                Ok(
                    (
                        stored.record_operation(
                            id,
                            RecoveryKind::StateSnapshot,
                            user,
                            None,
                            snap.balance,
                            now,
                        ),
                        snap,
                    ),
                )
            },
        }
    }

    pub open spec fn restore_account(self, user: Seq<u8>, id: Seq<u8>, now: u64) -> Result<
        (ContractView, AccountSnapshot),
        NovaError,
    > {
        match self.recovery_admin_of() {
            Err(e) => Err(e),
            Ok(_) => if !self.paused {
                Err(NovaError::ContractNotPaused)
            } else if !self.snapshots.contains_key(user) {
                Err(NovaError::SnapshotNotFound)
            } else if self.operations.contains_key(id) {
                Ok((self, self.snapshots[user]))
            } else {
                let snap = self.snapshots[user];
                let restored = self.with_balance(user, snap.balance).with_stake(user, snap.stake);
                Ok(
                    (
                        restored.record_operation(
                            id,
                            RecoveryKind::StateRestore,
                            user,
                            None,
                            snap.balance,
                            now,
                        ),
                        snap,
                    ),
                )
            },
        }
    }

    pub open spec fn recover_transaction(
        self,
        user: Seq<u8>,
        amount_delta: i128,
        id: Seq<u8>,
        now: u64,
    ) -> Result<(ContractView, i128), NovaError> {
        match self.recovery_admin_of() {
            Err(e) => Err(e),
            Ok(_) => if !self.paused {
                Err(NovaError::ContractNotPaused)
            } else if self.operations.contains_key(id) {
                Ok((self, self.balance_of(user)))
            } else {
                let new_balance = self.balance_of(user) + amount_delta;
                if !fits_i128(new_balance) {
                    Err(NovaError::Overflow)
                } else if new_balance < 0 {
                    Err(NovaError::Overdraw)
                } else {
                    Ok(
                        (
                            self.with_balance(user, new_balance as i128).record_operation(
                                id,
                                RecoveryKind::Transaction,
                                user,
                                None,
                                amount_delta,
                                now,
                            ),
                            new_balance as i128,
                        ),
                    )
                }
            },
        }
    }

    pub open spec fn recover_funds(
        self,
        from: Seq<u8>,
        to: Seq<u8>,
        amount: i128,
        id: Seq<u8>,
        now: u64,
    ) -> Result<ContractView, NovaError> {
        match self.recovery_admin_of() {
            Err(e) => Err(e),
            Ok(_) => if !self.paused {
                Err(NovaError::ContractNotPaused)
            } else if self.operations.contains_key(id) {
                Ok(self)
            } else if amount <= 0 {
                Err(NovaError::NonPositiveAmount)
            } else if self.balance_of(from) < amount {
                Err(NovaError::InsufficientBalance)
            } else {
                let debited = self.with_balance(from, (self.balance_of(from) - amount) as i128);
                if !fits_i128(debited.balance_of(to) + amount) {
                    Err(NovaError::Overflow)
                } else {
                    Ok(
                        debited.with_balance(
                            to,
                            (debited.balance_of(to) + amount) as i128,
                        ).record_operation(id, RecoveryKind::Fund, from, Some(to), amount, now),
                    )
                }
            },
        }
    }
}

/// A request that changes the contract's storage, with its arguments.
pub enum Request {
    Initialize { admin: Seq<u8> },
    SetSwapConfig { xlm_token: Seq<u8>, router: Seq<u8> },
    SetRecoveryAdmin { operator: Seq<u8> },
    Pause { procedure: Seq<u8> },
    Resume,
    Migrate,
    SetBalance { user: Seq<u8>, amount: i128 },
    SetAnnualRate { rate: i128 },
    SwapForXlm { user: Seq<u8>, nova_amount: i128, min_xlm_out: i128, path_len: nat, xlm_received: i128 },
    Stake { staker: Seq<u8>, amount: i128, now: u64 },
    Unstake { staker: Seq<u8>, now: u64 },
    SnapshotAccount { user: Seq<u8>, id: Seq<u8>, now: u64 },
    RestoreAccount { user: Seq<u8>, id: Seq<u8>, now: u64 },
    RecoverTransaction { user: Seq<u8>, amount_delta: i128, id: Seq<u8>, now: u64 },
    RecoverFunds { from: Seq<u8>, to: Seq<u8>, amount: i128, id: Seq<u8>, now: u64 },
}

/// The storage after a transition that succeeded, or the storage as it was
/// where the transition refused.
pub open spec fn after<T>(s: ContractView, r: Result<T, NovaError>, t: spec_fn(T) -> ContractView) -> ContractView {
    match r {
        Ok(v) => t(v),
        Err(_) => s,
    }
}

impl ContractView {
    /// The storage after serving `req`: changed as the request's operation
    /// says where it succeeds, unchanged where it is refused.
    pub open spec fn apply(self, req: Request) -> ContractView {
        match req {
            Request::Initialize { admin } => after(self, self.initialize(admin), |t: ContractView| t),
            Request::SetSwapConfig { xlm_token, router } => after(
                self,
                self.set_swap_config(xlm_token, router),
                |t: ContractView| t,
            ),
            Request::SetRecoveryAdmin { operator } => after(
                self,
                self.set_recovery_admin(operator),
                |t: ContractView| t,
            ),
            Request::Pause { procedure } => after(self, self.pause(procedure), |t: ContractView| t),
            Request::Resume => after(self, self.resume(), |t: ContractView| t),
            Request::Migrate => after(self, self.migrate(), |t: ContractView| t),
            Request::SetBalance { user, amount } => self.with_balance(user, amount),
            Request::SetAnnualRate { rate } => after(self, self.set_annual_rate(rate), |t: ContractView| t),
            Request::SwapForXlm { user, nova_amount, min_xlm_out, path_len, xlm_received } => after(
                self,
                self.swap_for_xlm(user, nova_amount, min_xlm_out, path_len, xlm_received),
                |p: (ContractView, i128)| p.0,
            ),
            Request::Stake { staker, amount, now } => after(
                self,
                self.stake(staker, amount, now),
                |t: ContractView| t,
            ),
            Request::Unstake { staker, now } => after(
                self,
                self.unstake(staker, now),
                |p: (ContractView, UnstakeReceipt)| p.0,
            ),
            Request::SnapshotAccount { user, id, now } => after(
                self,
                self.snapshot_account(user, id, now),
                |p: (ContractView, AccountSnapshot)| p.0,
            ),
            Request::RestoreAccount { user, id, now } => after(
                self,
                self.restore_account(user, id, now),
                |p: (ContractView, AccountSnapshot)| p.0,
            ),
            Request::RecoverTransaction { user, amount_delta, id, now } => after(
                self,
                self.recover_transaction(user, amount_delta, id, now),
                |p: (ContractView, i128)| p.0,
            ),
            Request::RecoverFunds { from, to, amount, id, now } => after(
                self,
                self.recover_funds(from, to, amount, id, now),
                |t: ContractView| t,
            ),
        }
    }

    /// The storage after serving the requests of `reqs` in order.
    pub open spec fn run(self, reqs: Seq<Request>) -> ContractView
        decreases reqs.len(),
    {
        if reqs.len() == 0 {
            self
        } else {
            self.run(reqs.drop_last()).apply(reqs.last())
        }
    }
}

} // verus!
