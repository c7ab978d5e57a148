use vstd::prelude::*;

use crate::byte_map::{bytes_equal, copy_bytes, copy_opt_bytes, opt_bytes, ByteMap};
use crate::error::NovaError;
use crate::payout::{calculate_payout, compute_yield, fits_i128, payout_of, BASIS_POINTS};
use crate::state::{ContractView, CONTRACT_VERSION, MAX_SWAP_HOPS};
use crate::types::{
    AccountSnapshot, RecoveryKind, RecoveryOperation, StakeRecord, UnstakeReceipt,
};

verus! {

/// The Nova rewards contract: its storage and the operations on it.
/// Account addresses, operation ids and procedure names are byte strings.
pub struct NovaRewardsContract {
    pub admin: Option<Vec<u8>>,
    pub recovery_admin: Option<Vec<u8>>,
    pub migrated_version: u32,
    pub paused: bool,
    pub emergency_procedure: Option<Vec<u8>>,
    /// Address of the XLM token contract.
    pub xlm_token: Option<Vec<u8>>,
    /// Address of the DEX router used for multi-hop swaps.
    pub router: Option<Vec<u8>>,
    /// Staking annual rate in basis points (10000 = 100%).
    pub annual_rate: i128,
    pub balances: ByteMap<i128>,
    pub stakes: ByteMap<StakeRecord>,
    pub snapshots: ByteMap<AccountSnapshot>,
    pub operations: ByteMap<RecoveryOperation>,
}

/// A fresh copy of a recovery operation record.
fn copy_operation(op: &RecoveryOperation) -> (copy: RecoveryOperation)
    ensures
        copy@ == op@,
{
    RecoveryOperation {
        kind: op.kind,
        account: copy_bytes(&op.account),
        counterparty: copy_opt_bytes(&op.counterparty),
        amount: op.amount,
        executed_at: op.executed_at,
    }
}

impl View for NovaRewardsContract {
    type V = ContractView;

    open spec fn view(&self) -> ContractView {
        ContractView {
            admin: opt_bytes(self.admin),
            recovery_admin: opt_bytes(self.recovery_admin),
            migrated_version: self.migrated_version,
            paused: self.paused,
            emergency_procedure: opt_bytes(self.emergency_procedure),
            xlm_token: opt_bytes(self.xlm_token),
            router: opt_bytes(self.router),
            annual_rate: self.annual_rate,
            balances: self.balances@,
            stakes: self.stakes@,
            snapshots: self.snapshots@,
            operations: self.operations@,
        }
    }
}

impl NovaRewardsContract {
    /// The storage of a freshly deployed contract.
    pub fn new() -> (c: Self)
        ensures
            c@ == ContractView::deployed(),
    {
        NovaRewardsContract {
            admin: None,
            recovery_admin: None,
            migrated_version: 0,
            paused: false,
            emergency_procedure: None,
            xlm_token: None,
            router: None,
            annual_rate: 0,
            balances: ByteMap::new(),
            stakes: ByteMap::new(),
            snapshots: ByteMap::new(),
            operations: ByteMap::new(),
        }
    }

    /// The admin, who must authorize administrative operations.
    pub fn admin(&self) -> (a: Result<Vec<u8>, NovaError>)
        ensures
            match a {
                Ok(v) => self@.admin_of() == Ok::<Seq<u8>, NovaError>(v@),
                Err(e) => self@.admin_of() == Err::<Seq<u8>, NovaError>(e),
            },
    {
        match &self.admin {
            Some(a) => Ok(copy_bytes(a)),
            None => Err(NovaError::NotInitialized),
        }
    }

    /// The recovery operator, who must authorize recovery operations: the
    /// dedicated one if set, else the admin.
    pub fn recovery_admin(&self) -> (a: Result<Vec<u8>, NovaError>)
        ensures
            match a {
                Ok(v) => self@.recovery_admin_of() == Ok::<Seq<u8>, NovaError>(v@),
                Err(e) => self@.recovery_admin_of() == Err::<Seq<u8>, NovaError>(e),
            },
    {
        match &self.recovery_admin {
            Some(a) => Ok(copy_bytes(a)),
            None => self.admin(),
        }
    }

    /// Whether the recovery operation `id` has already been executed.
    fn recovery_operation_recorded(&self, id: &Vec<u8>) -> (found: bool)
        ensures
            found == self@.operations.contains_key(id@),
    {
        self.operations.contains_key(id)
    }

    /// Records the recovery operation `id` unless it is recorded already, and
    /// returns the record kept under `id`.
    fn record_recovery_operation(
        &mut self,
        id: &Vec<u8>,
        kind: RecoveryKind,
        account: &Vec<u8>,
        counterparty: Option<&Vec<u8>>,
        amount: i128,
        now: u64,
    ) -> (op: RecoveryOperation)
        ensures
            final(self)@ == old(self)@.record_operation(
                id@,
                kind,
                account@,
                match counterparty {
                    Some(c) => Some(c@),
                    None => None,
                },
                amount,
                now,
            ),
            final(self)@.operations.contains_key(id@),
            op@ == final(self)@.operations[id@],
    {
        if let Some(existing) = self.operations.get(id) {
            return copy_operation(existing);
        }
        let operation = RecoveryOperation {
            kind,
            account: copy_bytes(account),
            counterparty: match counterparty {
                Some(c) => Some(copy_bytes(c)),
                None => None,
            },
            amount,
            executed_at: now,
        };
        self.operations.insert(copy_bytes(id), copy_operation(&operation));
        proof {
            assert(self@ =~= old(self)@.record_operation(
                id@,
                kind,
                account@,
                match counterparty {
                    Some(c) => Some(c@),
                    None => None,
                },
                amount,
                now,
            ));
        }
        operation
    }

    /// The Nova points balance of `user`; zero for an account never credited.
    pub fn get_balance(&self, user: &Vec<u8>) -> (balance: i128)
        ensures
            balance == self@.balance_of(user@),
    {
        match self.balances.get(user) {
            Some(b) => *b,
            None => 0,
        }
    }

    /// Applies a compensating balance delta while the contract is paused.
    /// Positive amounts replay a missing credit; negative amounts reverse an
    /// invalid credit. An operation id that has run before changes nothing
    /// and reports the current balance.
    pub fn recover_transaction(
        &mut self,
        user: &Vec<u8>,
        amount_delta: i128,
        operation_id: &Vec<u8>,
        now: u64,
    ) -> (result: Result<i128, NovaError>)
        ensures
            match result {
                Ok(b) => old(self)@.recover_transaction(user@, amount_delta, operation_id@, now)
                    == Ok::<(ContractView, i128), NovaError>((final(self)@, b)),
                Err(e) => {
                    &&& old(self)@.recover_transaction(user@, amount_delta, operation_id@, now)
                        == Err::<(ContractView, i128), NovaError>(e)
                    &&& final(self)@ == old(self)@
                },
            },
    {
        let _operator = self.recovery_admin()?;
        if !self.paused {
            return Err(NovaError::ContractNotPaused);
        }
        if self.recovery_operation_recorded(operation_id) {
            return Ok(self.get_balance(user));
        }
        let balance = self.get_balance(user);
        let new_balance = match balance.checked_add(amount_delta) {
            Some(b) => b,
            None => {
                return Err(NovaError::Overflow);
            },
        };
        if new_balance < 0 {
            return Err(NovaError::Overdraw);
        }
        self.balances.insert(copy_bytes(user), new_balance);
        let _ = self.record_recovery_operation(
            operation_id,
            RecoveryKind::Transaction,
            user,
            None,
            amount_delta,
            now,
        );
        Ok(new_balance)
    }

    /// Moves internal funds from one account to another while paused. An
    /// operation id that has run before changes nothing.
    pub fn recover_funds(
        &mut self,
        from: &Vec<u8>,
        to: &Vec<u8>,
        amount: i128,
        operation_id: &Vec<u8>,
        now: u64,
    ) -> (result: Result<(), NovaError>)
        ensures
            match result {
                Ok(()) => old(self)@.recover_funds(from@, to@, amount, operation_id@, now)
                    == Ok::<ContractView, NovaError>(final(self)@),
                Err(e) => {
                    &&& old(self)@.recover_funds(from@, to@, amount, operation_id@, now) == Err::<
                        ContractView,
                        NovaError,
                    >(e)
                    &&& final(self)@ == old(self)@
                },
            },
    {
        let _operator = self.recovery_admin()?;
        if !self.paused {
            return Err(NovaError::ContractNotPaused);
        }
        if self.recovery_operation_recorded(operation_id) {
            return Ok(());
        }
        if amount <= 0 {
            return Err(NovaError::NonPositiveAmount);
        }
        let from_balance = self.get_balance(from);
        if from_balance < amount {
            return Err(NovaError::InsufficientBalance);
        }
        let debited = from_balance - amount;
        // The credit applies to the balance after the debit, so a move from
        // an account to itself leaves it unchanged.
        let to_balance = if bytes_equal(from, to) {
            debited
        } else {
            self.get_balance(to)
        };
        let credited = match to_balance.checked_add(amount) {
            Some(b) => b,
            None => {
                return Err(NovaError::Overflow);
            },
        };
        self.balances.insert(copy_bytes(from), debited);
        self.balances.insert(copy_bytes(to), credited);
        let _ = self.record_recovery_operation(
            operation_id,
            RecoveryKind::Fund,
            from,
            Some(to),
            amount,
            now,
        );
        Ok(())
    }

    /// The active stake of `account`, if any.
    pub fn get_stake(&self, staker: &Vec<u8>) -> (stake: Option<StakeRecord>)
        ensures
            stake == self@.stake_of(staker@),
    {
        match self.stakes.get(staker) {
            Some(r) => Some(*r),
            None => None,
        }
    }

    /// Sets or clears the stake of `staker`.
    fn write_stake(&mut self, staker: &Vec<u8>, stake: Option<StakeRecord>)
        ensures
            final(self)@ == old(self)@.with_stake(staker@, stake),
    {
        match stake {
            Some(r) => self.stakes.insert(copy_bytes(staker), r),
            None => self.stakes.remove(staker),
        }
    }

    /// Captures a restorable snapshot of an account's balance and stake. An
    /// operation id that has run before changes nothing and returns the
    /// snapshot stored for the account.
    pub fn snapshot_account(&mut self, user: &Vec<u8>, operation_id: &Vec<u8>, now: u64) -> (result:
        Result<AccountSnapshot, NovaError>)
        ensures
            match result {
                Ok(snap) => old(self)@.snapshot_account(user@, operation_id@, now) == Ok::<
                    (ContractView, AccountSnapshot),
                    NovaError,
                >((final(self)@, snap)),
                Err(e) => {
                    &&& old(self)@.snapshot_account(user@, operation_id@, now) == Err::<
                        (ContractView, AccountSnapshot),
                        NovaError,
                    >(e)
                    &&& final(self)@ == old(self)@
                },
            },
    {
        let _operator = self.recovery_admin()?;
        if self.recovery_operation_recorded(operation_id) {
            return match self.snapshots.get(user) {
                Some(s) => Ok(*s),
                None => Err(NovaError::SnapshotNotFound),
            };
        }
        let snapshot = AccountSnapshot {
            balance: self.get_balance(user),
            stake: self.get_stake(user),
            captured_at: now,
        };
        self.snapshots.insert(copy_bytes(user), snapshot);
        let _ = self.record_recovery_operation(
            operation_id,
            RecoveryKind::StateSnapshot,
            user,
            None,
            snapshot.balance,
            now,
        );
        Ok(snapshot)
    }

    /// The snapshot captured for `user`, if any.
    pub fn get_account_snapshot(&self, user: &Vec<u8>) -> (snapshot: Option<AccountSnapshot>)
        ensures
            snapshot == (if self@.snapshots.contains_key(user@) {
                Some(self@.snapshots[user@])
            } else {
                None
            }),
    {
        match self.snapshots.get(user) {
            Some(s) => Some(*s),
            None => None,
        }
    }

    /// Restores a previously captured account snapshot while the contract is
    /// paused. An operation id that has run before changes nothing.
    pub fn restore_account(&mut self, user: &Vec<u8>, operation_id: &Vec<u8>, now: u64) -> (result:
        Result<AccountSnapshot, NovaError>)
        ensures
            match result {
                Ok(snap) => old(self)@.restore_account(user@, operation_id@, now) == Ok::<
                    (ContractView, AccountSnapshot),
                    NovaError,
                >((final(self)@, snap)),
                Err(e) => {
                    &&& old(self)@.restore_account(user@, operation_id@, now) == Err::<
                        (ContractView, AccountSnapshot),
                        NovaError,
                    >(e)
                    &&& final(self)@ == old(self)@
                },
            },
    {
        let _operator = self.recovery_admin()?;
        if !self.paused {
            return Err(NovaError::ContractNotPaused);
        }
        let snapshot = match self.get_account_snapshot(user) {
            Some(s) => s,
            None => {
                return Err(NovaError::SnapshotNotFound);
            },
        };
        if self.recovery_operation_recorded(operation_id) {
            return Ok(snapshot);
        }
        self.balances.insert(copy_bytes(user), snapshot.balance);
        self.write_stake(user, snapshot.stake);
        let _ = self.record_recovery_operation(
            operation_id,
            RecoveryKind::StateRestore,
            user,
            None,
            snapshot.balance,
            now,
        );
        Ok(snapshot)
    }

    /// The record of the recovery operation `operation_id`, if it has run.
    pub fn get_recovery_operation(&self, operation_id: &Vec<u8>) -> (op: Option<RecoveryOperation>)
        ensures
            match op {
                Some(o) => self@.operations.contains_key(operation_id@) && o@ == self@.operations[operation_id@],
                None => !self@.operations.contains_key(operation_id@),
            },
    {
        match self.operations.get(operation_id) {
            Some(o) => Some(copy_operation(o)),
            None => None,
        }
    }

    /// Stake Nova tokens to earn yield over time: the amount leaves the
    /// balance and becomes the principal of a stake dated `now`.
    pub fn stake(&mut self, staker: &Vec<u8>, amount: i128, now: u64) -> (result: Result<(), NovaError>)
        ensures
            match result {
                Ok(()) => old(self)@.stake(staker@, amount, now) == Ok::<ContractView, NovaError>(
                    final(self)@,
                ),
                Err(e) => {
                    &&& old(self)@.stake(staker@, amount, now) == Err::<ContractView, NovaError>(e)
                    &&& final(self)@ == old(self)@
                },
            },
    {
        if self.paused {
            return Err(NovaError::ContractPaused);
        }
        if amount <= 0 {
            return Err(NovaError::NonPositiveAmount);
        }
        if self.stakes.contains_key(staker) {
            return Err(NovaError::StakeExists);
        }
        let balance = self.get_balance(staker);
        if balance < amount {
            return Err(NovaError::InsufficientBalance);
        }
        self.balances.insert(copy_bytes(staker), balance - amount);
        self.write_stake(staker, Some(StakeRecord { amount, staked_at: now }));
        Ok(())
    }

    /// Seconds between `since` and `now`; zero when `now` is not later.
    fn time_elapsed(now: u64, since: u64) -> (elapsed: u64)
        ensures
            elapsed == crate::payout::elapsed_since(now, since),
    {
        if now > since {
            now - since
        } else {
            0
        }
    }

    /// Unstake Nova tokens and receive the principal with its accrued yield:
    /// `amount * rate * (now - staked_at) / (10000 * SECONDS_PER_YEAR)`.
    pub fn unstake(&mut self, staker: &Vec<u8>, now: u64) -> (result: Result<UnstakeReceipt, NovaError>)
        ensures
            match result {
                Ok(receipt) => old(self)@.unstake(staker@, now) == Ok::<
                    (ContractView, UnstakeReceipt),
                    NovaError,
                >((final(self)@, receipt)),
                Err(e) => {
                    &&& old(self)@.unstake(staker@, now) == Err::<(ContractView, UnstakeReceipt), NovaError>(
                        e,
                    )
                    &&& final(self)@ == old(self)@
                },
            },
    {
        if self.paused {
            return Err(NovaError::ContractPaused);
        }
        let record = match self.get_stake(staker) {
            Some(r) => r,
            None => {
                return Err(NovaError::NoStake);
            },
        };
        let elapsed = Self::time_elapsed(now, record.staked_at);
        let yield_amount = match compute_yield(record.amount, self.annual_rate, elapsed) {
            Some(y) => y,
            None => {
                return Err(NovaError::Overflow);
            },
        };
        let total_return = match record.amount.checked_add(yield_amount) {
            Some(t) => t,
            None => {
                return Err(NovaError::Overflow);
            },
        };
        let current_balance = self.get_balance(staker);
        let new_balance = match current_balance.checked_add(total_return) {
            Some(b) => b,
            None => {
                return Err(NovaError::Overflow);
            },
        };
        self.balances.insert(copy_bytes(staker), new_balance);
        self.write_stake(staker, None);
        Ok(UnstakeReceipt { principal: record.amount, yield_amount, total_return })
    }

    /// The yield the stake of `staker` would pay if unstaked at `now`; zero
    /// when there is no stake.
    pub fn calculate_yield(&self, staker: &Vec<u8>, now: u64) -> (result: Result<i128, NovaError>)
        ensures
            result == self@.calculate_yield(staker@, now),
    {
        let record = match self.get_stake(staker) {
            Some(r) => r,
            None => {
                return Ok(0);
            },
        };
        let elapsed = Self::time_elapsed(now, record.staked_at);
        match compute_yield(record.amount, self.annual_rate, elapsed) {
            Some(y) => Ok(y),
            None => Err(NovaError::Overflow),
        }
    }

    /// The checks of a swap that come before the router is called: the
    /// contract must be running, the amounts valid, the path at most
    /// `MAX_SWAP_HOPS` long, the balance sufficient and a router configured.
    /// Returns the router to call; nothing is changed.
    pub fn prepare_swap(
        &self,
        user: &Vec<u8>,
        nova_amount: i128,
        min_xlm_out: i128,
        path: &Vec<Vec<u8>>,
    ) -> (result: Result<Vec<u8>, NovaError>)
        ensures
            match result {
                Ok(r) => self@.swap_route(user@, nova_amount, min_xlm_out, path.len() as nat) == Ok::<
                    Seq<u8>,
                    NovaError,
                >(r@),
                Err(e) => self@.swap_route(user@, nova_amount, min_xlm_out, path.len() as nat) == Err::<
                    Seq<u8>,
                    NovaError,
                >(e),
            },
    {
        if self.paused {
            return Err(NovaError::ContractPaused);
        }
        if nova_amount <= 0 {
            return Err(NovaError::NonPositiveAmount);
        }
        if min_xlm_out < 0 {
            return Err(NovaError::NegativeMinOutput);
        }
        if path.len() > MAX_SWAP_HOPS {
            return Err(NovaError::PathTooLong);
        }
        if self.get_balance(user) < nova_amount {
            return Err(NovaError::InsufficientBalance);
        }
        match &self.router {
            Some(r) => Ok(copy_bytes(r)),
            None => Err(NovaError::RouterNotConfigured),
        }
    }

    /// Burns `nova_amount` Nova points of `user` in exchange for the
    /// `xlm_received` that the router delivered along `path`, guarding
    /// against slippage below `min_xlm_out`. Returns the amount received.
    pub fn swap_for_xlm(
        &mut self,
        user: &Vec<u8>,
        nova_amount: i128,
        min_xlm_out: i128,
        path: &Vec<Vec<u8>>,
        xlm_received: i128,
    ) -> (result: Result<i128, NovaError>)
        ensures
            match result {
                Ok(x) => old(self)@.swap_for_xlm(
                    user@,
                    nova_amount,
                    min_xlm_out,
                    path.len() as nat,
                    xlm_received,
                ) == Ok::<(ContractView, i128), NovaError>((final(self)@, x)),
                Err(e) => {
                    &&& old(self)@.swap_for_xlm(
                        user@,
                        nova_amount,
                        min_xlm_out,
                        path.len() as nat,
                        xlm_received,
                    ) == Err::<(ContractView, i128), NovaError>(e)
                    &&& final(self)@ == old(self)@
                },
            },
    {
        let _router = self.prepare_swap(user, nova_amount, min_xlm_out, path)?;
        if xlm_received < min_xlm_out {
            return Err(NovaError::Slippage);
        }
        let balance = self.get_balance(user);
        self.balances.insert(copy_bytes(user), balance - nova_amount);
        Ok(xlm_received)
    }

    /// Must be called once after deployment to set the admin, who is also the
    /// first recovery operator.
    pub fn initialize(&mut self, admin: &Vec<u8>) -> (result: Result<(), NovaError>)
        ensures
            match result {
                Ok(()) => old(self)@.initialize(admin@) == Ok::<ContractView, NovaError>(final(self)@),
                Err(e) => {
                    &&& old(self)@.initialize(admin@) == Err::<ContractView, NovaError>(e)
                    &&& final(self)@ == old(self)@
                },
            },
    {
        if self.admin.is_some() {
            return Err(NovaError::AlreadyInitialized);
        }
        self.admin = Some(copy_bytes(admin));
        self.recovery_admin = Some(copy_bytes(admin));
        self.migrated_version = 0;
        self.paused = false;
        Ok(())
    }

    /// Sets the XLM token address and the DEX router address. Admin only.
    pub fn set_swap_config(&mut self, xlm_token: &Vec<u8>, router: &Vec<u8>) -> (result: Result<
        (),
        NovaError,
    >)
        ensures
            match result {
                Ok(()) => old(self)@.set_swap_config(xlm_token@, router@) == Ok::<ContractView, NovaError>(
                    final(self)@,
                ),
                Err(e) => {
                    &&& old(self)@.set_swap_config(xlm_token@, router@) == Err::<ContractView, NovaError>(
                        e,
                    )
                    &&& final(self)@ == old(self)@
                },
            },
    {
        let _admin = self.admin()?;
        self.xlm_token = Some(copy_bytes(xlm_token));
        self.router = Some(copy_bytes(router));
        Ok(())
    }

    /// Assigns a dedicated recovery operator for emergency procedures. Admin
    /// only.
    pub fn set_recovery_admin(&mut self, recovery_admin: &Vec<u8>) -> (result: Result<(), NovaError>)
        ensures
            match result {
                Ok(()) => old(self)@.set_recovery_admin(recovery_admin@) == Ok::<ContractView, NovaError>(
                    final(self)@,
                ),
                Err(e) => {
                    &&& old(self)@.set_recovery_admin(recovery_admin@) == Err::<
                        ContractView,
                        NovaError,
                    >(e)
                    &&& final(self)@ == old(self)@
                },
            },
    {
        let _admin = self.admin()?;
        self.recovery_admin = Some(copy_bytes(recovery_admin));
        Ok(())
    }

    /// Pauses state-changing user operations and records the active
    /// procedure. Admin only.
    pub fn pause(&mut self, procedure: &Vec<u8>) -> (result: Result<(), NovaError>)
        ensures
            match result {
                Ok(()) => old(self)@.pause(procedure@) == Ok::<ContractView, NovaError>(final(self)@),
                Err(e) => {
                    &&& old(self)@.pause(procedure@) == Err::<ContractView, NovaError>(e)
                    &&& final(self)@ == old(self)@
                },
            },
    {
        let _admin = self.admin()?;
        self.paused = true;
        self.emergency_procedure = Some(copy_bytes(procedure));
        Ok(())
    }

    /// Resumes normal operation after a recovery workflow. Admin only.
    pub fn resume(&mut self) -> (result: Result<(), NovaError>)
        ensures
            match result {
                Ok(()) => old(self)@.resume() == Ok::<ContractView, NovaError>(final(self)@),
                Err(e) => {
                    &&& old(self)@.resume() == Err::<ContractView, NovaError>(e)
                    &&& final(self)@ == old(self)@
                },
            },
    {
        let _admin = self.admin()?;
        self.paused = false;
        self.emergency_procedure = None;
        Ok(())
    }

    /// Whether user operations are paused.
    pub fn is_paused(&self) -> (paused: bool)
        ensures
            paused == self@.paused,
    {
        self.paused
    }

    /// The recovery operator.
    pub fn get_recovery_admin(&self) -> (a: Result<Vec<u8>, NovaError>)
        ensures
            match a {
                Ok(v) => self@.recovery_admin_of() == Ok::<Seq<u8>, NovaError>(v@),
                Err(e) => self@.recovery_admin_of() == Err::<Seq<u8>, NovaError>(e),
            },
    {
        self.recovery_admin()
    }

    /// The procedure recorded by the last `pause`, while paused.
    pub fn get_emergency_procedure(&self) -> (procedure: Option<Vec<u8>>)
        ensures
            opt_bytes(procedure) == self@.emergency_procedure,
    {
        copy_opt_bytes(&self.emergency_procedure)
    }

    /// Admin-only check before the contract code is replaced; returns the
    /// migration version to report with the upgrade.
    pub fn upgrade(&self) -> (result: Result<u32, NovaError>)
        ensures
            match result {
                Ok(v) => self@.admin is Some && v == self@.migrated_version,
                Err(e) => self@.admin is None && e == NovaError::NotInitialized,
            },
    {
        let _admin = self.admin()?;
        Ok(self.migrated_version)
    }

    /// Runs the data migration for the current code version, once. Admin
    /// only.
    pub fn migrate(&mut self) -> (result: Result<(), NovaError>)
        ensures
            match result {
                Ok(()) => old(self)@.migrate() == Ok::<ContractView, NovaError>(final(self)@),
                Err(e) => {
                    &&& old(self)@.migrate() == Err::<ContractView, NovaError>(e)
                    &&& final(self)@ == old(self)@
                },
            },
    {
        let _admin = self.admin()?;
        if CONTRACT_VERSION <= self.migrated_version {
            return Err(NovaError::MigrationAlreadyApplied);
        }
        self.migrated_version = CONTRACT_VERSION;
        Ok(())
    }

    /// Sets the balance of `user` directly.
    pub fn set_balance(&mut self, user: &Vec<u8>, amount: i128)
        ensures
            final(self)@ == old(self)@.with_balance(user@, amount),
    {
        self.balances.insert(copy_bytes(user), amount);
    }

    /// The version of the last migration applied.
    pub fn get_migrated_version(&self) -> (version: u32)
        ensures
            version == self@.migrated_version,
    {
        self.migrated_version
    }

    /// The payout of `balance` at `rate` (scaled by `SCALE_FACTOR`), or
    /// `Overflow` where `balance * rate` does not fit in an `i128`.
    pub fn calc_payout(&self, balance: i128, rate: i128) -> (result: Result<i128, NovaError>)
        ensures
            match result {
                Ok(p) => fits_i128(balance * rate) && p == payout_of(balance as int, rate as int),
                Err(e) => !fits_i128(balance * rate) && e == NovaError::Overflow,
            },
    {
        if balance.checked_mul(rate).is_none() {
            return Err(NovaError::Overflow);
        }
        Ok(calculate_payout(balance, rate))
    }

    /// Sets the annual staking rate, in basis points (10000 = 100%). Admin
    /// only.
    pub fn set_annual_rate(&mut self, rate: i128) -> (result: Result<(), NovaError>)
        ensures
            match result {
                Ok(()) => old(self)@.set_annual_rate(rate) == Ok::<ContractView, NovaError>(final(self)@),
                Err(e) => {
                    &&& old(self)@.set_annual_rate(rate) == Err::<ContractView, NovaError>(e)
                    &&& final(self)@ == old(self)@
                },
            },
    {
        let _admin = self.admin()?;
        if rate < 0 || rate > BASIS_POINTS {
            return Err(NovaError::InvalidRate);
        }
        self.annual_rate = rate;
        Ok(())
    }

    /// The annual staking rate, in basis points.
    pub fn get_annual_rate(&self) -> (rate: i128)
        ensures
            rate == self@.annual_rate,
    {
        self.annual_rate
    }

}

} // verus!
