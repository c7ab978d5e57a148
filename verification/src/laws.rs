use vstd::prelude::*;

use crate::error::NovaError;
use crate::payout::{
    accrued_yield, payout_of, yield_divisor, BASIS_POINTS, SCALE_FACTOR,
    SECONDS_PER_YEAR,
};
use crate::state::{ContractView, Request};
use crate::types::{AccountSnapshot, OperationView, RecoveryKind, StakeRecord, UnstakeReceipt};

verus! {

/// A freshly deployed contract satisfies the storage invariant.
pub proof fn lemma_deployed_inv()
    ensures
        ContractView::deployed().inv(),
{
}

/// The administrative operations keep the storage invariant.
pub proof fn lemma_admin_operations_keep_inv(
    s: ContractView,
    account: Seq<u8>,
    other: Seq<u8>,
    rate: i128,
    balance: i128,
)
    requires
        s.inv(),
    ensures
        s.initialize(account) matches Ok(t) ==> t.inv(),
        s.set_swap_config(account, other) matches Ok(t) ==> t.inv(),
        s.set_recovery_admin(account) matches Ok(t) ==> t.inv(),
        s.pause(account) matches Ok(t) ==> t.inv(),
        s.resume() matches Ok(t) ==> t.inv(),
        s.migrate() matches Ok(t) ==> t.inv(),
        s.set_annual_rate(rate) matches Ok(t) ==> t.inv(),
        s.with_balance(account, balance).inv(),
{
}

/// Staking, unstaking and swapping keep the storage invariant.
pub proof fn lemma_user_operations_keep_inv(
    s: ContractView,
    user: Seq<u8>,
    amount: i128,
    min_out: i128,
    path_len: nat,
    received: i128,
    now: u64,
)
    requires
        s.inv(),
    ensures
        s.stake(user, amount, now) matches Ok(t) ==> t.inv(),
        s.unstake(user, now) matches Ok((t, _)) ==> t.inv(),
        s.swap_for_xlm(user, amount, min_out, path_len, received) matches Ok((t, _)) ==> t.inv(),
{
    if let Ok(t) = s.stake(user, amount, now) {
        assert forall|a: Seq<u8>| #[trigger] t.stakes.contains_key(a) implies t.stakes[a].amount > 0 by {
            if a != user {
                assert(s.stakes.contains_key(a));
            }
        }
    }
    if let Ok((t, _)) = s.unstake(user, now) {
        assert forall|a: Seq<u8>| #[trigger] t.stakes.contains_key(a) implies t.stakes[a].amount > 0 by {
            assert(s.stakes.contains_key(a));
        }
    }
}

/// The recovery operations keep the storage invariant.
pub proof fn lemma_recovery_operations_keep_inv(
    s: ContractView,
    user: Seq<u8>,
    other: Seq<u8>,
    amount: i128,
    id: Seq<u8>,
    now: u64,
)
    requires
        s.inv(),
    ensures
        s.snapshot_account(user, id, now) matches Ok((t, _)) ==> t.inv(),
        s.restore_account(user, id, now) matches Ok((t, _)) ==> t.inv(),
        s.recover_transaction(user, amount, id, now) matches Ok((t, _)) ==> t.inv(),
        s.recover_funds(user, other, amount, id, now) matches Ok(t) ==> t.inv(),
{
    if let Ok((t, _)) = s.snapshot_account(user, id, now) {
        assert forall|a: Seq<u8>| #[trigger] t.snapshots.contains_key(a) implies match t.snapshots[a].stake {
            Some(r) => r.amount > 0,
            None => true,
        } by {
            if a != user {
                assert(s.snapshots.contains_key(a));
            } else if !s.operations.contains_key(id) && s.stakes.contains_key(user) {
                assert(s.stakes[user].amount > 0);
            }
        }
    }
    if let Ok((t, _)) = s.restore_account(user, id, now) {
        assert(s.snapshots.contains_key(user));
        let snap = s.snapshots[user];
        assert forall|a: Seq<u8>| #[trigger] t.stakes.contains_key(a) implies t.stakes[a].amount > 0 by {
            if a != user {
                assert(s.stakes.contains_key(a));
            }
        }
    }
}

/// The contract can be initialized only once.
pub proof fn lemma_initialize_once(s: ContractView, first: Seq<u8>, second: Seq<u8>)
    requires
        s.initialize(first) is Ok,
    ensures
        s.initialize(first).unwrap().initialize(second) == Err::<ContractView, NovaError>(
            NovaError::AlreadyInitialized,
        ),
        s.initialize(first).unwrap().admin_of() == Ok::<Seq<u8>, NovaError>(first),
        s.initialize(first).unwrap().recovery_admin_of() == Ok::<Seq<u8>, NovaError>(first),
{
}

/// A migration runs once per version bump: once it has succeeded, running it
/// again is refused and changes nothing.
pub proof fn lemma_migrate_once(s: ContractView)
    requires
        s.inv(),
        s.migrate() is Ok,
    ensures
        s.migrate().unwrap().migrate() == Err::<ContractView, NovaError>(
            NovaError::MigrationAlreadyApplied,
        ),
{
}

/// Moving funds keeps the total of the two balances, leaves every other
/// balance unchanged, and leaves an account moving funds to itself as it was.
pub proof fn lemma_recover_funds_conserves(
    s: ContractView,
    from: Seq<u8>,
    to: Seq<u8>,
    amount: i128,
    id: Seq<u8>,
    now: u64,
    other: Seq<u8>,
)
    requires
        s.recover_funds(from, to, amount, id, now) is Ok,
    ensures
        ({
            let t = s.recover_funds(from, to, amount, id, now).unwrap();
            &&& t.balance_of(from) + t.balance_of(to) == s.balance_of(from) + s.balance_of(to)
            &&& (other != from && other != to) ==> t.balance_of(other) == s.balance_of(other)
            &&& (!s.operations.contains_key(id) && from != to) ==> t.balance_of(from) == s.balance_of(
                from,
            ) - amount && t.balance_of(to) == s.balance_of(to) + amount
            &&& from == to ==> t.balance_of(from) == s.balance_of(from)
        }),
{
}

/// A recovery operation runs at most once: repeating a successful request
/// with the same operation id changes nothing and gives the same answer.
pub proof fn lemma_recovery_idempotent(
    s: ContractView,
    user: Seq<u8>,
    other: Seq<u8>,
    amount: i128,
    id: Seq<u8>,
    now: u64,
    later: u64,
)
    ensures
        s.recover_transaction(user, amount, id, now) matches Ok((t, b)) ==> t.recover_transaction(
            user,
            amount,
            id,
            later,
        ) == Ok::<(ContractView, i128), NovaError>((t, b)),
        s.recover_funds(user, other, amount, id, now) matches Ok(t) ==> t.recover_funds(
            user,
            other,
            amount,
            id,
            later,
        ) == Ok::<ContractView, NovaError>(t),
        s.snapshot_account(user, id, now) matches Ok((t, snap)) ==> t.snapshot_account(
            user,
            id,
            later,
        ) == Ok::<(ContractView, AccountSnapshot), NovaError>((t, snap)),
        s.restore_account(user, id, now) matches Ok((t, snap)) ==> t.restore_account(
            user,
            id,
            later,
        ) == Ok::<(ContractView, AccountSnapshot), NovaError>((t, snap)),
{
}

/// Staking and unstaking at the same moment gives back exactly the staked
/// amount and restores the balance, with no stake left.
pub proof fn lemma_stake_unstake_round_trip(s: ContractView, staker: Seq<u8>, amount: i128, now: u64)
    requires
        s.stake(staker, amount, now) is Ok,
    ensures
        ({
            let t = s.stake(staker, amount, now).unwrap();
            &&& t.balance_of(staker) == s.balance_of(staker) - amount
            &&& t.unstake(staker, now) matches Ok((u, receipt)) && u.balance_of(staker) == s.balance_of(
                staker,
            ) && u.stake_of(staker) is None && receipt == (UnstakeReceipt {
                principal: amount,
                yield_amount: 0,
                total_return: amount,
            })
        }),
{
    let t = s.stake(staker, amount, now).unwrap();
    assert(t.stake_of(staker) == Some(crate::types::StakeRecord { amount, staked_at: now }));
}

/// Unstaking pays the principal plus exactly the yield that the preview
/// reports at the same moment, and credits that total to the balance.
pub proof fn lemma_unstake_pays_previewed_yield(s: ContractView, staker: Seq<u8>, now: u64)
    requires
        s.unstake(staker, now) is Ok,
    ensures
        ({
            let (t, receipt) = s.unstake(staker, now).unwrap();
            &&& s.calculate_yield(staker, now) == Ok::<i128, NovaError>(receipt.yield_amount)
            &&& s.stake_of(staker) matches Some(r) && receipt.principal == r.amount
            &&& receipt.total_return == receipt.principal + receipt.yield_amount
            &&& t.balance_of(staker) == s.balance_of(staker) + receipt.total_return
            &&& t.stake_of(staker) is None
        }),
{
}

/// Restoring a snapshot that was just captured (with a fresh operation id)
/// brings back the balance and the stake the account had when captured.
pub proof fn lemma_snapshot_then_restore(
    s: ContractView,
    user: Seq<u8>,
    first: Seq<u8>,
    second: Seq<u8>,
    now: u64,
    later: u64,
)
    requires
        s.paused,
        !s.operations.contains_key(first),
        first != second,
        !s.operations.contains_key(second),
        s.snapshot_account(user, first, now) is Ok,
    ensures
        ({
            let (t, snap) = s.snapshot_account(user, first, now).unwrap();
            &&& snap.balance == s.balance_of(user)
            &&& snap.stake == s.stake_of(user)
            &&& t.restore_account(user, second, later) matches Ok((u, restored)) && restored == snap
                && u.balance_of(user) == s.balance_of(user) && u.stake_of(user) == s.stake_of(user)
        }),
{
}

/// While paused, staking, unstaking and swapping are refused and change
/// nothing.
pub proof fn lemma_pause_blocks_user_operations(
    s: ContractView,
    user: Seq<u8>,
    amount: i128,
    min_out: i128,
    path_len: nat,
    received: i128,
    now: u64,
)
    requires
        s.paused,
    ensures
        s.stake(user, amount, now) == Err::<ContractView, NovaError>(NovaError::ContractPaused),
        s.unstake(user, now) == Err::<(ContractView, UnstakeReceipt), NovaError>(
            NovaError::ContractPaused,
        ),
        s.swap_for_xlm(user, amount, min_out, path_len, received) == Err::<
            (ContractView, i128),
            NovaError,
        >(NovaError::ContractPaused),
{
}

/// While the contract runs, the recovery operations that change balances
/// are refused.
pub proof fn lemma_recovery_requires_pause(
    s: ContractView,
    user: Seq<u8>,
    other: Seq<u8>,
    amount: i128,
    id: Seq<u8>,
    now: u64,
)
    requires
        !s.paused,
        s.admin is Some,
    ensures
        s.restore_account(user, id, now) == Err::<(ContractView, AccountSnapshot), NovaError>(
            NovaError::ContractNotPaused,
        ),
        s.recover_transaction(user, amount, id, now) == Err::<(ContractView, i128), NovaError>(
            NovaError::ContractNotPaused,
        ),
        s.recover_funds(user, other, amount, id, now) == Err::<ContractView, NovaError>(
            NovaError::ContractNotPaused,
        ),
{
}

/// A swap whose checks pass before the router is called succeeds when the
/// router delivers at least the minimum, and burns exactly the Nova amount.
pub proof fn lemma_prepared_swap_settles(
    s: ContractView,
    user: Seq<u8>,
    nova_amount: i128,
    min_out: i128,
    path_len: nat,
    received: i128,
)
    requires
        s.swap_route(user, nova_amount, min_out, path_len) is Ok,
    ensures
        received >= min_out ==> (s.swap_for_xlm(user, nova_amount, min_out, path_len, received)
            matches Ok((t, x)) && x == received && t.balance_of(user) == s.balance_of(user)
            - nova_amount),
        received < min_out ==> s.swap_for_xlm(user, nova_amount, min_out, path_len, received)
            == Err::<(ContractView, i128), NovaError>(NovaError::Slippage),
{
}

/// With a non-negative principal and rate, the yield is never negative and
/// never shrinks as time passes.
pub proof fn lemma_yield_monotone(amount: int, rate: int, earlier: int, later: int)
    requires
        amount >= 0,
        rate >= 0,
        0 <= earlier <= later,
    ensures
        0 <= accrued_yield(amount, rate, earlier) <= accrued_yield(amount, rate, later),
{
    if rate > 0 && earlier > 0 {
        let d = yield_divisor();
        assert(0 <= amount * rate * earlier <= amount * rate * later) by (nonlinear_arith)
            requires
                amount >= 0,
                rate >= 0,
                0 <= earlier <= later,
        ;
        vstd::arithmetic::div_mod::lemma_div_is_ordered(amount * rate * earlier, amount * rate * later, d);
        vstd::arithmetic::div_mod::lemma_div_pos_is_pos(amount * rate * earlier, d);
    } else if rate > 0 && later > 0 {
        let d = yield_divisor();
        assert(0 <= amount * rate * later) by (nonlinear_arith)
            requires
                amount >= 0,
                rate >= 0,
                later >= 0,
        ;
        vstd::arithmetic::div_mod::lemma_div_pos_is_pos(amount * rate * later, d);
    }
}

/// A stake at 10000 basis points (100%) for exactly one year earns its own
/// amount as yield.
pub proof fn lemma_full_rate_for_a_year(amount: int)
    ensures
        accrued_yield(amount, BASIS_POINTS as int, SECONDS_PER_YEAR as int) == amount,
{
    let d = yield_divisor();
    assert(amount * (BASIS_POINTS as int) * (SECONDS_PER_YEAR as int) == amount * d) by (nonlinear_arith)
        requires
            d == (BASIS_POINTS as int) * (SECONDS_PER_YEAR as int),
    ;
    if amount >= 0 {
        vstd::arithmetic::div_mod::lemma_div_by_multiple(amount, d);
    } else {
        assert(-(amount * d) == (-amount) * d) by (nonlinear_arith);
        vstd::arithmetic::div_mod::lemma_div_by_multiple(-amount, d);
    }
}

/// A payout at a rate of `SCALE_FACTOR` (100%) is the balance itself.
pub proof fn lemma_payout_full_scale(balance: int)
    ensures
        payout_of(balance, SCALE_FACTOR as int) == balance,
{
    let d = SCALE_FACTOR as int;
    if balance >= 0 {
        vstd::arithmetic::div_mod::lemma_div_by_multiple(balance, d);
    } else {
        assert(-(balance * d) == (-balance) * d) by (nonlinear_arith);
        vstd::arithmetic::div_mod::lemma_div_by_multiple(-balance, d);
    }
}

/// Whether `t` holds the same balance, stake and snapshot for `account` as `s`.
pub open spec fn keeps_account(s: ContractView, t: ContractView, account: Seq<u8>) -> bool {
    &&& t.balances.contains_key(account) == s.balances.contains_key(account)
    &&& t.balance_of(account) == s.balance_of(account)
    &&& t.stake_of(account) == s.stake_of(account)
    &&& t.snapshots.contains_key(account) == s.snapshots.contains_key(account)
    &&& t.snapshots[account] == s.snapshots[account]
}

/// Whether `t` holds the same record for the operation id `id` as `s`.
pub open spec fn keeps_operation(s: ContractView, t: ContractView, id: Seq<u8>) -> bool {
    &&& t.operations.contains_key(id) == s.operations.contains_key(id)
    &&& t.operations[id] == s.operations[id]
}

/// Every account operation changes only the entries of the accounts it is
/// given and the record of the operation id it is given: every other
/// account and every other operation record stays as it was.
pub proof fn lemma_operations_are_local(
    s: ContractView,
    user: Seq<u8>,
    other: Seq<u8>,
    amount: i128,
    min_out: i128,
    path_len: nat,
    received: i128,
    id: Seq<u8>,
    now: u64,
    k: Seq<u8>,
    q: Seq<u8>,
)
    requires
        k != user,
        k != other,
        q != id,
    ensures
        keeps_account(s, s.with_balance(user, amount), k),
        s.stake(user, amount, now) matches Ok(t) ==> keeps_account(s, t, k) && keeps_operation(s, t, q),
        s.unstake(user, now) matches Ok((t, _)) ==> keeps_account(s, t, k) && keeps_operation(s, t, q),
        s.swap_for_xlm(user, amount, min_out, path_len, received) matches Ok((t, _)) ==> keeps_account(
            s,
            t,
            k,
        ) && keeps_operation(s, t, q),
        s.snapshot_account(user, id, now) matches Ok((t, _)) ==> keeps_account(s, t, k)
            && keeps_operation(s, t, q),
        s.restore_account(user, id, now) matches Ok((t, _)) ==> keeps_account(s, t, k)
            && keeps_operation(s, t, q),
        s.recover_transaction(user, amount, id, now) matches Ok((t, _)) ==> keeps_account(s, t, k)
            && keeps_operation(s, t, q),
        s.recover_funds(user, other, amount, id, now) matches Ok(t) ==> keeps_account(s, t, k)
            && keeps_operation(s, t, q),
{
}

/// The administrative operations change no account entry and no operation
/// record.
pub proof fn lemma_admin_operations_keep_accounts(
    s: ContractView,
    account: Seq<u8>,
    other: Seq<u8>,
    rate: i128,
)
    ensures
        s.initialize(account) matches Ok(t) ==> t.balances == s.balances && t.stakes == s.stakes
            && t.snapshots == s.snapshots && t.operations == s.operations,
        s.set_swap_config(account, other) matches Ok(t) ==> t.balances == s.balances && t.stakes
            == s.stakes && t.snapshots == s.snapshots && t.operations == s.operations,
        s.set_recovery_admin(account) matches Ok(t) ==> t.balances == s.balances && t.stakes
            == s.stakes && t.snapshots == s.snapshots && t.operations == s.operations,
        s.pause(account) matches Ok(t) ==> t.balances == s.balances && t.stakes == s.stakes
            && t.snapshots == s.snapshots && t.operations == s.operations,
        s.resume() matches Ok(t) ==> t.balances == s.balances && t.stakes == s.stakes && t.snapshots
            == s.snapshots && t.operations == s.operations,
        s.migrate() matches Ok(t) ==> t.balances == s.balances && t.stakes == s.stakes && t.snapshots
            == s.snapshots && t.operations == s.operations,
        s.set_annual_rate(rate) matches Ok(t) ==> t.balances == s.balances && t.stakes == s.stakes
            && t.snapshots == s.snapshots && t.operations == s.operations,
{
}

/// The record operation is write-once: an id already recorded keeps its
/// record whatever is passed; a fresh id gets exactly the given fields,
/// stamped with the given time.
pub proof fn lemma_record_operation_write_once(
    s: ContractView,
    id: Seq<u8>,
    kind: RecoveryKind,
    account: Seq<u8>,
    counterparty: Option<Seq<u8>>,
    amount: i128,
    now: u64,
)
    ensures
        ({
            let t = s.record_operation(id, kind, account, counterparty, amount, now);
            &&& t.operations.contains_key(id)
            &&& s.operations.contains_key(id) ==> t == s
            &&& !s.operations.contains_key(id) ==> t.operations[id] == (OperationView {
                kind,
                account,
                counterparty,
                amount,
                executed_at: now,
            })
            &&& forall|q: Seq<u8>| q != id ==> keeps_operation(s, t, q)
        }),
{
}

/// Whether serving `req` may write the balance of `account`.
pub open spec fn writes_balance_of(req: Request, account: Seq<u8>) -> bool {
    match req {
        Request::SetBalance { user, .. } => user == account,
        Request::SwapForXlm { user, .. } => user == account,
        Request::Stake { staker, .. } => staker == account,
        Request::Unstake { staker, .. } => staker == account,
        Request::RestoreAccount { user, .. } => user == account,
        Request::RecoverTransaction { user, .. } => user == account,
        Request::RecoverFunds { from, to, .. } => from == account || to == account,
        _ => false,
    }
}

/// What one request does to the settings: only `initialize`, `pause` and
/// `resume` change the paused flag, and only `pause` and `resume` the
/// procedure; only `initialize` and `set_recovery_admin` change the admin
/// and the recovery operator, and the operator falls back to the admin;
/// only `set_swap_config` changes the router and token; only
/// `set_annual_rate` changes the rate. Once an admin is set, it stays, and
/// each setter succeeds with a valid argument. Recorded operations are never
/// changed, and a balance changes only through a request that names its
/// account.
pub proof fn lemma_request_changes_only_its_settings(s: ContractView, req: Request, account: Seq<u8>, id: Seq<u8>)
    ensures
        ({
            let t = s.apply(req);
            &&& !(req is Initialize || req is Pause || req is Resume) ==> t.paused == s.paused
            &&& !(req is Pause || req is Resume) ==> t.emergency_procedure == s.emergency_procedure
            &&& !(req is Initialize || req is SetRecoveryAdmin) ==> t.admin == s.admin
                && t.recovery_admin == s.recovery_admin
            &&& s.recovery_admin is None ==> s.recovery_admin_of() == s.admin_of()
            &&& !(req is SetSwapConfig) ==> t.router == s.router && t.xlm_token == s.xlm_token
            &&& !(req is SetAnnualRate) ==> t.annual_rate == s.annual_rate
            &&& s.admin is Some ==> t.admin == s.admin
            &&& s.admin is Some ==> match req {
                Request::Pause { procedure } => t.paused && t.emergency_procedure == Some(procedure),
                Request::Resume => !t.paused && t.emergency_procedure is None,
                Request::SetRecoveryAdmin { operator } => t.recovery_admin == Some(operator),
                Request::SetSwapConfig { xlm_token, router } => t.router == Some(router) && t.xlm_token
                    == Some(xlm_token),
                Request::SetAnnualRate { rate } => t.annual_rate == (if 0 <= rate <= BASIS_POINTS {
                    rate
                } else {
                    s.annual_rate
                }),
                _ => true,
            }
            &&& s.admin is None && !(req is Initialize) ==> t.admin is None && t.paused == s.paused
            &&& s.operations.contains_key(id) ==> t.operations.contains_key(id) && t.operations[id]
                == s.operations[id]
            &&& !writes_balance_of(req, account) ==> t.balance_of(account) == s.balance_of(account)
        }),
{
}

/// Serving any request keeps the storage invariant.
pub proof fn lemma_request_keeps_inv(s: ContractView, req: Request)
    requires
        s.inv(),
    ensures
        s.apply(req).inv(),
{
    match req {
        Request::Initialize { admin } => lemma_admin_operations_keep_inv(s, admin, admin, 0, 0),
        Request::SetSwapConfig { xlm_token, router } => lemma_admin_operations_keep_inv(
            s,
            xlm_token,
            router,
            0,
            0,
        ),
        Request::SetRecoveryAdmin { operator } => lemma_admin_operations_keep_inv(s, operator, operator, 0, 0),
        Request::Pause { procedure } => lemma_admin_operations_keep_inv(s, procedure, procedure, 0, 0),
        Request::Resume => lemma_admin_operations_keep_inv(s, Seq::empty(), Seq::empty(), 0, 0),
        Request::Migrate => lemma_admin_operations_keep_inv(s, Seq::empty(), Seq::empty(), 0, 0),
        Request::SetBalance { user, amount } => lemma_admin_operations_keep_inv(s, user, user, 0, amount),
        Request::SetAnnualRate { rate } => lemma_admin_operations_keep_inv(
            s,
            Seq::empty(),
            Seq::empty(),
            rate,
            0,
        ),
        Request::SwapForXlm { user, nova_amount, min_xlm_out, path_len, xlm_received } => {
            lemma_user_operations_keep_inv(s, user, nova_amount, min_xlm_out, path_len, xlm_received, 0)
        },
        Request::Stake { staker, amount, now } => lemma_user_operations_keep_inv(
            s,
            staker,
            amount,
            0,
            0,
            0,
            now,
        ),
        Request::Unstake { staker, now } => lemma_user_operations_keep_inv(s, staker, 0, 0, 0, 0, now),
        Request::SnapshotAccount { user, id, now } => lemma_recovery_operations_keep_inv(
            s,
            user,
            user,
            0,
            id,
            now,
        ),
        Request::RestoreAccount { user, id, now } => lemma_recovery_operations_keep_inv(
            s,
            user,
            user,
            0,
            id,
            now,
        ),
        Request::RecoverTransaction { user, amount_delta, id, now } => {
            lemma_recovery_operations_keep_inv(s, user, user, amount_delta, id, now)
        },
        Request::RecoverFunds { from, to, amount, id, now } => lemma_recovery_operations_keep_inv(
            s,
            from,
            to,
            amount,
            id,
            now,
        ),
    }
}

/// Every storage reachable from deployment satisfies the invariant; in
/// particular the annual rate always lies within `0..=10000` basis points.
pub proof fn lemma_reachable_inv(reqs: Seq<Request>)
    ensures
        ContractView::deployed().run(reqs).inv(),
        0 <= ContractView::deployed().run(reqs).annual_rate <= BASIS_POINTS,
    decreases reqs.len(),
{
    if reqs.len() > 0 {
        lemma_reachable_inv(reqs.drop_last());
        lemma_request_keeps_inv(ContractView::deployed().run(reqs.drop_last()), reqs.last());
    }
}

/// The paused flag set by the last `pause` or `resume` of `reqs`, or
/// `default` where there is none.
pub open spec fn last_switch(reqs: Seq<Request>, default: bool) -> bool
    decreases reqs.len(),
{
    if reqs.len() == 0 {
        default
    } else {
        match reqs.last() {
            Request::Pause { .. } => true,
            Request::Resume => false,
            _ => last_switch(reqs.drop_last(), default),
        }
    }
}

/// The procedure recorded by the last `pause` or cleared by the last
/// `resume` of `reqs`, or `default` where there is none.
pub open spec fn last_procedure(reqs: Seq<Request>, default: Option<Seq<u8>>) -> Option<Seq<u8>>
    decreases reqs.len(),
{
    if reqs.len() == 0 {
        default
    } else {
        match reqs.last() {
            Request::Pause { procedure } => Some(procedure),
            Request::Resume => None,
            _ => last_procedure(reqs.drop_last(), default),
        }
    }
}

/// The operator named by the last `set_recovery_admin` of `reqs`, or
/// `default` where there is none.
pub open spec fn last_operator(reqs: Seq<Request>, default: Seq<u8>) -> Seq<u8>
    decreases reqs.len(),
{
    if reqs.len() == 0 {
        default
    } else {
        match reqs.last() {
            Request::SetRecoveryAdmin { operator } => operator,
            _ => last_operator(reqs.drop_last(), default),
        }
    }
}

/// The router and token named by the last `set_swap_config` of `reqs`, or
/// `default` where there is none.
pub open spec fn last_swap_config(reqs: Seq<Request>, default: (Option<Seq<u8>>, Option<Seq<u8>>)) -> (
    Option<Seq<u8>>,
    Option<Seq<u8>>,
)
    decreases reqs.len(),
{
    if reqs.len() == 0 {
        default
    } else {
        match reqs.last() {
            Request::SetSwapConfig { xlm_token, router } => (Some(xlm_token), Some(router)),
            _ => last_swap_config(reqs.drop_last(), default),
        }
    }
}

/// The rate of the last `set_annual_rate` of `reqs` whose rate is valid, or
/// `default` where there is none.
pub open spec fn last_rate(reqs: Seq<Request>, default: i128) -> i128
    decreases reqs.len(),
{
    if reqs.len() == 0 {
        default
    } else {
        match reqs.last() {
            Request::SetAnnualRate { rate } => if 0 <= rate <= BASIS_POINTS {
                rate
            } else {
                last_rate(reqs.drop_last(), default)
            },
            _ => last_rate(reqs.drop_last(), default),
        }
    }
}

/// Once initialized, the settings are what the last request of each kind
/// set: the paused flag and procedure follow the last `pause` or `resume`,
/// the recovery operator is the last one assigned, the router and token the
/// last configured, and the rate the last valid one set; the admin never
/// changes.
pub proof fn lemma_settings_follow_last_setter(s: ContractView, reqs: Seq<Request>)
    requires
        s.admin is Some,
    ensures
        ({
            let t = s.run(reqs);
            &&& t.admin == s.admin
            &&& t.paused == last_switch(reqs, s.paused)
            &&& t.emergency_procedure == last_procedure(reqs, s.emergency_procedure)
            &&& s.recovery_admin is Some ==> t.recovery_admin_of() == Ok::<Seq<u8>, NovaError>(
                last_operator(reqs, s.recovery_admin->0),
            )
            &&& (t.xlm_token, t.router) == last_swap_config(reqs, (s.xlm_token, s.router))
            &&& t.annual_rate == last_rate(reqs, s.annual_rate)
        }),
    decreases reqs.len(),
{
    if reqs.len() > 0 {
        let prev = s.run(reqs.drop_last());
        lemma_settings_follow_last_setter(s, reqs.drop_last());
        lemma_request_changes_only_its_settings(prev, reqs.last(), Seq::empty(), Seq::empty());
    }
}

/// A contract that was never initialized is never paused, whatever else it
/// is asked.
pub proof fn lemma_uninitialized_never_paused(reqs: Seq<Request>)
    requires
        forall|i: int| 0 <= i < reqs.len() ==> !(#[trigger] reqs[i] is Initialize),
    ensures
        ContractView::deployed().run(reqs).admin is None,
        !ContractView::deployed().run(reqs).paused,
    decreases reqs.len(),
{
    if reqs.len() > 0 {
        let prev = reqs.drop_last();
        assert forall|i: int| 0 <= i < prev.len() implies !(#[trigger] prev[i] is Initialize) by {
            assert(prev[i] == reqs[i]);
        }
        lemma_uninitialized_never_paused(prev);
        assert(reqs[reqs.len() - 1] == reqs.last());
        lemma_request_changes_only_its_settings(
            ContractView::deployed().run(prev),
            reqs.last(),
            Seq::empty(),
            Seq::empty(),
        );
    }
}

/// A balance survives any number of requests that do not name its account.
pub proof fn lemma_balance_survives(s: ContractView, account: Seq<u8>, reqs: Seq<Request>)
    requires
        forall|i: int| 0 <= i < reqs.len() ==> !writes_balance_of(#[trigger] reqs[i], account),
    ensures
        s.run(reqs).balance_of(account) == s.balance_of(account),
    decreases reqs.len(),
{
    if reqs.len() > 0 {
        let prev = reqs.drop_last();
        assert forall|i: int| 0 <= i < prev.len() implies !writes_balance_of(#[trigger] prev[i], account) by {
            assert(prev[i] == reqs[i]);
        }
        lemma_balance_survives(s, account, prev);
        assert(reqs[reqs.len() - 1] == reqs.last());
        lemma_request_changes_only_its_settings(s.run(prev), reqs.last(), account, Seq::empty());
    }
}

/// A recorded recovery operation keeps its record through any requests.
pub proof fn lemma_recorded_operation_persists(s: ContractView, id: Seq<u8>, reqs: Seq<Request>)
    requires
        s.operations.contains_key(id),
    ensures
        s.run(reqs).operations.contains_key(id),
        s.run(reqs).operations[id] == s.operations[id],
    decreases reqs.len(),
{
    if reqs.len() > 0 {
        lemma_recorded_operation_persists(s, id, reqs.drop_last());
        lemma_request_changes_only_its_settings(s.run(reqs.drop_last()), reqs.last(), Seq::empty(), id);
    }
}

/// The quotient of a non-negative `a` by a positive `d` is the largest `q`
/// with `q * d <= a`.
proof fn lemma_floor_quotient(a: int, d: int)
    requires
        a >= 0,
        d > 0,
    ensures
        (a / d) * d <= a < (a / d + 1) * d,
{
    vstd::arithmetic::div_mod::lemma_fundamental_div_mod(a, d);
    vstd::arithmetic::div_mod::lemma_mod_bound(a, d);
    assert((a / d) * d == d * (a / d)) by (nonlinear_arith);
    assert((a / d + 1) * d == (a / d) * d + d) by (nonlinear_arith);
}

/// The yield of a stake with non-negative principal and rate is the whole
/// number of units earned by the principal at the annual rate (in basis
/// points) over the whole time staked, `now - staked_at` seconds, rounded
/// down: `y * 10000 * 31_536_000 <= amount * rate * (now - staked_at) <
/// (y + 1) * 10000 * 31_536_000`; nothing is earned when `now` is not later
/// than the stake.
pub proof fn lemma_yield_counts_all_time_staked(s: ContractView, staker: Seq<u8>, now: u64, r: StakeRecord)
    requires
        s.stake_of(staker) == Some(r),
        r.amount >= 0,
        s.annual_rate >= 0,
        s.calculate_yield(staker, now) is Ok,
    ensures
        ({
            let y = s.calculate_yield(staker, now).unwrap() as int;
            let span: int = if now > r.staked_at {
                now - r.staked_at
            } else {
                0
            };
            let year_bps: int = 10000int * 31_536_000int;
            &&& y * year_bps <= r.amount * s.annual_rate * span
            &&& r.amount * s.annual_rate * span < (y + 1) * year_bps
        }),
{
    let span: int = if now > r.staked_at {
        now - r.staked_at
    } else {
        0
    };
    let d = yield_divisor();
    assert(d == 10000int * 31_536_000int);
    assert(r.amount * s.annual_rate * span >= 0) by (nonlinear_arith)
        requires
            r.amount >= 0,
            s.annual_rate >= 0,
            span >= 0,
    ;
    if s.annual_rate > 0 && span > 0 {
        lemma_floor_quotient(r.amount * s.annual_rate * span, d);
    } else {
        assert(r.amount * s.annual_rate * span == 0) by (nonlinear_arith)
            requires
                s.annual_rate == 0 || span == 0,
        ;
    }
}

/// Unstaking pays back the principal plus the yield earned over the whole
/// time staked (the rounded-down share of `amount * rate * (now -
/// staked_at)` per `10000 * 31_536_000`), credits exactly that total to the
/// balance, and ends the stake.
pub proof fn lemma_unstake_pays_principal_and_yield(s: ContractView, staker: Seq<u8>, now: u64, r: StakeRecord)
    requires
        s.stake_of(staker) == Some(r),
        r.amount >= 0,
        s.annual_rate >= 0,
        s.unstake(staker, now) is Ok,
    ensures
        ({
            let (t, receipt) = s.unstake(staker, now).unwrap();
            let y = receipt.yield_amount as int;
            let span: int = if now > r.staked_at {
                now - r.staked_at
            } else {
                0
            };
            let year_bps: int = 10000int * 31_536_000int;
            &&& receipt.principal == r.amount
            &&& y * year_bps <= r.amount * s.annual_rate * span
            &&& r.amount * s.annual_rate * span < (y + 1) * year_bps
            &&& receipt.total_return == r.amount + y
            &&& t.balance_of(staker) == s.balance_of(staker) + r.amount + y
            &&& t.stake_of(staker) is None
        }),
{
    lemma_yield_counts_all_time_staked(s, staker, now, r);
}

/// A swap is refused for want of Nova points only where the balance is
/// below the amount swapped: with the contract running, a positive amount, a
/// non-negative minimum output, at most five hops, a configured router and a
/// balance of at least `nova_amount`, the checks pass whatever the minimum
/// output is, and a delivery of at least that minimum burns exactly
/// `nova_amount`.
pub proof fn lemma_swap_needs_only_the_swapped_amount(
    s: ContractView,
    user: Seq<u8>,
    nova_amount: i128,
    min_xlm_out: i128,
    path_len: nat,
    xlm_received: i128,
    router: Seq<u8>,
)
    requires
        !s.paused,
        nova_amount > 0,
        min_xlm_out >= 0,
        path_len <= 5,
        s.router == Some(router),
        s.balance_of(user) >= nova_amount,
    ensures
        s.swap_route(user, nova_amount, min_xlm_out, path_len) == Ok::<Seq<u8>, NovaError>(router),
        xlm_received >= min_xlm_out ==> (s.swap_for_xlm(
            user,
            nova_amount,
            min_xlm_out,
            path_len,
            xlm_received,
        ) matches Ok((t, x)) && x == xlm_received && t.balance_of(user) == s.balance_of(user)
            - nova_amount),
{
}

/// Restoring with a fresh operation id while paused sets the account's
/// balance and stake to exactly those of its snapshot, whatever the account
/// held before, higher or lower.
pub proof fn lemma_restore_sets_snapshot_state(s: ContractView, user: Seq<u8>, id: Seq<u8>, now: u64)
    requires
        s.paused,
        s.admin is Some,
        s.snapshots.contains_key(user),
        !s.operations.contains_key(id),
    ensures
        s.restore_account(user, id, now) matches Ok((t, snap)) && snap == s.snapshots[user]
            && t.balance_of(user) == s.snapshots[user].balance && t.stake_of(user)
            == s.snapshots[user].stake,
{
}

/// Moving funds while paused with a fresh operation id succeeds whenever the
/// amount is positive, at most the source balance, and fits on top of the
/// target balance, whatever stake the source holds; the source loses and
/// the target gains exactly the amount.
pub proof fn lemma_recover_funds_moves_amount(
    s: ContractView,
    from: Seq<u8>,
    to: Seq<u8>,
    amount: i128,
    id: Seq<u8>,
    now: u64,
)
    requires
        s.paused,
        s.admin is Some,
        !s.operations.contains_key(id),
        from != to,
        0 < amount <= s.balance_of(from),
        s.balance_of(to) + amount <= i128::MAX,
    ensures
        s.recover_funds(from, to, amount, id, now) matches Ok(t) && t.balance_of(from) == s.balance_of(
            from,
        ) - amount && t.balance_of(to) == s.balance_of(to) + amount && t.stake_of(from) == s.stake_of(
            from,
        ),
{
}

/// Unstaking succeeds whenever the contract runs, the account has a stake,
/// and the principal plus everything the stake could earn over the time
/// staked, `amount * rate * (now - staked_at)`, fits in an `i128` both on
/// its own and on top of the balance.
pub proof fn lemma_unstake_succeeds_without_overflow(
    s: ContractView,
    staker: Seq<u8>,
    now: u64,
    r: StakeRecord,
)
    requires
        !s.paused,
        s.stake_of(staker) == Some(r),
        r.amount >= 0,
        s.annual_rate >= 0,
        ({
            let span: int = if now > r.staked_at {
                now - r.staked_at
            } else {
                0
            };
            let earned = r.amount * s.annual_rate * span;
            &&& earned <= i128::MAX
            &&& r.amount + earned <= i128::MAX
            &&& i128::MIN <= s.balance_of(staker) + r.amount + earned <= i128::MAX
        }),
    ensures
        s.unstake(staker, now) is Ok,
{
    let span: int = if now > r.staked_at {
        now - r.staked_at
    } else {
        0
    };
    let rate = s.annual_rate as int;
    let a = r.amount as int;
    let earned = a * rate * span;
    if rate > 0 && span > 0 {
        assert(0 <= a * rate <= earned) by (nonlinear_arith)
            requires
                a >= 0,
                rate > 0,
                span >= 1,
                earned == a * rate * span,
        ;
        let d = yield_divisor();
        assert(earned >= 0);
        vstd::arithmetic::div_mod::lemma_div_is_ordered_by_denominator(earned, 1, d);
        vstd::arithmetic::div_mod::lemma_div_pos_is_pos(earned, d);
        assert(earned / 1 == earned);
    }
}

/// Staking succeeds whenever the contract runs, the amount is positive, the
/// account has no stake and its balance covers the amount: the amount leaves
/// the balance and becomes a stake dated `now`.
pub proof fn lemma_stake_moves_amount(s: ContractView, staker: Seq<u8>, amount: i128, now: u64)
    requires
        !s.paused,
        amount > 0,
        s.stake_of(staker) is None,
        s.balance_of(staker) >= amount,
    ensures
        s.stake(staker, amount, now) matches Ok(t) && t.balance_of(staker) == s.balance_of(staker)
            - amount && t.stake_of(staker) == Some(StakeRecord { amount, staked_at: now }),
{
}

/// Recovering a transaction while paused with a fresh operation id succeeds
/// whenever the balance plus the delta fits and is not negative, and sets
/// the balance to exactly that sum.
pub proof fn lemma_recover_transaction_applies_delta(
    s: ContractView,
    user: Seq<u8>,
    delta: i128,
    id: Seq<u8>,
    now: u64,
)
    requires
        s.paused,
        s.admin is Some,
        !s.operations.contains_key(id),
        0 <= s.balance_of(user) + delta <= i128::MAX,
    ensures
        s.recover_transaction(user, delta, id, now) matches Ok((t, b)) && b == s.balance_of(user)
            + delta && t.balance_of(user) == b,
{
}

/// Capturing a snapshot with a fresh operation id records the account's
/// current balance and stake, stamped `now`, and changes neither.
pub proof fn lemma_snapshot_captures_account(s: ContractView, user: Seq<u8>, id: Seq<u8>, now: u64)
    requires
        s.admin is Some,
        !s.operations.contains_key(id),
    ensures
        s.snapshot_account(user, id, now) matches Ok((t, snap)) && snap.balance == s.balance_of(user)
            && snap.stake == s.stake_of(user) && snap.captured_at == now && t.snapshots[user] == snap
            && t.balance_of(user) == s.balance_of(user) && t.stake_of(user) == s.stake_of(user),
{
}

} // verus!
