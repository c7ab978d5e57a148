use nova_rewards::contract::NovaRewardsContract;
use nova_rewards::error::NovaError;
use nova_rewards::payout::SECONDS_PER_YEAR;
use nova_rewards::types::{AccountSnapshot, RecoveryKind, StakeRecord, UnstakeReceipt};

fn addr(tag: u8) -> Vec<u8> {
    vec![b'G', tag, tag, tag]
}

fn op(tag: u8) -> Vec<u8> {
    vec![tag; 32]
}

fn initialized() -> NovaRewardsContract {
    let mut c = NovaRewardsContract::new();
    c.initialize(&addr(0)).unwrap();
    c
}

#[test]
fn fresh_contract_has_defaults() {
    let c = NovaRewardsContract::new();
    assert!(!c.is_paused());
    assert_eq!(c.get_balance(&addr(1)), 0);
    assert_eq!(c.get_annual_rate(), 0);
    assert_eq!(c.get_migrated_version(), 0);
    assert_eq!(c.get_stake(&addr(1)), None);
    assert_eq!(c.get_emergency_procedure(), None);
    assert_eq!(c.get_recovery_admin(), Err(NovaError::NotInitialized));
}

#[test]
fn initialize_only_once() {
    let mut c = initialized();
    assert_eq!(c.admin(), Ok(addr(0)));
    assert_eq!(c.get_recovery_admin(), Ok(addr(0)));
    assert_eq!(c.initialize(&addr(9)), Err(NovaError::AlreadyInitialized));
    assert_eq!(c.admin(), Ok(addr(0)));
}

#[test]
fn admin_operations_need_initialization() {
    let mut c = NovaRewardsContract::new();
    assert_eq!(c.set_annual_rate(100), Err(NovaError::NotInitialized));
    assert_eq!(c.pause(&b"halt".to_vec()), Err(NovaError::NotInitialized));
    assert_eq!(c.resume(), Err(NovaError::NotInitialized));
    assert_eq!(c.migrate(), Err(NovaError::NotInitialized));
    assert_eq!(c.set_swap_config(&addr(1), &addr(2)), Err(NovaError::NotInitialized));
    assert_eq!(c.set_recovery_admin(&addr(1)), Err(NovaError::NotInitialized));
    assert_eq!(c.upgrade(), Err(NovaError::NotInitialized));
}

#[test]
fn recovery_admin_can_be_reassigned() {
    let mut c = initialized();
    c.set_recovery_admin(&addr(5)).unwrap();
    assert_eq!(c.get_recovery_admin(), Ok(addr(5)));
    assert_eq!(c.admin(), Ok(addr(0)));
}

#[test]
fn pause_and_resume_track_the_procedure() {
    let mut c = initialized();
    c.pause(&b"incident_42".to_vec()).unwrap();
    assert!(c.is_paused());
    assert_eq!(c.get_emergency_procedure(), Some(b"incident_42".to_vec()));
    c.resume().unwrap();
    assert!(!c.is_paused());
    assert_eq!(c.get_emergency_procedure(), None);
}

#[test]
fn migrate_runs_once() {
    let mut c = initialized();
    assert_eq!(c.get_migrated_version(), 0);
    c.migrate().unwrap();
    assert_eq!(c.get_migrated_version(), 1);
    assert_eq!(c.migrate(), Err(NovaError::MigrationAlreadyApplied));
    assert_eq!(c.get_migrated_version(), 1);
    assert_eq!(c.upgrade(), Ok(1));
}

#[test]
fn annual_rate_bounds() {
    let mut c = initialized();
    assert_eq!(c.set_annual_rate(-1), Err(NovaError::InvalidRate));
    assert_eq!(c.set_annual_rate(10_001), Err(NovaError::InvalidRate));
    c.set_annual_rate(10_000).unwrap();
    assert_eq!(c.get_annual_rate(), 10_000);
    c.set_annual_rate(0).unwrap();
    assert_eq!(c.get_annual_rate(), 0);
}

#[test]
fn stake_moves_balance_into_a_stake() {
    let mut c = initialized();
    let u = addr(1);
    c.set_balance(&u, 1_000);
    c.stake(&u, 400, 50).unwrap();
    assert_eq!(c.get_balance(&u), 600);
    assert_eq!(c.get_stake(&u), Some(StakeRecord { amount: 400, staked_at: 50 }));
}

#[test]
fn stake_errors() {
    let mut c = initialized();
    let u = addr(1);
    c.set_balance(&u, 100);
    assert_eq!(c.stake(&u, 0, 1), Err(NovaError::NonPositiveAmount));
    assert_eq!(c.stake(&u, -3, 1), Err(NovaError::NonPositiveAmount));
    assert_eq!(c.stake(&u, 101, 1), Err(NovaError::InsufficientBalance));
    c.stake(&u, 60, 1).unwrap();
    assert_eq!(c.stake(&u, 10, 2), Err(NovaError::StakeExists));
    assert_eq!(c.get_balance(&u), 40);
}

#[test]
fn stake_and_unstake_at_once_round_trip() {
    let mut c = initialized();
    c.set_annual_rate(5_000).unwrap();
    let u = addr(1);
    c.set_balance(&u, 1_000);
    c.stake(&u, 1_000, 7).unwrap();
    let receipt = c.unstake(&u, 7).unwrap();
    assert_eq!(receipt, UnstakeReceipt { principal: 1_000, yield_amount: 0, total_return: 1_000 });
    assert_eq!(c.get_balance(&u), 1_000);
    assert_eq!(c.get_stake(&u), None);
}

#[test]
fn unstake_pays_yield_after_a_year() {
    let mut c = initialized();
    c.set_annual_rate(1_000).unwrap();
    let u = addr(1);
    c.set_balance(&u, 2_000_000);
    c.stake(&u, 1_000_000, 100).unwrap();
    let now = 100 + SECONDS_PER_YEAR;
    assert_eq!(c.calculate_yield(&u, now), Ok(100_000));
    let receipt = c.unstake(&u, now).unwrap();
    assert_eq!(receipt.principal, 1_000_000);
    assert_eq!(receipt.yield_amount, 100_000);
    assert_eq!(receipt.total_return, 1_100_000);
    assert_eq!(c.get_balance(&u), 2_100_000);
}

#[test]
fn clock_before_stake_time_accrues_nothing() {
    let mut c = initialized();
    c.set_annual_rate(10_000).unwrap();
    let u = addr(1);
    c.set_balance(&u, 10);
    c.stake(&u, 10, 1_000).unwrap();
    assert_eq!(c.calculate_yield(&u, 10), Ok(0));
}

#[test]
fn unstake_errors() {
    let mut c = initialized();
    let u = addr(1);
    assert_eq!(c.unstake(&u, 1), Err(NovaError::NoStake));
    assert_eq!(c.calculate_yield(&u, 1), Ok(0));
    c.set_annual_rate(10_000).unwrap();
    c.set_balance(&u, i128::MAX);
    c.stake(&u, i128::MAX, 0).unwrap();
    assert_eq!(c.unstake(&u, 5), Err(NovaError::Overflow));
    assert_eq!(c.calculate_yield(&u, 5), Err(NovaError::Overflow));
    assert_eq!(c.get_stake(&u), Some(StakeRecord { amount: i128::MAX, staked_at: 0 }));
}

#[test]
fn unstake_total_overflow_is_refused() {
    let mut c = initialized();
    let u = addr(1);
    c.set_balance(&u, 10);
    c.stake(&u, 10, 0).unwrap();
    c.set_balance(&u, i128::MAX - 5);
    assert_eq!(c.unstake(&u, 0), Err(NovaError::Overflow));
    assert_eq!(c.get_balance(&u), i128::MAX - 5);
}

#[test]
fn pause_blocks_user_operations() {
    let mut c = initialized();
    let u = addr(1);
    c.set_balance(&u, 500);
    c.stake(&u, 100, 0).unwrap();
    c.pause(&b"audit".to_vec()).unwrap();
    assert_eq!(c.stake(&u, 50, 1), Err(NovaError::ContractPaused));
    assert_eq!(c.unstake(&u, 1), Err(NovaError::ContractPaused));
    assert_eq!(c.prepare_swap(&u, 10, 0, &vec![]), Err(NovaError::ContractPaused));
    assert_eq!(c.swap_for_xlm(&u, 10, 0, &vec![], 10), Err(NovaError::ContractPaused));
    assert_eq!(c.get_balance(&u), 400);
}

#[test]
fn swap_checks_and_burn() {
    let mut c = initialized();
    let u = addr(1);
    c.set_balance(&u, 1_000);
    assert_eq!(c.prepare_swap(&u, 0, 0, &vec![]), Err(NovaError::NonPositiveAmount));
    assert_eq!(c.prepare_swap(&u, 10, -1, &vec![]), Err(NovaError::NegativeMinOutput));
    let long_path: Vec<Vec<u8>> = (0..6).map(|i| addr(10 + i)).collect();
    assert_eq!(c.prepare_swap(&u, 10, 0, &long_path), Err(NovaError::PathTooLong));
    assert_eq!(c.prepare_swap(&u, 1_001, 0, &vec![]), Err(NovaError::InsufficientBalance));
    assert_eq!(c.prepare_swap(&u, 10, 0, &vec![]), Err(NovaError::RouterNotConfigured));
    c.set_swap_config(&addr(7), &addr(8)).unwrap();
    let path: Vec<Vec<u8>> = (0..5).map(|i| addr(20 + i)).collect();
    assert_eq!(c.prepare_swap(&u, 300, 50, &path), Ok(addr(8)));
    assert_eq!(c.swap_for_xlm(&u, 300, 50, &path, 49), Err(NovaError::Slippage));
    assert_eq!(c.get_balance(&u), 1_000);
    assert_eq!(c.swap_for_xlm(&u, 300, 50, &path, 55), Ok(55));
    assert_eq!(c.get_balance(&u), 700);
}

#[test]
fn recovery_requires_pause() {
    let mut c = initialized();
    let u = addr(1);
    assert_eq!(c.recover_transaction(&u, 5, &op(1), 1), Err(NovaError::ContractNotPaused));
    assert_eq!(c.recover_funds(&u, &addr(2), 5, &op(1), 1), Err(NovaError::ContractNotPaused));
    assert_eq!(c.restore_account(&u, &op(1), 1), Err(NovaError::ContractNotPaused));
    assert_eq!(c.get_recovery_operation(&op(1)), None);
}

#[test]
fn recovery_needs_initialization() {
    let mut c = NovaRewardsContract::new();
    let u = addr(1);
    assert_eq!(c.snapshot_account(&u, &op(1), 1), Err(NovaError::NotInitialized));
    assert_eq!(c.recover_transaction(&u, 5, &op(1), 1), Err(NovaError::NotInitialized));
}

#[test]
fn recover_transaction_applies_delta_once() {
    let mut c = initialized();
    let u = addr(1);
    c.set_balance(&u, 100);
    c.pause(&b"replay".to_vec()).unwrap();
    assert_eq!(c.recover_transaction(&u, 50, &op(1), 9), Ok(150));
    assert_eq!(c.recover_transaction(&u, 50, &op(1), 10), Ok(150));
    assert_eq!(c.get_balance(&u), 150);
    let record = c.get_recovery_operation(&op(1)).unwrap();
    assert_eq!(record.kind, RecoveryKind::Transaction);
    assert_eq!(record.account, u);
    assert_eq!(record.counterparty, None);
    assert_eq!(record.amount, 50);
    assert_eq!(record.executed_at, 9);
    assert_eq!(c.recover_transaction(&u, -150, &op(2), 11), Ok(0));
}

#[test]
fn recover_transaction_errors() {
    let mut c = initialized();
    let u = addr(1);
    c.set_balance(&u, 100);
    c.pause(&b"replay".to_vec()).unwrap();
    assert_eq!(c.recover_transaction(&u, -101, &op(1), 1), Err(NovaError::Overdraw));
    c.set_balance(&u, i128::MAX);
    assert_eq!(c.recover_transaction(&u, 1, &op(1), 1), Err(NovaError::Overflow));
    assert_eq!(c.get_recovery_operation(&op(1)), None);
}

#[test]
fn recover_funds_conserves_total() {
    let mut c = initialized();
    let (a, b) = (addr(1), addr(2));
    c.set_balance(&a, 300);
    c.set_balance(&b, 20);
    c.pause(&b"move".to_vec()).unwrap();
    c.recover_funds(&a, &b, 120, &op(3), 4).unwrap();
    assert_eq!(c.get_balance(&a), 180);
    assert_eq!(c.get_balance(&b), 140);
    c.recover_funds(&a, &b, 120, &op(3), 5).unwrap();
    assert_eq!(c.get_balance(&a) + c.get_balance(&b), 320);
    let record = c.get_recovery_operation(&op(3)).unwrap();
    assert_eq!(record.kind, RecoveryKind::Fund);
    assert_eq!(record.counterparty, Some(b.clone()));
}

#[test]
fn recover_funds_errors() {
    let mut c = initialized();
    let (a, b) = (addr(1), addr(2));
    c.set_balance(&a, 10);
    c.set_balance(&b, i128::MAX);
    c.pause(&b"move".to_vec()).unwrap();
    assert_eq!(c.recover_funds(&a, &b, 0, &op(1), 1), Err(NovaError::NonPositiveAmount));
    assert_eq!(c.recover_funds(&a, &b, 11, &op(1), 1), Err(NovaError::InsufficientBalance));
    assert_eq!(c.recover_funds(&a, &b, 5, &op(1), 1), Err(NovaError::Overflow));
    assert_eq!(c.get_balance(&a), 10);
}

#[test]
fn recover_funds_to_the_same_account_changes_nothing() {
    let mut c = initialized();
    let a = addr(1);
    c.set_balance(&a, 10);
    c.pause(&b"move".to_vec()).unwrap();
    c.recover_funds(&a, &a, 4, &op(1), 1).unwrap();
    assert_eq!(c.get_balance(&a), 10);
    assert_eq!(c.get_recovery_operation(&op(1)).unwrap().kind, RecoveryKind::Fund);
    c.set_balance(&a, i128::MAX);
    assert_eq!(c.recover_funds(&a, &a, 4, &op(2), 2), Ok(()));
    assert_eq!(c.get_balance(&a), i128::MAX);
}

#[test]
fn snapshot_then_restore_brings_back_state() {
    let mut c = initialized();
    let u = addr(1);
    c.set_balance(&u, 1_000);
    c.stake(&u, 250, 3).unwrap();
    let snap = c.snapshot_account(&u, &op(1), 40).unwrap();
    assert_eq!(
        snap,
        AccountSnapshot {
            balance: 750,
            stake: Some(StakeRecord { amount: 250, staked_at: 3 }),
            captured_at: 40,
        }
    );
    assert_eq!(c.get_account_snapshot(&u), Some(snap));
    c.unstake(&u, 3).unwrap();
    c.set_balance(&u, 5);
    c.pause(&b"restore".to_vec()).unwrap();
    assert_eq!(c.restore_account(&u, &op(2), 50), Ok(snap));
    assert_eq!(c.get_balance(&u), 750);
    assert_eq!(c.get_stake(&u), Some(StakeRecord { amount: 250, staked_at: 3 }));
    assert_eq!(c.get_recovery_operation(&op(2)).unwrap().kind, RecoveryKind::StateRestore);
}

#[test]
fn snapshot_is_idempotent_per_operation_id() {
    let mut c = initialized();
    let u = addr(1);
    c.set_balance(&u, 10);
    let first = c.snapshot_account(&u, &op(1), 1).unwrap();
    c.set_balance(&u, 99);
    assert_eq!(c.snapshot_account(&u, &op(1), 2), Ok(first));
    let second = c.snapshot_account(&u, &op(2), 3).unwrap();
    assert_eq!(second.balance, 99);
    let record = c.get_recovery_operation(&op(1)).unwrap();
    assert_eq!(record.kind, RecoveryKind::StateSnapshot);
    assert_eq!(record.amount, 10);
}

#[test]
fn restore_without_snapshot_fails() {
    let mut c = initialized();
    c.pause(&b"restore".to_vec()).unwrap();
    assert_eq!(c.restore_account(&addr(1), &op(1), 1), Err(NovaError::SnapshotNotFound));
    c.snapshot_account(&addr(2), &op(2), 1).unwrap();
    assert_eq!(c.snapshot_account(&addr(1), &op(2), 1), Err(NovaError::SnapshotNotFound));
}

#[test]
fn restore_clears_stake_when_snapshot_had_none() {
    let mut c = initialized();
    let u = addr(1);
    c.set_balance(&u, 30);
    c.snapshot_account(&u, &op(1), 1).unwrap();
    c.stake(&u, 30, 2).unwrap();
    c.pause(&b"restore".to_vec()).unwrap();
    c.restore_account(&u, &op(2), 3).unwrap();
    assert_eq!(c.get_stake(&u), None);
    assert_eq!(c.get_balance(&u), 30);
}

#[test]
fn calc_payout_reports_overflow() {
    let c = NovaRewardsContract::new();
    assert_eq!(c.calc_payout(1_000_000, 33_333), Ok(33_333));
    assert_eq!(c.calc_payout(i128::MAX, 2), Err(NovaError::Overflow));
}

#[test]
fn restore_is_idempotent_per_operation_id() {
    let mut c = initialized();
    let u = addr(1);
    c.set_balance(&u, 70);
    let snap = c.snapshot_account(&u, &op(1), 1).unwrap();
    c.pause(&b"restore".to_vec()).unwrap();
    c.set_balance(&u, 3);
    assert_eq!(c.restore_account(&u, &op(2), 2), Ok(snap));
    assert_eq!(c.get_balance(&u), 70);
    c.set_balance(&u, 4);
    assert_eq!(c.restore_account(&u, &op(2), 3), Ok(snap));
    assert_eq!(c.get_balance(&u), 4);
}

#[test]
fn operations_leave_other_accounts_alone() {
    let mut c = initialized();
    let (a, b, bystander) = (addr(1), addr(2), addr(3));
    c.set_balance(&a, 500);
    c.set_balance(&bystander, 8);
    c.stake(&bystander, 5, 0).unwrap();
    c.snapshot_account(&bystander, &op(9), 0).unwrap();
    c.stake(&a, 100, 1).unwrap();
    c.unstake(&a, 2).unwrap();
    c.pause(&b"ops".to_vec()).unwrap();
    c.recover_funds(&a, &b, 50, &op(1), 3).unwrap();
    c.recover_transaction(&b, 7, &op(2), 4).unwrap();
    assert_eq!(c.get_balance(&bystander), 3);
    assert_eq!(c.get_stake(&bystander), Some(StakeRecord { amount: 5, staked_at: 0 }));
    assert_eq!(c.get_account_snapshot(&bystander).unwrap().balance, 3);
    assert_eq!(c.get_recovery_operation(&op(9)).unwrap().kind, RecoveryKind::StateSnapshot);
    assert_eq!(c.get_balance(&a), 450);
    assert_eq!(c.get_balance(&b), 57);
}

#[test]
fn settings_follow_the_last_setter() {
    let mut c = initialized();
    c.set_swap_config(&addr(7), &addr(8)).unwrap();
    c.set_annual_rate(300).unwrap();
    c.set_recovery_admin(&addr(4)).unwrap();
    c.pause(&b"first".to_vec()).unwrap();
    c.resume().unwrap();
    c.pause(&b"second".to_vec()).unwrap();
    assert_eq!(c.set_annual_rate(20_000), Err(NovaError::InvalidRate));
    c.set_recovery_admin(&addr(6)).unwrap();
    c.set_balance(&addr(1), 50);
    c.snapshot_account(&addr(1), &op(1), 1).unwrap();
    c.recover_transaction(&addr(1), 5, &op(2), 2).unwrap();
    assert!(c.is_paused());
    assert_eq!(c.get_emergency_procedure(), Some(b"second".to_vec()));
    assert_eq!(c.get_recovery_admin(), Ok(addr(6)));
    assert_eq!(c.admin(), Ok(addr(0)));
    assert_eq!(c.get_annual_rate(), 300);
    c.resume().unwrap();
    c.set_balance(&addr(1), 60);
    assert_eq!(c.prepare_swap(&addr(1), 10, 0, &vec![]), Ok(addr(8)));
    assert!(!c.is_paused());
}

#[test]
fn never_initialized_contract_is_never_paused() {
    let mut c = NovaRewardsContract::new();
    assert_eq!(c.pause(&b"x".to_vec()), Err(NovaError::NotInitialized));
    c.set_balance(&addr(1), 5);
    assert!(!c.is_paused());
}

#[test]
fn balance_survives_writes_to_other_accounts() {
    let mut c = initialized();
    c.set_balance(&addr(1), 42);
    for t in 2..10u8 {
        c.set_balance(&addr(t), t as i128);
        c.stake(&addr(t), 1, 0).unwrap();
    }
    assert_eq!(c.get_balance(&addr(1)), 42);
    assert_eq!(c.get_balance(&addr(200)), 0);
}

#[test]
fn recorded_operation_is_write_once() {
    let mut c = initialized();
    c.set_balance(&addr(1), 10);
    c.pause(&b"p".to_vec()).unwrap();
    c.recover_transaction(&addr(1), 3, &op(1), 100).unwrap();
    let first = c.get_recovery_operation(&op(1)).unwrap();
    c.recover_funds(&addr(1), &addr(2), 4, &op(1), 200).unwrap();
    c.snapshot_account(&addr(2), &op(1), 300).unwrap_err();
    c.recover_transaction(&addr(2), 9, &op(3), 400).unwrap();
    assert_eq!(c.get_recovery_operation(&op(1)), Some(first));
    assert_eq!(c.get_balance(&addr(1)), 13);
}
