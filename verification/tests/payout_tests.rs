use nova_rewards::payout::{calculate_payout, compute_yield, BASIS_POINTS, SCALE_FACTOR, SECONDS_PER_YEAR};

#[test]
fn payout_of_documented_rate() {
    // A 3.3333% rate is written 33_333.
    assert_eq!(calculate_payout(1_000_000, 33_333), 33_333);
    assert_eq!(calculate_payout(3_000_000, 33_333), 99_999);
}

#[test]
fn payout_multiplies_before_dividing() {
    // Dividing first would lose the fractional part of the balance entirely.
    assert_eq!(calculate_payout(999_999, 500_000), 499_999);
    assert_eq!(calculate_payout(1, 999_999), 0);
}

#[test]
fn payout_at_full_scale_is_the_balance() {
    assert_eq!(calculate_payout(123_456_789, SCALE_FACTOR), 123_456_789);
    assert_eq!(calculate_payout(-42, SCALE_FACTOR), -42);
}

#[test]
fn payout_truncates_toward_zero() {
    assert_eq!(calculate_payout(-5, 300_000), -1);
    assert_eq!(calculate_payout(5, -300_000), -1);
    assert_eq!(calculate_payout(5, 300_000), 1);
}

#[test]
fn payout_handles_balances_beyond_i64() {
    let balance: i128 = i64::MAX as i128;
    assert_eq!(calculate_payout(balance, 2 * SCALE_FACTOR), 2 * balance);
}

#[test]
fn yield_for_a_year_at_ten_percent() {
    assert_eq!(compute_yield(1_000_000, 1_000, SECONDS_PER_YEAR), Some(100_000));
}

#[test]
fn yield_at_full_rate_for_a_year_is_the_amount() {
    assert_eq!(compute_yield(777, BASIS_POINTS, SECONDS_PER_YEAR), Some(777));
}

#[test]
fn yield_is_zero_without_rate_or_time() {
    assert_eq!(compute_yield(1_000_000, 0, SECONDS_PER_YEAR), Some(0));
    assert_eq!(compute_yield(1_000_000, 500, 0), Some(0));
}

#[test]
fn yield_overflow_is_reported() {
    assert_eq!(compute_yield(i128::MAX, 2, 1), None);
    assert_eq!(compute_yield(i128::MAX / 10_000, 10_000, 2), None);
}

#[test]
fn yield_grows_with_time() {
    let day: u64 = 86_400;
    let a = compute_yield(5_000_000, 2_500, day).unwrap();
    let b = compute_yield(5_000_000, 2_500, 30 * day).unwrap();
    assert!(0 <= a && a <= b);
    assert_eq!(b, 5_000_000 * 2_500 * 30 * 86_400 / (10_000 * 31_536_000));
}
