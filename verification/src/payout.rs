use vstd::prelude::*;

verus! {

/// Scale factor for 6 decimal places of precision: a payout rate of
/// 3.3333% is written `33_333`.
pub const SCALE_FACTOR: i128 = 1_000_000;

/// Seconds per year for yield calculations (365 days).
pub const SECONDS_PER_YEAR: u64 = 31_536_000;

/// The annual staking rate is given in basis points: `10000` is 100%.
pub const BASIS_POINTS: i128 = 10_000;

/// Whether a mathematical integer fits in an `i128`.
pub open spec fn fits_i128(x: int) -> bool {
    i128::MIN <= x <= i128::MAX
}

/// The quotient of `a` by a positive `d`, truncated toward zero, as Rust's
/// integer division computes it.
pub open spec fn div_toward_zero(a: int, d: int) -> int
    recommends
        d > 0,
{
    if a >= 0 {
        a / d
    } else {
        -((-a) / d)
    }
}

/// The payout of `balance` at a rate scaled by `SCALE_FACTOR`: the product
/// first, then a single truncating division.
pub open spec fn payout_of(balance: int, rate: int) -> int {
    div_toward_zero(balance * rate, SCALE_FACTOR as int)
}

/// Computes the reward payout for a given balance and rate using fixed-point
/// arithmetic: `(balance * rate) / SCALE_FACTOR`, truncated toward zero.
pub fn calculate_payout(balance: i128, rate: i128) -> (payout: i128)
    requires
        fits_i128(balance * rate),
    ensures
        payout == payout_of(balance as int, rate as int),
{
    let product = balance.checked_mul(rate).expect("overflow in balance * rate");
    proof {
        lemma_quotient_fits(product as int, SCALE_FACTOR as int);
    }
    product.checked_div(SCALE_FACTOR).expect("overflow in payout / SCALE_FACTOR")
}

/// Dividing by a positive integer, truncating toward zero, never leaves the
/// range of `i128`.
pub proof fn lemma_quotient_fits(a: int, d: int)
    requires
        fits_i128(a),
        d > 0,
    ensures
        fits_i128(div_toward_zero(a, d)),
        0 <= a ==> 0 <= div_toward_zero(a, d) <= a,
        a < 0 ==> a <= div_toward_zero(a, d) <= 0,
{
    if a >= 0 {
        assert(0 <= a / d <= a) by (nonlinear_arith)
            requires
                a >= 0,
                d > 0,
        ;
    } else {
        assert(0 <= (-a) / d <= -a) by (nonlinear_arith)
            requires
                -a > 0,
                d > 0,
        ;
    }
}

/// Seconds between `since` and `now`; zero when `now` is not later.
pub open spec fn elapsed_since(now: u64, since: u64) -> int {
    if now > since {
        now - since
    } else {
        0
    }
}

/// The divisor of the yield formula: basis points times seconds per year.
pub open spec fn yield_divisor() -> int {
    BASIS_POINTS * SECONDS_PER_YEAR
}

/// Whether computing the yield of `amount` at `rate` over `elapsed` seconds
/// overflows an `i128` in one of its two multiplications.
pub open spec fn yield_overflows(amount: int, rate: int, elapsed: int) -> bool {
    &&& rate > 0
    &&& elapsed > 0
    &&& (!fits_i128(amount * rate) || !fits_i128(amount * rate * elapsed))
}

/// The yield of `amount` staked at `rate` basis points a year for `elapsed`
/// seconds: `amount * rate * elapsed / (10000 * SECONDS_PER_YEAR)`, truncated
/// toward zero, and nothing when the rate or the elapsed time is zero.
pub open spec fn accrued_yield(amount: int, rate: int, elapsed: int) -> int {
    if rate > 0 && elapsed > 0 {
        div_toward_zero(amount * rate * elapsed, yield_divisor())
    } else {
        0
    }
}

/// The yield formula shared by unstaking and the yield preview; `None` where
/// an intermediate product overflows.
pub fn compute_yield(amount: i128, annual_rate: i128, time_elapsed: u64) -> (result: Option<i128>)
    ensures
        match result {
            Some(y) => {
                &&& !yield_overflows(amount as int, annual_rate as int, time_elapsed as int)
                &&& y == accrued_yield(amount as int, annual_rate as int, time_elapsed as int)
            },
            None => yield_overflows(amount as int, annual_rate as int, time_elapsed as int),
        },
{
    if annual_rate > 0 && time_elapsed > 0 {
        let by_rate = match amount.checked_mul(annual_rate) {
            Some(v) => v,
            None => {
                return None;
            },
        };
        let elapsed = time_elapsed as i128;
        let by_time = match by_rate.checked_mul(elapsed) {
            Some(v) => v,
            None => {
                return None;
            },
        };
        let divisor = BASIS_POINTS * (SECONDS_PER_YEAR as i128);
        assert(divisor == yield_divisor());
        proof {
            lemma_quotient_fits(by_time as int, divisor as int);
        }
        by_time.checked_div(divisor)
    } else {
        Some(0)
    }
}

} // verus!
