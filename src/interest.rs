use vstd::prelude::*;

use crate::constants::RATE_SCALE;
use crate::error::ErrorCode;

verus! {

/// One period of interest: `amount + amount * rate / RATE_SCALE`.
pub open spec fn interest_step(amount: int, rate: int) -> int {
    amount + amount * rate / (RATE_SCALE as int)
}

/// `principal` after `periods` applications of `interest_step`.
pub open spec fn compounded(principal: int, rate: int, periods: nat) -> int
    decreases periods,
{
    if periods == 0 {
        principal
    } else {
        interest_step(compounded(principal, rate, (periods - 1) as nat), rate)
    }
}

/// Whether every intermediate product and sum of `compounded` stays within
/// `u128`.
pub open spec fn compound_fits(principal: int, rate: int, periods: nat) -> bool
    decreases periods,
{
    if periods == 0 {
        true
    } else {
        let a = compounded(principal, rate, (periods - 1) as nat);
        &&& compound_fits(principal, rate, (periods - 1) as nat)
        &&& a * rate <= u128::MAX
        &&& interest_step(a, rate) <= u128::MAX
    }
}

/// Whole accrual periods in `elapsed` seconds (truncating; none when time
/// has not moved forward).
pub open spec fn whole_periods(elapsed: int, period: int) -> int {
    if elapsed <= 0 {
        0
    } else {
        elapsed / period
    }
}

proof fn lemma_compound_fits_prefix(principal: int, rate: int, m: nat, n: nat)
    requires
        m <= n,
        compound_fits(principal, rate, n),
    ensures
        compound_fits(principal, rate, m),
    decreases n - m,
{
    if m < n {
        lemma_compound_fits_prefix(principal, rate, m, (n - 1) as nat);
    }
}

pub proof fn lemma_compound_zero(rate: int, n: nat)
    requires
        rate >= 0,
    ensures
        compounded(0, rate, n) == 0,
        compound_fits(0, rate, n),
    decreases n,
{
    if n > 0 {
        lemma_compound_zero(rate, (n - 1) as nat);
    }
}

/// Interest never shrinks a non-negative principal.
pub proof fn lemma_compound_grows(principal: int, rate: int, n: nat)
    requires
        principal >= 0,
        rate >= 0,
    ensures
        compounded(principal, rate, n) >= principal,
    decreases n,
{
    if n > 0 {
        lemma_compound_grows(principal, rate, (n - 1) as nat);
        let a = compounded(principal, rate, (n - 1) as nat);
        assert(a * rate >= 0) by (nonlinear_arith)
            requires
                a >= 0,
                rate >= 0,
        ;
    }
}

/// Applies `amount += amount * rate_per_period / RATE_SCALE` `periods`
/// times, failing instead of wrapping when a step leaves `u128`.
pub fn compound_interest(principal: u128, rate_per_period: u128, periods: u32) -> (r: Result<
    u128,
    ErrorCode,
>)
    ensures
        r is Ok <==> compound_fits(principal as int, rate_per_period as int, periods as nat),
        r matches Ok(v) ==> v == compounded(principal as int, rate_per_period as int, periods as nat),
        r matches Err(e) ==> e == ErrorCode::ArithmeticOverflow,
{
    if principal == 0 {
        proof {
            lemma_compound_zero(rate_per_period as int, periods as nat);
        }
        return Ok(0);
    }
    let mut amount: u128 = principal;
    let mut i: u32 = 0;
    while i < periods
        invariant
            i <= periods,
            amount == compounded(principal as int, rate_per_period as int, i as nat),
            compound_fits(principal as int, rate_per_period as int, i as nat),
        decreases periods - i,
    {
        let grown = match amount.checked_mul(rate_per_period) {
            Some(v) => v,
            None => {
                proof {
                    if compound_fits(principal as int, rate_per_period as int, periods as nat) {
                        lemma_compound_fits_prefix(
                            principal as int,
                            rate_per_period as int,
                            (i + 1) as nat,
                            periods as nat,
                        );
                    }
                }
                return Err(ErrorCode::ArithmeticOverflow);
            },
        };
        let next = match amount.checked_add(grown / RATE_SCALE) {
            Some(v) => v,
            None => {
                proof {
                    if compound_fits(principal as int, rate_per_period as int, periods as nat) {
                        lemma_compound_fits_prefix(
                            principal as int,
                            rate_per_period as int,
                            (i + 1) as nat,
                            periods as nat,
                        );
                    }
                }
                return Err(ErrorCode::ArithmeticOverflow);
            },
        };
        amount = next;
        i = i + 1;
    }
    Ok(amount)
}

/// Whole accrual periods between `since` and `now`. A non-positive elapsed
/// time gives none; a count beyond `u32` is an overflow.
pub fn elapsed_periods(since: i64, now: i64, period: i64) -> (r: Result<u32, ErrorCode>)
    requires
        period > 0,
    ensures
        r is Ok <==> whole_periods(now - since, period as int) <= u32::MAX,
        r matches Ok(p) ==> p == whole_periods(now - since, period as int),
        r matches Err(e) ==> e == ErrorCode::ArithmeticOverflow,
{
    if now <= since {
        return Ok(0);
    }
    let elapsed: u64 = (now as i128 - since as i128) as u64;
    let periods: u64 = elapsed / (period as u64);
    if periods > u32::MAX as u64 {
        Err(ErrorCode::ArithmeticOverflow)
    } else {
        Ok(periods as u32)
    }
}

} // verus!
