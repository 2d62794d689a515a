use vstd::prelude::*;

use crate::error::ErrorCode;
use crate::interest::{compound_fits, compound_interest, compounded, elapsed_periods, whole_periods};
use crate::risk::ceil_div;
use crate::state::Bank;

verus! {

/// Whole accrual periods of `b` that have passed at `now`.
pub open spec fn accrual_periods(b: Bank, now: int) -> int {
    whole_periods(now - b.last_compound_time, b.interest_accrual_period as int)
}

/// `assets` compounded at `rate` over the pool's elapsed periods.
pub open spec fn grown(assets: u64, rate: u64, periods: int) -> int {
    compounded(assets as int, rate as int, periods as nat)
}

/// Whether compounding `assets` stays within `u128` at every step and
/// ends within `u64`.
pub open spec fn grows_within(assets: u64, rate: u64, periods: int) -> bool {
    &&& compound_fits(assets as int, rate as int, periods as nat)
    &&& grown(assets, rate, periods) <= u64::MAX
}

/// Whether accruing `b` up to `now` succeeds.
pub open spec fn accrual_ok(b: Bank, now: int) -> bool {
    let p = accrual_periods(b, now);
    &&& p <= u32::MAX
    &&& grows_within(b.total_deposited_assets, b.deposit_interest_rate, p)
    &&& grows_within(b.total_borrowed_assets, b.borrow_interest_rate, p)
}

/// `b` with interest rolled in up to `now`: each asset total compounded at
/// its rate over the whole elapsed periods, the share totals untouched, and
/// the compounding clock moved forward by exactly those periods.
pub open spec fn accrued(b: Bank, now: int) -> Bank {
    let p = accrual_periods(b, now);
    if p == 0 {
        b
    } else {
        Bank {
            total_deposited_assets: grown(
                b.total_deposited_assets,
                b.deposit_interest_rate,
                p,
            ) as u64,
            total_borrowed_assets: grown(b.total_borrowed_assets, b.borrow_interest_rate, p) as u64,
            last_compound_time: (b.last_compound_time + p * b.interest_accrual_period) as i64,
            ..b
        }
    }
}

/// Shares that `amount` assets buy from a pool of `shares` shares over
/// `assets` assets: one for one in an empty pool, else proportionally,
/// rounded down.
pub open spec fn shares_for_amount(amount: int, shares: int, assets: int) -> int {
    if shares == 0 || assets == 0 {
        amount
    } else {
        amount * shares / assets
    }
}

/// Assets that `user_shares` of a pool of `shares` shares over `assets`
/// assets stand for, rounded down.
pub open spec fn assets_for_shares(user_shares: int, shares: int, assets: int) -> int {
    if shares == 0 {
        0
    } else {
        user_shares * assets / shares
    }
}

/// The result of accruing a pool: its new asset totals and clock.
pub struct Accrual {
    pub deposited_assets: u64,
    pub borrowed_assets: u64,
    pub last_compound_time: i64,
}

impl Accrual {
    /// The accrual describes `accrued(b, now)`.
    pub open spec fn describes(&self, b: Bank, now: int) -> bool {
        let a = accrued(b, now);
        &&& self.deposited_assets == a.total_deposited_assets
        &&& self.borrowed_assets == a.total_borrowed_assets
        &&& self.last_compound_time == a.last_compound_time
    }
}

proof fn lemma_whole_periods_fit(elapsed: int, period: int)
    requires
        period > 0,
    ensures
        0 <= whole_periods(elapsed, period),
        elapsed > 0 ==> whole_periods(elapsed, period) * period <= elapsed,
{
    if elapsed > 0 {
        let q = elapsed / period;
        assert(q >= 0 && q * period <= elapsed) by (nonlinear_arith)
            requires
                elapsed > 0,
                period > 0,
                q == elapsed / period,
        ;
    }
}

/// Computes, without changing `bank`, what accruing it up to `now` gives.
pub fn compute_accrual(bank: &Bank, now: i64) -> (r: Result<Accrual, ErrorCode>)
    requires
        bank.wf(),
    ensures
        r is Ok <==> accrual_ok(*bank, now as int),
        r matches Ok(a) ==> a.describes(*bank, now as int),
        r matches Err(e) ==> e == ErrorCode::ArithmeticOverflow,
{
    let periods = elapsed_periods(bank.last_compound_time, now, bank.interest_accrual_period)?;
    proof {
        lemma_whole_periods_fit(now - bank.last_compound_time, bank.interest_accrual_period as int);
    }
    let deposited = compound_interest(
        bank.total_deposited_assets as u128,
        bank.deposit_interest_rate as u128,
        periods,
    )?;
    if deposited > u64::MAX as u128 {
        return Err(ErrorCode::ArithmeticOverflow);
    }
    let borrowed = compound_interest(
        bank.total_borrowed_assets as u128,
        bank.borrow_interest_rate as u128,
        periods,
    )?;
    if borrowed > u64::MAX as u128 {
        return Err(ErrorCode::ArithmeticOverflow);
    }
    if periods == 0 {
        return Ok(
            Accrual {
                deposited_assets: bank.total_deposited_assets,
                borrowed_assets: bank.total_borrowed_assets,
                last_compound_time: bank.last_compound_time,
            },
        );
    }
    let advanced: i128 = bank.last_compound_time as i128 + periods as i128
        * bank.interest_accrual_period as i128;
    Ok(
        Accrual {
            deposited_assets: deposited as u64,
            borrowed_assets: borrowed as u64,
            last_compound_time: advanced as i64,
        },
    )
}

/// Writes an accrual computed by `compute_accrual` into `bank`.
pub fn apply_accrual(bank: &mut Bank, accrual: &Accrual, Ghost(now): Ghost<int>)
    requires
        old(bank).wf(),
        accrual_ok(*old(bank), now),
        accrual.describes(*old(bank), now),
    ensures
        *final(bank) == accrued(*old(bank), now),
        final(bank).wf(),
{
    proof {
        lemma_accrued_wf(*old(bank), now);
    }
    bank.total_deposited_assets = accrual.deposited_assets;
    bank.total_borrowed_assets = accrual.borrowed_assets;
    bank.last_compound_time = accrual.last_compound_time;
}

/// Accrual keeps a ledger well formed.
pub proof fn lemma_accrued_wf(b: Bank, now: int)
    requires
        b.wf(),
        accrual_ok(b, now),
    ensures
        accrued(b, now).wf(),
        accrued(b, now).total_deposited_shares == b.total_deposited_shares,
        accrued(b, now).total_borrowed_shares == b.total_borrowed_shares,
        accrued(b, now).total_collateral_shares == b.total_collateral_shares,
        accrued(b, now).same_parameters(&b),
{
    let p = accrual_periods(b, now);
    if p != 0 && p >= 0 {
        lemma_grown_zero_iff(b.total_deposited_assets, b.deposit_interest_rate, p);
        lemma_grown_zero_iff(b.total_borrowed_assets, b.borrow_interest_rate, p);
    }
}

proof fn lemma_grown_zero_iff(assets: u64, rate: u64, p: int)
    requires
        p >= 0,
    ensures
        assets == 0 ==> grown(assets, rate, p) == 0,
        assets > 0 ==> grown(assets, rate, p) >= assets,
{
    crate::interest::lemma_compound_grows(assets as int, rate as int, p as nat);
    crate::interest::lemma_compound_zero(rate as int, p as nat);
}

/// Rolls interest into `bank` up to `current_time`: both asset totals
/// compound over the whole elapsed periods, the share totals stay, and the
/// clock advances by exactly those periods. On overflow nothing changes.
pub fn accrue_interest(bank: &mut Bank, current_time: i64) -> (r: Result<(), ErrorCode>)
    requires
        old(bank).wf(),
    ensures
        r is Ok <==> accrual_ok(*old(bank), current_time as int),
        r is Ok ==> *final(bank) == accrued(*old(bank), current_time as int),
        r is Err ==> *final(bank) == *old(bank),
        r matches Err(e) ==> e == ErrorCode::ArithmeticOverflow,
        final(bank).wf(),
{
    let accrual = compute_accrual(bank, current_time)?;
    apply_accrual(bank, &accrual, Ghost(current_time as int));
    Ok(())
}

/// The pool's deposit assets as of `now`, interest since the last accrual
/// included.
pub fn calculate_total_assets(bank: &Bank, now: i64) -> (r: Result<u128, ErrorCode>)
    requires
        bank.wf(),
    ensures
        r is Ok <==> accrual_periods(*bank, now as int) <= u32::MAX && compound_fits(
            bank.total_deposited_assets as int,
            bank.deposit_interest_rate as int,
            accrual_periods(*bank, now as int) as nat,
        ),
        r matches Ok(v) ==> v == grown(
            bank.total_deposited_assets,
            bank.deposit_interest_rate,
            accrual_periods(*bank, now as int),
        ),
        r matches Err(e) ==> e == ErrorCode::ArithmeticOverflow,
{
    let periods = elapsed_periods(bank.last_compound_time, now, bank.interest_accrual_period)?;
    compound_interest(bank.total_deposited_assets as u128, bank.deposit_interest_rate as u128, periods)
}

/// The pool's outstanding debt as of `now`, interest since the last
/// accrual included.
pub fn calculate_borrowed_assets(bank: &Bank, now: i64) -> (r: Result<u128, ErrorCode>)
    requires
        bank.wf(),
    ensures
        r is Ok <==> accrual_periods(*bank, now as int) <= u32::MAX && compound_fits(
            bank.total_borrowed_assets as int,
            bank.borrow_interest_rate as int,
            accrual_periods(*bank, now as int) as nat,
        ),
        r matches Ok(v) ==> v == grown(
            bank.total_borrowed_assets,
            bank.borrow_interest_rate,
            accrual_periods(*bank, now as int),
        ),
        r matches Err(e) ==> e == ErrorCode::ArithmeticOverflow,
{
    let periods = elapsed_periods(bank.last_compound_time, now, bank.interest_accrual_period)?;
    compound_interest(bank.total_borrowed_assets as u128, bank.borrow_interest_rate as u128, periods)
}

/// The shares that `amount` assets buy from a pool of `total_shares` over
/// `total_assets` (one for one when the pool is empty), rounded down.
pub fn convert_to_shares(amount: u64, total_shares: u64, total_assets: u64) -> (r: Result<
    u64,
    ErrorCode,
>)
    ensures
        r is Ok <==> shares_for_amount(amount as int, total_shares as int, total_assets as int)
            <= u64::MAX,
        r matches Ok(s) ==> s == shares_for_amount(
            amount as int,
            total_shares as int,
            total_assets as int,
        ),
        r matches Err(e) ==> e == ErrorCode::ArithmeticOverflow,
{
    if total_shares == 0 || total_assets == 0 {
        return Ok(amount);
    }
    proof {
        assert(amount * total_shares <= u64::MAX * u64::MAX) by (nonlinear_arith)
            requires
                amount <= u64::MAX,
                total_shares <= u64::MAX,
        ;
    }
    let product: u128 = amount as u128 * total_shares as u128;
    let shares: u128 = product / total_assets as u128;
    if shares > u64::MAX as u128 {
        Err(ErrorCode::ArithmeticOverflow)
    } else {
        Ok(shares as u64)
    }
}

/// The assets that `user_shares` of a pool of `total_shares` over
/// `total_assets` stand for, rounded down (none in an empty pool).
pub fn convert_to_assets(user_shares: u128, total_shares: u64, total_assets: u128) -> (r: Result<
    u128,
    ErrorCode,
>)
    ensures
        r is Ok <==> total_shares == 0 || user_shares * total_assets <= u128::MAX,
        r matches Ok(v) ==> v == assets_for_shares(
            user_shares as int,
            total_shares as int,
            total_assets as int,
        ),
        r matches Err(e) ==> e == ErrorCode::ArithmeticOverflow,
{
    if total_shares == 0 {
        return Ok(0);
    }
    match user_shares.checked_mul(total_assets) {
        Some(p) => Ok(p / total_shares as u128),
        None => Err(ErrorCode::ArithmeticOverflow),
    }
}

/// What `user_shares` deposit shares of `bank` (free or locked) are worth at
/// `now`.
pub fn calculate_user_assets(bank: &Bank, user_shares: u64, now: i64) -> (r: Result<
    u128,
    ErrorCode,
>)
    requires
        bank.wf(),
    ensures
        r is Ok <==> accrual_periods(*bank, now as int) <= u32::MAX && compound_fits(
            bank.total_deposited_assets as int,
            bank.deposit_interest_rate as int,
            accrual_periods(*bank, now as int) as nat,
        ) && (bank.share_supply() == 0 || user_shares * grown(
            bank.total_deposited_assets,
            bank.deposit_interest_rate,
            accrual_periods(*bank, now as int),
        ) <= u128::MAX),
        r matches Ok(v) ==> v == assets_for_shares(
            user_shares as int,
            bank.share_supply(),
            grown(
                bank.total_deposited_assets,
                bank.deposit_interest_rate,
                accrual_periods(*bank, now as int),
            ),
        ),
        r matches Err(e) ==> e == ErrorCode::ArithmeticOverflow,
{
    let total = calculate_total_assets(bank, now)?;
    convert_to_assets(user_shares as u128, bank.deposit_share_supply(), total)
}

/// What `user_shares` borrow shares of `bank` owe at `now`.
pub fn calculate_user_debt(bank: &Bank, user_shares: u64, now: i64) -> (r: Result<
    u128,
    ErrorCode,
>)
    requires
        bank.wf(),
    ensures
        r is Ok <==> accrual_periods(*bank, now as int) <= u32::MAX && compound_fits(
            bank.total_borrowed_assets as int,
            bank.borrow_interest_rate as int,
            accrual_periods(*bank, now as int) as nat,
        ) && (bank.total_borrowed_shares == 0 || user_shares * grown(
            bank.total_borrowed_assets,
            bank.borrow_interest_rate,
            accrual_periods(*bank, now as int),
        ) <= u128::MAX),
        r matches Ok(v) ==> v == assets_for_shares(
            user_shares as int,
            bank.total_borrowed_shares as int,
            grown(
                bank.total_borrowed_assets,
                bank.borrow_interest_rate,
                accrual_periods(*bank, now as int),
            ),
        ),
        r matches Err(e) ==> e == ErrorCode::ArithmeticOverflow,
{
    let total = calculate_borrowed_assets(bank, now)?;
    convert_to_assets(user_shares as u128, bank.total_borrowed_shares, total)
}

/// Shares that `units` assets stand for in a pool of `shares` shares over
/// `assets` assets, rounded up (one for one in an empty pool): the fewest
/// shares worth at least `units`.
pub open spec fn shares_for_units_ceil(units: int, shares: int, assets: int) -> int {
    if shares == 0 || assets == 0 {
        units
    } else {
        ceil_div(units * shares, assets)
    }
}

proof fn lemma_above_floor(u: int, y: int, t: int)
    requires
        u >= 0,
        y >= 0,
        t > 0,
    ensures
        (u > y / t) <==> (u * t > y),
{
    vstd::arithmetic::div_mod::lemma_fundamental_div_mod(y, t);
    vstd::arithmetic::div_mod::lemma_mod_bound(y, t);
    let q = y / t;
    let r = y % t;
    assert((u > q) <==> (u * t > y)) by (nonlinear_arith)
        requires
            y == t * q + r,
            0 <= r < t,
            u >= 0,
    ;
}

proof fn lemma_ceil_above(x: int, a: int, limit: int)
    requires
        x >= 0,
        a > 0,
        limit >= 0,
    ensures
        (ceil_div(x, a) > limit) <==> (x > limit * a),
        ceil_div(x, a) >= 0,
{
    vstd::arithmetic::div_mod::lemma_fundamental_div_mod(x, a);
    vstd::arithmetic::div_mod::lemma_mod_bound(x, a);
    let q = x / a;
    let r = x % a;
    assert(q >= 0) by (nonlinear_arith)
        requires
            x == a * q + r,
            0 <= r < a,
            x >= 0,
    ;
    assert((ceil_div(x, a) > limit) <==> (x > limit * a)) by (nonlinear_arith)
        requires
            x == a * q + r,
            0 <= r < a,
            ceil_div(x, a) == (if r == 0 { q } else { q + 1 }),
    ;
}

/// The deposit shares that `units` assets stand for, rounded up, in a pool
/// of `shares` shares over `assets` assets; `None` when that is more than
/// `limit`.
pub fn shares_for_units_within(units: u128, shares: u64, assets: u64, limit: u64) -> (r: Option<u64>)
    ensures
        r is None <==> shares_for_units_ceil(units as int, shares as int, assets as int) > limit,
        r matches Some(v) ==> v == shares_for_units_ceil(units as int, shares as int, assets as int),
{
    if shares == 0 || assets == 0 {
        if units > limit as u128 {
            return None;
        }
        return Some(units as u64);
    }
    proof {
        lemma_u64_mul(limit as int, assets as int);
    }
    let bound: u128 = (limit as u128 * assets as u128) / shares as u128;
    proof {
        lemma_above_floor(units as int, limit * assets, shares as int);
        lemma_ceil_above(units * shares, assets as int, limit as int);
    }
    if units > bound {
        return None;
    }
    let n: u128 = units * shares as u128;
    let q: u128 = n / assets as u128;
    if n % assets as u128 == 0 {
        Some(q as u64)
    } else {
        Some((q + 1) as u64)
    }
}

proof fn lemma_u64_mul(a: int, b: int)
    requires
        0 <= a <= u64::MAX,
        0 <= b <= u64::MAX,
    ensures
        a * b <= u128::MAX,
        a * b >= 0,
{
    assert(0 <= a * b <= u64::MAX * u64::MAX) by (nonlinear_arith)
        requires
            0 <= a <= u64::MAX,
            0 <= b <= u64::MAX,
    ;
}

} // verus!
