use vstd::prelude::*;

use crate::interest::{lemma_compound_grows, whole_periods};
use crate::ledger::{
    accrual_ok, accrual_periods, accrued, assets_for_shares, shares_for_amount, shares_for_units_ceil,
};
use crate::risk::{lock_units, pow10, scale_digits, usable_price};
use crate::instructions::{repay_plan, RepayPlan, RepayRequest};
use crate::error::ErrorCode;
use crate::state::{Bank, BorrowPosition, UserTokenState};

verus! {

/// Accrual never lowers what a share is worth: on each side of the pool
/// the share total stays, the asset total does not fall, and any holding of
/// shares is worth at least as much afterwards. Applied call after call,
/// the exchange rate is non-decreasing.
pub proof fn lemma_accrue_exchange_rate_monotone(b: Bank, now: int, user_shares: nat)
    requires
        b.wf(),
        accrual_ok(b, now),
    ensures
        accrued(b, now).total_deposited_shares == b.total_deposited_shares,
        accrued(b, now).total_borrowed_shares == b.total_borrowed_shares,
        accrued(b, now).total_deposited_assets >= b.total_deposited_assets,
        accrued(b, now).total_borrowed_assets >= b.total_borrowed_assets,
        accrued(b, now).total_collateral_shares == b.total_collateral_shares,
        accrued(b, now).total_deposited_assets * b.share_supply()
            >= b.total_deposited_assets * accrued(b, now).share_supply(),
        assets_for_shares(
            user_shares as int,
            accrued(b, now).share_supply(),
            accrued(b, now).total_deposited_assets as int,
        ) >= assets_for_shares(
            user_shares as int,
            b.share_supply(),
            b.total_deposited_assets as int,
        ),
        assets_for_shares(
            user_shares as int,
            accrued(b, now).total_borrowed_shares as int,
            accrued(b, now).total_borrowed_assets as int,
        ) >= assets_for_shares(
            user_shares as int,
            b.total_borrowed_shares as int,
            b.total_borrowed_assets as int,
        ),
{
    let a = accrued(b, now);
    let p = accrual_periods(b, now);
    if p != 0 {
        lemma_compound_grows(b.total_deposited_assets as int, b.deposit_interest_rate as int, p as nat);
        lemma_compound_grows(b.total_borrowed_assets as int, b.borrow_interest_rate as int, p as nat);
    }
    lemma_holding_grows(user_shares as int, b.share_supply(), b.total_deposited_assets as int, a.total_deposited_assets as int);
    lemma_holding_grows(user_shares as int, b.total_borrowed_shares as int, b.total_borrowed_assets as int, a.total_borrowed_assets as int);
    assert(a.total_deposited_assets * b.share_supply() >= b.total_deposited_assets * b.share_supply()) by (nonlinear_arith)
        requires
            a.total_deposited_assets >= b.total_deposited_assets,
            b.share_supply() >= 0,
    ;
}

proof fn lemma_holding_grows(u: int, shares: int, before: int, after: int)
    requires
        u >= 0,
        shares >= 0,
        0 <= before <= after,
    ensures
        assets_for_shares(u, shares, after) >= assets_for_shares(u, shares, before),
{
    if shares > 0 {
        assert(u * after >= u * before) by (nonlinear_arith)
            requires
                u >= 0,
                before <= after,
        ;
        vstd::arithmetic::div_mod::lemma_div_is_ordered(u * before, u * after, shares);
    }
}

/// Accruing twice at the same instant is accruing once: the first call
/// moves the clock to within one period of `now`, so the second finds no
/// whole period to compound.
pub proof fn lemma_accrue_idempotent(b: Bank, now: int)
    requires
        i64::MIN <= now <= i64::MAX,
        b.wf(),
        accrual_ok(b, now),
    ensures
        accrual_periods(accrued(b, now), now) == 0,
        accrued(accrued(b, now), now) == accrued(b, now),
{
    let elapsed = now - b.last_compound_time;
    let period = b.interest_accrual_period as int;
    if elapsed > 0 {
        vstd::arithmetic::div_mod::lemma_fundamental_div_mod(elapsed, period);
        vstd::arithmetic::div_mod::lemma_mod_bound(elapsed, period);
        let q = elapsed / period;
        assert(q * period == period * q) by (nonlinear_arith);
        assert(q >= 0 && q * period >= 0) by (nonlinear_arith)
            requires
                elapsed > 0,
                period > 0,
                q == elapsed / period,
        ;
        assert(b.last_compound_time + q * period <= now);
        assert(accrual_periods(b, now) == q);
        if q != 0 {
            assert(accrued(b, now).last_compound_time == b.last_compound_time + q * period);
            let rest = now - accrued(b, now).last_compound_time;
            assert(rest == elapsed % period);
            assert(whole_periods(rest, period) == 0) by {
                if rest > 0 {
                    vstd::arithmetic::div_mod::lemma_basic_div(rest, period);
                }
            }
        }
    }
}

/// A deposit of `amount` followed at once by a withdrawal of `amount` burns
/// exactly the shares the deposit minted, so the pool and the user are back
/// to their share counts: the deposit leaves a pool with no whole period to
/// accrue, and at its exchange rate `amount` converts back to the same
/// shares.
pub proof fn lemma_deposit_withdraw_round_trip(b: Bank, amount: u64, now: int)
    requires
        i64::MIN <= now <= i64::MAX,
        b.wf(),
        accrual_ok(b, now),
    ensures
        ({
            let b1 = accrued(b, now);
            let s = shares_for_amount(amount as int, b1.share_supply(), b1.total_deposited_assets as int);
            let b2 = Bank {
                total_deposited_shares: (b1.total_deposited_shares + s) as u64,
                total_deposited_assets: (b1.total_deposited_assets + amount) as u64,
                ..b1
            };
            b1.share_supply() + s <= u64::MAX && b1.total_deposited_assets + amount <= u64::MAX
                ==> accrued(b2, now) == b2 && shares_for_amount(
                amount as int,
                b2.share_supply(),
                b2.total_deposited_assets as int,
            ) == s
        }),
{
    let b1 = accrued(b, now);
    crate::ledger::lemma_accrued_wf(b, now);
    lemma_accrue_idempotent(b, now);
    let s = shares_for_amount(amount as int, b1.share_supply(), b1.total_deposited_assets as int);
    let b2 = Bank {
        total_deposited_shares: (b1.total_deposited_shares + s) as u64,
        total_deposited_assets: (b1.total_deposited_assets + amount) as u64,
        ..b1
    };
    if b1.share_supply() + s <= u64::MAX && b1.total_deposited_assets + amount <= u64::MAX {
        assert(accrual_periods(b2, now) == accrual_periods(b1, now));
        lemma_convert_round_trip(amount as int, b1.share_supply(), b1.total_deposited_assets as int);
    }
}

/// At the exchange rate a deposit of `amount` leaves behind, `amount`
/// converts back to the shares it bought.
pub proof fn lemma_convert_round_trip(amount: int, shares: int, assets: int)
    requires
        amount >= 0,
        shares >= 0,
        assets >= 0,
        shares == 0 <==> assets == 0,
    ensures
        shares_for_amount(amount, shares + shares_for_amount(amount, shares, assets), assets + amount)
            == shares_for_amount(amount, shares, assets),
{
    let s = shares_for_amount(amount, shares, assets);
    if shares == 0 {
        if amount > 0 {
            vstd::arithmetic::div_mod::lemma_div_by_multiple(amount, amount);
            assert(amount * amount == amount * amount);
        }
    } else {
        vstd::arithmetic::div_mod::lemma_fundamental_div_mod(amount * shares, assets);
        vstd::arithmetic::div_mod::lemma_mod_bound(amount * shares, assets);
        let r = (amount * shares) % assets;
        assert(amount * (shares + s) == s * (assets + amount) + r) by (nonlinear_arith)
            requires
                amount * shares == assets * s + r,
        ;
        vstd::arithmetic::div_mod::lemma_fundamental_div_mod_converse(
            amount * (shares + s),
            assets + amount,
            s,
            r,
        );
    }
}

/// Collateral is locked to the unit: the collateral units locked behind a
/// borrow of `amount` base units are worth at least the borrow's exact
/// value (`units * pc / 10^kc >= amount * pb / 10^kb`, cross-multiplied),
/// and one unit fewer would be worth less.
pub proof fn lemma_lock_covers_borrow(
    amount: nat,
    borrow_price: i64,
    borrow_exponent: i32,
    borrow_decimals: u8,
    collateral_price: i64,
    collateral_exponent: i32,
    collateral_decimals: u8,
)
    requires
        usable_price(borrow_price, borrow_exponent),
        usable_price(collateral_price, collateral_exponent),
    ensures
        ({
            let units = lock_units(amount as int, borrow_price, borrow_exponent, borrow_decimals, collateral_price, collateral_exponent, collateral_decimals);
            let kb = pow10(scale_digits(borrow_decimals, borrow_exponent) as nat);
            let kc = pow10(scale_digits(collateral_decimals, collateral_exponent) as nat);
            &&& units * collateral_price * kb >= amount * borrow_price * kc
            &&& units > 0 ==> (units - 1) * collateral_price * kb < amount * borrow_price * kc
        }),
{
    let kb = pow10(scale_digits(borrow_decimals, borrow_exponent) as nat);
    let kc = pow10(scale_digits(collateral_decimals, collateral_exponent) as nat);
    lemma_pow10_positive(scale_digits(borrow_decimals, borrow_exponent) as nat);
    lemma_pow10_positive(scale_digits(collateral_decimals, collateral_exponent) as nat);
    let d = collateral_price * kb;
    let n = amount * borrow_price * kc;
    let units = lock_units(amount as int, borrow_price, borrow_exponent, borrow_decimals, collateral_price, collateral_exponent, collateral_decimals);
    assert(d > 0 && n >= 0) by (nonlinear_arith)
        requires
            d == collateral_price * kb,
            n == amount * borrow_price * kc,
            collateral_price > 0,
            borrow_price > 0,
            kb >= 1,
            kc >= 1,
            amount >= 0,
    ;
    vstd::arithmetic::div_mod::lemma_fundamental_div_mod(n, d);
    vstd::arithmetic::div_mod::lemma_mod_bound(n, d);
    assert(units * d >= n && (units > 0 ==> (units - 1) * d < n)) by (nonlinear_arith)
        requires
            d > 0,
            n >= 0,
            n == d * (n / d) + n % d,
            0 <= n % d < d,
            units == (if n % d == 0 { n / d } else { n / d + 1 }),
    ;
    assert(units * collateral_price * kb == units * d && (units - 1) * collateral_price * kb == (units - 1) * d) by (nonlinear_arith)
        requires
            d == collateral_price * kb,
    ;
}

proof fn lemma_pow10_positive(n: nat)
    ensures
        pow10(n) >= 1,
    decreases n,
{
    if n > 0 {
        lemma_pow10_positive((n - 1) as nat);
    }
}

/// A repayment of more than the position owes after accrual is refused with
/// `OverRepayRequest`; `process_repay` then leaves every record unchanged.
pub proof fn lemma_over_repay_refused(
    bank_borrow: Bank,
    bank_collateral: Bank,
    user_borrow: UserTokenState,
    user_collateral: UserTokenState,
    position: BorrowPosition,
    req: RepayRequest,
)
    requires
        accrual_ok(bank_borrow, req.now as int),
        accrual_ok(bank_collateral, req.now as int),
        req.amount > assets_for_shares(
            position.borrowed_shares as int,
            accrued(bank_borrow, req.now as int).total_borrowed_shares as int,
            accrued(bank_borrow, req.now as int).total_borrowed_assets as int,
        ),
    ensures
        repay_plan(bank_borrow, bank_collateral, user_borrow, user_collateral, position, req)
            == Err::<RepayPlan, ErrorCode>(ErrorCode::OverRepayRequest),
{
}

/// The collateral shares locked for `units` base units are worth at least
/// `units` at the pool's exchange rate.
pub proof fn lemma_lock_shares_cover_units(units: int, shares: int, assets: int)
    requires
        units >= 0,
        shares > 0,
        assets > 0,
    ensures
        assets_for_shares(shares_for_units_ceil(units, shares, assets), shares, assets) >= units,
{
    let n = units * shares;
    let l = shares_for_units_ceil(units, shares, assets);
    assert(n >= 0) by (nonlinear_arith)
        requires
            units >= 0,
            shares > 0,
            n == units * shares,
    ;
    vstd::arithmetic::div_mod::lemma_fundamental_div_mod(n, assets);
    vstd::arithmetic::div_mod::lemma_mod_bound(n, assets);
    assert(l * assets >= n) by (nonlinear_arith)
        requires
            assets > 0,
            n >= 0,
            n == assets * (n / assets) + n % assets,
            0 <= n % assets < assets,
            l == (if n % assets == 0 { n / assets } else { n / assets + 1 }),
    ;
    vstd::arithmetic::div_mod::lemma_div_is_ordered(n, l * assets, shares);
    vstd::arithmetic::div_mod::lemma_div_by_multiple(units, shares);
}

} // verus!
