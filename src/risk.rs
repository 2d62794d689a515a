use vstd::prelude::*;

use crate::constants::{BPS_SCALE, USD_SCALE};
use crate::error::ErrorCode;

verus! {

/// `10^n`.
pub open spec fn pow10(n: nat) -> int
    decreases n,
{
    if n == 0 {
        1
    } else {
        10 * pow10((n - 1) as nat)
    }
}

/// Decimal places that separate a token amount from its USD value: the
/// token's decimals plus the price's negative exponent.
pub open spec fn scale_digits(decimals: u8, exponent: i32) -> int {
    decimals - exponent
}

/// A price that can value an asset: positive, with a non-positive exponent.
pub open spec fn usable_price(price: i64, exponent: i32) -> bool {
    price > 0 && exponent <= 0
}

/// The USD value (with `USD_DECIMALS` decimals, rounded down) of `amount`
/// base units of a token with `decimals` decimals, priced at
/// `price * 10^exponent` USD per whole token.
pub open spec fn usd_of(amount: int, decimals: u8, price: i64, exponent: i32) -> int {
    amount * price * USD_SCALE / pow10(scale_digits(decimals, exponent) as nat)
}

/// Whether `usd_of` can be computed within `u128`.
pub open spec fn usd_fits(amount: int, decimals: u8, price: i64, exponent: i32) -> bool {
    scale_digits(decimals, exponent) <= 38 && amount * price * USD_SCALE <= u128::MAX
}

/// `n / d` rounded up.
pub open spec fn ceil_div(n: int, d: int) -> int {
    if n % d == 0 {
        n / d
    } else {
        n / d + 1
    }
}

/// The collateral base units worth at least `amount` base units of the
/// borrowed asset, exactly: `amount * pb * 10^eb / 10^db` USD over
/// `pc * 10^ec / 10^dc` USD per collateral unit, rounded up in one division.
pub open spec fn lock_units(
    amount: int,
    borrow_price: i64,
    borrow_exponent: i32,
    borrow_decimals: u8,
    collateral_price: i64,
    collateral_exponent: i32,
    collateral_decimals: u8,
) -> int {
    ceil_div(
        amount * borrow_price * pow10(scale_digits(collateral_decimals, collateral_exponent) as nat),
        collateral_price * pow10(scale_digits(borrow_decimals, borrow_exponent) as nat),
    )
}

/// Whether `lock_units` can be computed within `u128`.
pub open spec fn lock_fits(
    amount: int,
    borrow_price: i64,
    borrow_exponent: i32,
    borrow_decimals: u8,
    collateral_price: i64,
    collateral_exponent: i32,
    collateral_decimals: u8,
) -> bool {
    let kb = scale_digits(borrow_decimals, borrow_exponent);
    let kc = scale_digits(collateral_decimals, collateral_exponent);
    &&& kb <= 38
    &&& kc <= 38
    &&& amount * borrow_price * pow10(kc as nat) <= u128::MAX
    &&& collateral_price * pow10(kb as nat) <= u128::MAX
}

/// The largest debt, in USD, that `collateral_usd` supports at
/// `max_ltv_bps`.
pub open spec fn max_borrowable_spec(collateral_usd: int, max_ltv_bps: int) -> int {
    collateral_usd * max_ltv_bps / BPS_SCALE as int
}

proof fn lemma_pow10_monotone(m: nat, n: nat)
    requires
        m <= n,
    ensures
        1 <= pow10(m) <= pow10(n),
    decreases n,
{
    if n > 0 && m < n {
        lemma_pow10_monotone(m, (n - 1) as nat);
    } else if n > 0 {
        lemma_pow10_monotone(0, (n - 1) as nat);
    }
}

/// `10^n` for `n <= 38`, the largest power of ten in `u128`.
pub fn pow10_u128(n: u32) -> (r: u128)
    requires
        n <= 38,
    ensures
        r == pow10(n as nat),
{
    proof {
        reveal_with_fuel(pow10, 39);
        assert(pow10(38) == 100_000_000_000_000_000_000_000_000_000_000_000_000);
    }
    let mut r: u128 = 1;
    let mut i: u32 = 0;
    while i < n
        invariant
            i <= n <= 38,
            r == pow10(i as nat),
            pow10(38) == 100_000_000_000_000_000_000_000_000_000_000_000_000,
        decreases n - i,
    {
        proof {
            lemma_pow10_monotone((i + 1) as nat, 38);
        }
        r = r * 10;
        i = i + 1;
    }
    r
}

/// The USD value of `amount` base units of a token with `decimals`
/// decimals at oracle price `price * 10^exponent`, normalised by both the
/// token's decimals and the price's exponent.
pub fn usd_value(amount: u128, decimals: u8, price: i64, exponent: i32) -> (r: Result<
    u128,
    ErrorCode,
>)
    ensures
        !usable_price(price, exponent) ==> r == Err::<u128, ErrorCode>(
            ErrorCode::InvalidPriceFeed,
        ),
        usable_price(price, exponent) ==> (r is Ok <==> usd_fits(
            amount as int,
            decimals,
            price,
            exponent,
        )),
        r matches Ok(v) ==> v == usd_of(amount as int, decimals, price, exponent),
        usable_price(price, exponent) && r is Err ==> r == Err::<u128, ErrorCode>(
            ErrorCode::ArithmeticOverflow,
        ),
{
    if price <= 0 || exponent > 0 {
        return Err(ErrorCode::InvalidPriceFeed);
    }
    let digits: i64 = decimals as i64 - exponent as i64;
    let value = match amount.checked_mul(price as u128) {
        Some(v) => v,
        None => {
            proof {
                assert(amount * price * USD_SCALE >= amount * price) by (nonlinear_arith)
                    requires
                        amount * price >= 0,
                ;
            }
            return Err(ErrorCode::ArithmeticOverflow);
        },
    };
    let scaled = match value.checked_mul(USD_SCALE) {
        Some(v) => v,
        None => return Err(ErrorCode::ArithmeticOverflow),
    };
    if digits > 38 {
        return Err(ErrorCode::ArithmeticOverflow);
    }
    let divisor = pow10_u128(digits as u32);
    proof {
        lemma_pow10_monotone(0, digits as nat);
    }
    Ok(scaled / divisor)
}

/// `collateral_usd * max_ltv_bps / 10_000`: the debt that collateral worth
/// `collateral_usd` supports.
pub fn max_borrowable(collateral_usd: u128, max_ltv_bps: u64) -> (r: Result<u128, ErrorCode>)
    ensures
        r is Ok <==> collateral_usd * max_ltv_bps <= u128::MAX,
        r matches Ok(v) ==> v == max_borrowable_spec(collateral_usd as int, max_ltv_bps as int),
        r matches Err(e) ==> e == ErrorCode::ArithmeticOverflow,
{
    match collateral_usd.checked_mul(max_ltv_bps as u128) {
        Some(p) => Ok(p / BPS_SCALE),
        None => Err(ErrorCode::ArithmeticOverflow),
    }
}

/// Admits a borrow worth `new_borrow_usd` on top of `existing_debt_usd`
/// only while the total stays within what `collateral_usd` supports.
pub fn borrow_admission(
    existing_debt_usd: u128,
    new_borrow_usd: u128,
    collateral_usd: u128,
    max_ltv_bps: u64,
) -> (r: Result<(), ErrorCode>)
    ensures
        collateral_usd * max_ltv_bps > u128::MAX ==> r == Err::<(), ErrorCode>(
            ErrorCode::ArithmeticOverflow,
        ),
        collateral_usd * max_ltv_bps <= u128::MAX ==> (r is Ok <==> existing_debt_usd
            + new_borrow_usd <= max_borrowable_spec(collateral_usd as int, max_ltv_bps as int)),
        collateral_usd * max_ltv_bps <= u128::MAX && r is Err ==> r == Err::<(), ErrorCode>(
            ErrorCode::BorrowAmountTooLarge,
        ),
{
    let limit = max_borrowable(collateral_usd, max_ltv_bps)?;
    if existing_debt_usd > limit || new_borrow_usd > limit - existing_debt_usd {
        Err(ErrorCode::BorrowAmountTooLarge)
    } else {
        Ok(())
    }
}

/// Admits a request for `requested_amount` only while the pool holds that
/// much that is not lent out.
pub fn liquidity_admission(
    requested_amount: u128,
    pool_total_assets: u128,
    pool_total_borrowed_assets: u128,
) -> (r: Result<(), ErrorCode>)
    ensures
        r is Ok <==> requested_amount <= pool_total_assets - pool_total_borrowed_assets,
        r matches Err(e) ==> e == ErrorCode::InsufficientLiquidity,
{
    if pool_total_borrowed_assets > pool_total_assets || requested_amount > pool_total_assets
        - pool_total_borrowed_assets {
        Err(ErrorCode::InsufficientLiquidity)
    } else {
        Ok(())
    }
}

/// The collateral base units to lock behind a borrow of `amount` base
/// units: the least number whose value at the collateral price covers the
/// borrow's exact value at the borrow price, in one ceiling division.
pub fn collateral_lock_amount(
    amount: u128,
    borrow_price: i64,
    borrow_exponent: i32,
    borrow_decimals: u8,
    collateral_price: i64,
    collateral_exponent: i32,
    collateral_decimals: u8,
) -> (r: Result<u128, ErrorCode>)
    ensures
        !(usable_price(borrow_price, borrow_exponent) && usable_price(collateral_price, collateral_exponent))
            ==> r == Err::<u128, ErrorCode>(ErrorCode::InvalidPriceFeed),
        usable_price(borrow_price, borrow_exponent) && usable_price(collateral_price, collateral_exponent)
            ==> (r is Ok <==> lock_fits(amount as int, borrow_price, borrow_exponent, borrow_decimals, collateral_price, collateral_exponent, collateral_decimals)),
        r matches Ok(v) ==> v == lock_units(amount as int, borrow_price, borrow_exponent, borrow_decimals, collateral_price, collateral_exponent, collateral_decimals),
        usable_price(borrow_price, borrow_exponent) && usable_price(collateral_price, collateral_exponent) && r is Err
            ==> r == Err::<u128, ErrorCode>(ErrorCode::ArithmeticOverflow),
{
    if borrow_price <= 0 || borrow_exponent > 0 || collateral_price <= 0 || collateral_exponent > 0 {
        return Err(ErrorCode::InvalidPriceFeed);
    }
    let kb: i64 = borrow_decimals as i64 - borrow_exponent as i64;
    let kc: i64 = collateral_decimals as i64 - collateral_exponent as i64;
    if kb > 38 || kc > 38 {
        return Err(ErrorCode::ArithmeticOverflow);
    }
    let scale_c = pow10_u128(kc as u32);
    let scale_b = pow10_u128(kb as u32);
    proof {
        lemma_pow10_monotone(0, kc as nat);
        lemma_pow10_monotone(0, kb as nat);
    }
    let value = match amount.checked_mul(borrow_price as u128) {
        Some(v) => v,
        None => {
            proof {
                assert(amount * borrow_price * scale_c >= amount * borrow_price) by (nonlinear_arith)
                    requires
                        amount * borrow_price >= 0,
                        scale_c >= 1,
                ;
            }
            return Err(ErrorCode::ArithmeticOverflow);
        },
    };
    let numerator = match value.checked_mul(scale_c) {
        Some(v) => v,
        None => return Err(ErrorCode::ArithmeticOverflow),
    };
    let denominator = match (collateral_price as u128).checked_mul(scale_b) {
        Some(v) => v,
        None => return Err(ErrorCode::ArithmeticOverflow),
    };
    proof {
        assert(denominator >= 1) by (nonlinear_arith)
            requires
                denominator == collateral_price * scale_b,
                collateral_price >= 1,
                scale_b >= 1,
        ;
    }
    let quotient = numerator / denominator;
    if numerator % denominator == 0 {
        Ok(quotient)
    } else {
        proof {
            assert(numerator % 1 == 0);
            vstd::arithmetic::div_mod::lemma_div_is_ordered_by_denominator(
                numerator as int,
                2,
                denominator as int,
            );
        }
        Ok(quotient + 1)
    }
}

/// Admits a withdrawal only while the collateral left afterwards still
/// supports the existing debt at `max_ltv_bps`.
pub fn withdraw_admission(
    post_withdraw_collateral_usd: u128,
    existing_debt_usd: u128,
    max_ltv_bps: u64,
) -> (r: Result<(), ErrorCode>)
    ensures
        post_withdraw_collateral_usd * max_ltv_bps > u128::MAX ==> r == Err::<(), ErrorCode>(
            ErrorCode::ArithmeticOverflow,
        ),
        post_withdraw_collateral_usd * max_ltv_bps <= u128::MAX ==> (r is Ok <==> existing_debt_usd
            <= max_borrowable_spec(post_withdraw_collateral_usd as int, max_ltv_bps as int)),
        post_withdraw_collateral_usd * max_ltv_bps <= u128::MAX && r is Err ==> r == Err::<
            (),
            ErrorCode,
        >(ErrorCode::WithdrawAmountExceedsCollateralValue),
{
    let limit = max_borrowable(post_withdraw_collateral_usd, max_ltv_bps)?;
    if existing_debt_usd > limit {
        Err(ErrorCode::WithdrawAmountExceedsCollateralValue)
    } else {
        Ok(())
    }
}

} // verus!
