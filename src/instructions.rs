use vstd::prelude::*;

use crate::constants::{MAX_BORROW_POSITIONS, MAX_MINTS};
use crate::error::ErrorCode;
use crate::ledger::{
    accrual_ok, accrued, apply_accrual, assets_for_shares, calculate_user_debt, compute_accrual,
    convert_to_assets, convert_to_shares, grown, accrual_periods, lemma_accrued_wf, shares_for_amount,
    shares_for_units_ceil, shares_for_units_within,
};
use crate::oracle::OraclePrice;
use crate::risk::{
    borrow_admission, collateral_lock_amount, liquidity_admission, lock_fits, lock_units,
    max_borrowable_spec, usable_price, usd_fits, usd_of, usd_value,
};
use crate::state::{contains_key, Bank, BorrowPosition, Key, UserGlobalState, UserTokenState};

verus! {

/// Whether a user's index can take `key`: it is there already, or there is
/// room for it below `bound`.
pub open spec fn index_accepts(keys: Seq<Key>, key: Key, bound: int) -> bool {
    keys.contains(key) || keys.len() < bound
}

/// `keys` with `key` added unless it is there.
pub open spec fn index_with(keys: Seq<Key>, key: Key) -> Seq<Key> {
    if keys.contains(key) {
        keys
    } else {
        keys.push(key)
    }
}

/// Two indexes hold the same entries.
pub open spec fn same_index(a: UserGlobalState, b: UserGlobalState) -> bool {
    &&& a.user == b.user
    &&& a.bump == b.bump
    &&& a.deposited_mints@ == b.deposited_mints@
    &&& a.active_positions@ == b.active_positions@
}

// ---------------------------------------------------------------- deposit

/// What a deposit of `amount` into `b0` at `now` mints, or the first check
/// that fails.
pub open spec fn deposit_plan(b0: Bank, user: UserTokenState, index: UserGlobalState, amount: u64, now: i64) -> Result<int, ErrorCode> {
    if amount < b0.min_deposit {
        Err(ErrorCode::InvalidDepositAmount)
    } else if !accrual_ok(b0, now as int) {
        Err(ErrorCode::ArithmeticOverflow)
    } else {
        let b = accrued(b0, now as int);
        let s = shares_for_amount(amount as int, b.share_supply(), b.total_deposited_assets as int);
        if s > u64::MAX || b.share_supply() + s > u64::MAX || b.total_deposited_assets
            + amount > u64::MAX || user.deposited_shares + s > u64::MAX {
            Err(ErrorCode::ArithmeticOverflow)
        } else if !index_accepts(index.deposited_mints@, b0.mint_address, MAX_MINTS as int) {
            Err(ErrorCode::PositionIndexFull)
        } else {
            Ok(s)
        }
    }
}

/// Deposits `amount` into `bank` for `user` at `now`: accrues the pool,
/// mints `amount * shares / assets` shares (one for one into an empty pool,
/// all deposit shares counted, free and locked) to the pool's and the
/// user's free balances, and records the mint in the user's index. Returns
/// the shares minted; on failure nothing changes.
pub fn process_deposit(
    bank: &mut Bank,
    user: &mut UserTokenState,
    index: &mut UserGlobalState,
    amount: u64,
    now: i64,
) -> (r: Result<u64, ErrorCode>)
    requires
        old(bank).wf(),
    ensures
        final(bank).wf(),
        r is Err <==> deposit_plan(*old(bank), *old(user), *old(index), amount, now) is Err,
        r matches Err(e) ==> deposit_plan(*old(bank), *old(user), *old(index), amount, now) == Err::<int, ErrorCode>(e),
        r is Err ==> *final(bank) == *old(bank) && *final(user) == *old(user) && same_index(*final(index), *old(index)),
        r matches Ok(s) ==> {
            let b = accrued(*old(bank), now as int);
            &&& deposit_plan(*old(bank), *old(user), *old(index), amount, now) == Ok::<int, ErrorCode>(s as int)
            &&& final(user).deposited_shares + final(user).collateral_shares
                == old(user).deposited_shares + old(user).collateral_shares + s
            &&& final(bank).total_collateral_shares == b.total_collateral_shares
            &&& final(bank).total_borrowed_shares == b.total_borrowed_shares
            &&& *final(bank) == (Bank {
                total_deposited_shares: (b.total_deposited_shares + s) as u64,
                total_deposited_assets: (b.total_deposited_assets + amount) as u64,
                ..b
            })
            &&& *final(user) == (UserTokenState {
                deposited_shares: (old(user).deposited_shares + s) as u64,
                last_updated_deposited: now,
                ..*old(user)
            })
            &&& final(index).user == old(index).user && final(index).bump == old(index).bump
            &&& final(index).active_positions@ == old(index).active_positions@
            &&& final(index).deposited_mints@ == index_with(old(index).deposited_mints@, old(bank).mint_address)
        },
{
    if amount < bank.min_deposit {
        return Err(ErrorCode::InvalidDepositAmount);
    }
    let accrual = compute_accrual(bank, now)?;
    proof {
        lemma_accrued_wf(*bank, now as int);
    }
    let supply = bank.deposit_share_supply();
    let shares = convert_to_shares(amount, supply, accrual.deposited_assets)?;
    let new_supply = match supply.checked_add(shares) {
        Some(v) => v,
        None => return Err(ErrorCode::ArithmeticOverflow),
    };
    let total_assets = match accrual.deposited_assets.checked_add(amount) {
        Some(v) => v,
        None => return Err(ErrorCode::ArithmeticOverflow),
    };
    let user_shares = match user.deposited_shares.checked_add(shares) {
        Some(v) => v,
        None => return Err(ErrorCode::ArithmeticOverflow),
    };
    let mint = bank.mint_address;
    if !contains_key(&index.deposited_mints, &mint) && index.deposited_mints.len() >= MAX_MINTS {
        return Err(ErrorCode::PositionIndexFull);
    }
    apply_accrual(bank, &accrual, Ghost(now as int));
    bank.total_deposited_shares = bank.total_deposited_shares + shares;
    bank.total_deposited_assets = total_assets;
    user.deposited_shares = user_shares;
    user.last_updated_deposited = now;
    let _registered = index.register_mint(mint);
    Ok(shares)
}

// --------------------------------------------------------------- withdraw

/// What backs a user's debt when the asset withdrawn is also their
/// collateral: the debt's USD value and how to value the collateral.
#[derive(Debug, Clone, Copy)]
pub struct WithdrawBacking {
    pub existing_debt_usd: u128,
    pub collateral_price: OraclePrice,
    pub collateral_decimals: u8,
}

/// What a withdrawal of `amount` from `b0` at `now` burns, or the first
/// check that fails. A user with collateral locked in this asset withdraws
/// only against a `backing`, and only while what they keep (free and
/// locked) still supports their debt.
pub open spec fn withdraw_plan(b0: Bank, user: UserTokenState, amount: u64, now: i64, backing: Option<WithdrawBacking>) -> Result<int, ErrorCode> {
    if !accrual_ok(b0, now as int) {
        Err(ErrorCode::ArithmeticOverflow)
    } else {
        let b = accrued(b0, now as int);
        let supply = b.share_supply();
        let s = shares_for_amount(amount as int, supply, b.total_deposited_assets as int);
        if s > u64::MAX {
            Err(ErrorCode::ArithmeticOverflow)
        } else if s > user.deposited_shares || s > b.total_deposited_shares {
            Err(ErrorCode::InsufficientFunds)
        } else if amount > b.total_deposited_assets {
            Err(ErrorCode::ArithmeticOverflow)
        } else if user.collateral_shares == 0 {
            Ok(s)
        } else {
            match backing {
                None => Err(ErrorCode::WithdrawAmountExceedsCollateralValue),
                Some(k) => {
                    let left = user.deposited_shares - s + user.collateral_shares;
                    let value = assets_for_shares(left, supply - s, b.total_deposited_assets - amount);
                    let p = k.collateral_price;
                    if supply - s != 0 && left * (b.total_deposited_assets - amount) > u128::MAX {
                        Err(ErrorCode::ArithmeticOverflow)
                    } else if !usable_price(p.price, p.exponent) {
                        Err(ErrorCode::InvalidPriceFeed)
                    } else if !usd_fits(value, k.collateral_decimals, p.price, p.exponent) {
                        Err(ErrorCode::ArithmeticOverflow)
                    } else {
                        let usd = usd_of(value, k.collateral_decimals, p.price, p.exponent);
                        if usd * b.max_ltv > u128::MAX {
                            Err(ErrorCode::ArithmeticOverflow)
                        } else if k.existing_debt_usd > max_borrowable_spec(usd, b.max_ltv as int) {
                            Err(ErrorCode::WithdrawAmountExceedsCollateralValue)
                        } else {
                            Ok(s)
                        }
                    }
                },
            }
        }
    }
}

/// Withdrawing keeps a pool's shares and assets zero together.
proof fn lemma_burn_keeps_balance(amount: int, shares: int, assets: int)
    requires
        0 <= amount <= assets,
        shares > 0,
        assets > 0,
    ensures
        (shares - amount * shares / assets == 0) <==> (assets - amount == 0),
        amount * shares / assets <= shares,
{
    if amount == assets {
        vstd::arithmetic::div_mod::lemma_div_by_multiple(shares, assets);
        assert(amount * shares == shares * assets) by (nonlinear_arith)
            requires
                amount == assets,
        ;
    } else {
        let q = amount * shares / assets;
        vstd::arithmetic::div_mod::lemma_fundamental_div_mod(amount * shares, assets);
        vstd::arithmetic::div_mod::lemma_mod_bound(amount * shares, assets);
        assert(q < shares) by (nonlinear_arith)
            requires
                amount < assets,
                shares > 0,
                assets > 0,
                amount >= 0,
                amount * shares == assets * q + (amount * shares) % assets,
                0 <= (amount * shares) % assets,
        ;
    }
}

/// Withdraws `amount` of `bank`'s asset for `user` at `now`: accrues the
/// pool, burns `amount * shares / assets` of the user's free shares (never
/// more than they or the pool hold free), and, when the user has collateral
/// locked in this asset, admits the withdrawal only against a `backing`
/// under which what they keep still supports their debt. Returns the shares
/// burnt; on failure nothing changes.
pub fn process_withdraw(
    bank: &mut Bank,
    user: &mut UserTokenState,
    amount: u64,
    now: i64,
    backing: Option<WithdrawBacking>,
) -> (r: Result<u64, ErrorCode>)
    requires
        old(bank).wf(),
    ensures
        final(bank).wf(),
        r is Err <==> withdraw_plan(*old(bank), *old(user), amount, now, backing) is Err,
        r matches Err(e) ==> withdraw_plan(*old(bank), *old(user), amount, now, backing) == Err::<int, ErrorCode>(e),
        r is Err ==> *final(bank) == *old(bank) && *final(user) == *old(user),
        r matches Ok(s) ==> {
            let b = accrued(*old(bank), now as int);
            &&& withdraw_plan(*old(bank), *old(user), amount, now, backing) == Ok::<int, ErrorCode>(s as int)
            &&& s <= old(user).deposited_shares
            &&& *final(bank) == (Bank {
                total_deposited_shares: (b.total_deposited_shares - s) as u64,
                total_deposited_assets: (b.total_deposited_assets - amount) as u64,
                ..b
            })
            &&& *final(user) == (UserTokenState {
                deposited_shares: (old(user).deposited_shares - s) as u64,
                last_updated_deposited: now,
                ..*old(user)
            })
        },
{
    let accrual = compute_accrual(bank, now)?;
    proof {
        lemma_accrued_wf(*bank, now as int);
    }
    let supply = bank.deposit_share_supply();
    let shares = convert_to_shares(amount, supply, accrual.deposited_assets)?;
    if shares > user.deposited_shares || shares > bank.total_deposited_shares {
        return Err(ErrorCode::InsufficientFunds);
    }
    if amount > accrual.deposited_assets {
        return Err(ErrorCode::ArithmeticOverflow);
    }
    let supply_left = supply - shares;
    let total_assets = accrual.deposited_assets - amount;
    if user.collateral_shares > 0 {
        let k = match backing {
            Some(k) => k,
            None => return Err(ErrorCode::WithdrawAmountExceedsCollateralValue),
        };
        let left: u128 = (user.deposited_shares - shares) as u128 + user.collateral_shares as u128;
        let value = convert_to_assets(left, supply_left, total_assets as u128)?;
        let usd = usd_value(value, k.collateral_decimals, k.collateral_price.price, k.collateral_price.exponent)?;
        crate::risk::withdraw_admission(usd, k.existing_debt_usd, bank.max_ltv)?;
    }
    proof {
        let b = accrued(*old(bank), now as int);
        if b.share_supply() > 0 {
            lemma_burn_keeps_balance(amount as int, b.share_supply(), b.total_deposited_assets as int);
        }
    }
    apply_accrual(bank, &accrual, Ghost(now as int));
    bank.total_deposited_shares = bank.total_deposited_shares - shares;
    bank.total_deposited_assets = total_assets;
    user.deposited_shares = user.deposited_shares - shares;
    user.last_updated_deposited = now;
    Ok(shares)
}

/// What `borrowed_shares` borrow shares of `bank` owe at `now`, in base
/// units, interest since the last accrual included.
pub open spec fn owed(bank: Bank, borrowed_shares: int, now: int) -> int {
    assets_for_shares(
        borrowed_shares,
        bank.total_borrowed_shares as int,
        grown(bank.total_borrowed_assets, bank.borrow_interest_rate, accrual_periods(bank, now)),
    )
}

/// Whether `owed` can be computed within `u128`.
pub open spec fn owed_fits(bank: Bank, borrowed_shares: int, now: int) -> bool {
    let p = accrual_periods(bank, now);
    &&& p <= u32::MAX
    &&& crate::interest::compound_fits(bank.total_borrowed_assets as int, bank.borrow_interest_rate as int, p as nat)
    &&& (bank.total_borrowed_shares == 0 || borrowed_shares * grown(bank.total_borrowed_assets, bank.borrow_interest_rate, p) <= u128::MAX)
}

/// What the owner of `borrowed_shares` borrow shares of `bank` owes at `now`
/// in USD, at `price` for a token of `decimals` decimals: the debt that a
/// withdrawal of their collateral must leave supported.
pub fn debt_value_usd(bank: &Bank, borrowed_shares: u64, now: i64, price: OraclePrice, decimals: u8) -> (r: Result<u128, ErrorCode>)
    requires
        bank.wf(),
    ensures
        r is Ok <==> owed_fits(*bank, borrowed_shares as int, now as int) && usable_price(price.price, price.exponent)
            && usd_fits(owed(*bank, borrowed_shares as int, now as int), decimals, price.price, price.exponent),
        r matches Ok(v) ==> v == usd_of(owed(*bank, borrowed_shares as int, now as int), decimals, price.price, price.exponent),
{
    let debt = calculate_user_debt(bank, borrowed_shares, now)?;
    usd_value(debt, decimals, price.price, price.exponent)
}

// ----------------------------------------------------------------- borrow

/// The arguments of a borrow, prices as `get_validated_price` gives them.
#[derive(Debug, Clone, Copy)]
pub struct BorrowRequest {
    pub position_id: u64,
    /// The address of the borrow position.
    pub position_key: Key,
    pub owner: Key,
    /// Base units of the borrowed asset.
    pub amount: u64,
    pub now: i64,
    pub borrow_price: OraclePrice,
    pub borrow_decimals: u8,
    pub collateral_price: OraclePrice,
    pub collateral_decimals: u8,
}

/// The quantities a borrow is decided on.
pub struct BorrowPlan {
    /// USD value of the user's free collateral deposit.
    pub collateral_usd: int,
    /// USD value of what the user already owes in the borrowed asset.
    pub debt_usd: int,
    /// USD value of the amount borrowed.
    pub borrow_usd: int,
    /// Collateral base units worth at least the amount borrowed.
    pub lock_units: int,
    /// Collateral shares to lock: the fewest worth `lock_units`.
    pub lock: int,
    /// Borrow shares to mint.
    pub new_shares: int,
}

/// What a borrow decides, or the first check that fails.
pub open spec fn borrow_plan(
    bb0: Bank,
    bc0: Bank,
    ub: UserTokenState,
    uc: UserTokenState,
    pos: BorrowPosition,
    index: UserGlobalState,
    req: BorrowRequest,
) -> Result<BorrowPlan, ErrorCode> {
    let now = req.now as int;
    let cp = req.collateral_price;
    let bp = req.borrow_price;
    if !accrual_ok(bc0, now) || !accrual_ok(bb0, now) {
        Err(ErrorCode::ArithmeticOverflow)
    } else {
        let bc = accrued(bc0, now);
        let bb = accrued(bb0, now);
        let coll = assets_for_shares(uc.deposited_shares as int, bc.share_supply(), bc.total_deposited_assets as int);
        let debt = assets_for_shares(ub.borrowed_shares as int, bb.total_borrowed_shares as int, bb.total_borrowed_assets as int);
        if !usable_price(cp.price, cp.exponent) {
            Err(ErrorCode::InvalidPriceFeed)
        } else if !usd_fits(coll, req.collateral_decimals, cp.price, cp.exponent) {
            Err(ErrorCode::ArithmeticOverflow)
        } else if !usable_price(bp.price, bp.exponent) {
            Err(ErrorCode::InvalidPriceFeed)
        } else if !usd_fits(debt, req.borrow_decimals, bp.price, bp.exponent) || !usd_fits(req.amount as int, req.borrow_decimals, bp.price, bp.exponent) {
            Err(ErrorCode::ArithmeticOverflow)
        } else {
            let cu = usd_of(coll, req.collateral_decimals, cp.price, cp.exponent);
            let du = usd_of(debt, req.borrow_decimals, bp.price, bp.exponent);
            let bu = usd_of(req.amount as int, req.borrow_decimals, bp.price, bp.exponent);
            if cu * bc.max_ltv > u128::MAX {
                Err(ErrorCode::ArithmeticOverflow)
            } else if du + bu > max_borrowable_spec(cu, bc.max_ltv as int) {
                Err(ErrorCode::BorrowAmountTooLarge)
            } else if req.amount > bb.total_deposited_assets - bb.total_borrowed_assets {
                Err(ErrorCode::InsufficientLiquidity)
            } else if !lock_fits(req.amount as int, bp.price, bp.exponent, req.borrow_decimals, cp.price, cp.exponent, req.collateral_decimals) {
                Err(ErrorCode::ArithmeticOverflow)
            } else {
                let units = lock_units(req.amount as int, bp.price, bp.exponent, req.borrow_decimals, cp.price, cp.exponent, req.collateral_decimals);
                let lock = shares_for_units_ceil(units, bc.share_supply(), bc.total_deposited_assets as int);
                let ns = shares_for_amount(req.amount as int, bb.total_borrowed_shares as int, bb.total_borrowed_assets as int);
                if lock > uc.deposited_shares {
                    Err(ErrorCode::InsufficientCollateral)
                } else if lock > bc.total_deposited_shares || ns > u64::MAX || bb.total_borrowed_shares + ns > u64::MAX
                    || bb.total_borrowed_assets + req.amount > u64::MAX || ub.borrowed_shares + ns > u64::MAX
                    || uc.collateral_shares + lock > u64::MAX || pos.collateral_shares + lock > u64::MAX
                    || pos.borrowed_shares + ns > u64::MAX {
                    Err(ErrorCode::ArithmeticOverflow)
                } else if !index_accepts(index.active_positions@, req.position_key, MAX_BORROW_POSITIONS as int) {
                    Err(ErrorCode::PositionIndexFull)
                } else {
                    Ok(BorrowPlan { collateral_usd: cu, debt_usd: du, borrow_usd: bu, lock_units: units, lock, new_shares: ns })
                }
            }
        }
    }
}

proof fn lemma_u64_product(a: int, b: int)
    requires
        0 <= a <= u64::MAX,
        0 <= b <= u64::MAX,
    ensures
        a * b <= u128::MAX,
{
    assert(a * b <= u64::MAX * u64::MAX) by (nonlinear_arith)
        requires
            0 <= a <= u64::MAX,
            0 <= b <= u64::MAX,
    ;
}

/// Borrows `req.amount` of `bank_borrow`'s asset against the user's free
/// deposit in `bank_collateral`: accrues both pools, values the collateral,
/// the existing debt and the new borrow in USD, admits the borrow only while
/// total debt stays within `max_ltv` of the collateral and the pool has the
/// liquidity, then mints borrow shares (one for one into an empty pool) and
/// moves the collateral shares worth at least the borrow (rounded up) from
/// free to locked, in the pool's totals, the user's record and the
/// position. Returns the borrow shares minted; on failure nothing changes.
#[verifier::rlimit(80)]
pub fn process_borrow(
    bank_borrow: &mut Bank,
    bank_collateral: &mut Bank,
    user_borrow: &mut UserTokenState,
    user_collateral: &mut UserTokenState,
    position: &mut BorrowPosition,
    index: &mut UserGlobalState,
    req: BorrowRequest,
) -> (r: Result<u64, ErrorCode>)
    requires
        old(bank_borrow).wf(),
        old(bank_collateral).wf(),
    ensures
        final(bank_borrow).wf(),
        final(bank_collateral).wf(),
        r is Err <==> borrow_plan(*old(bank_borrow), *old(bank_collateral), *old(user_borrow), *old(user_collateral), *old(position), *old(index), req) is Err,
        r matches Err(e) ==> borrow_plan(*old(bank_borrow), *old(bank_collateral), *old(user_borrow), *old(user_collateral), *old(position), *old(index), req) == Err::<BorrowPlan, ErrorCode>(e),
        r is Err ==> {
            &&& *final(bank_borrow) == *old(bank_borrow)
            &&& *final(bank_collateral) == *old(bank_collateral)
            &&& *final(user_borrow) == *old(user_borrow)
            &&& *final(user_collateral) == *old(user_collateral)
            &&& *final(position) == *old(position)
            &&& same_index(*final(index), *old(index))
        },
        r matches Ok(s) ==> {
            let plan = borrow_plan(*old(bank_borrow), *old(bank_collateral), *old(user_borrow), *old(user_collateral), *old(position), *old(index), req);
            let bb = accrued(*old(bank_borrow), req.now as int);
            let bc = accrued(*old(bank_collateral), req.now as int);
            let lock = plan->Ok_0.lock;
            &&& plan is Ok
            &&& s == plan->Ok_0.new_shares
            &&& plan->Ok_0.debt_usd + plan->Ok_0.borrow_usd <= max_borrowable_spec(plan->Ok_0.collateral_usd, old(bank_collateral).max_ltv as int)
            &&& lock <= old(user_collateral).deposited_shares
            &&& final(user_collateral).deposited_shares + final(user_collateral).collateral_shares == old(user_collateral).deposited_shares + old(user_collateral).collateral_shares
            &&& final(bank_collateral).share_supply() == bc.share_supply()
            &&& *final(bank_borrow) == (Bank {
                total_borrowed_shares: (bb.total_borrowed_shares + s) as u64,
                total_borrowed_assets: (bb.total_borrowed_assets + req.amount) as u64,
                ..bb
            })
            &&& *final(bank_collateral) == (Bank {
                total_deposited_shares: (bc.total_deposited_shares - lock) as u64,
                total_collateral_shares: (bc.total_collateral_shares + lock) as u64,
                ..bc
            })
            &&& *final(user_borrow) == (UserTokenState {
                borrowed_shares: (old(user_borrow).borrowed_shares + s) as u64,
                last_updated_borrowed: req.now,
                ..*old(user_borrow)
            })
            &&& *final(user_collateral) == (UserTokenState {
                deposited_shares: (old(user_collateral).deposited_shares - lock) as u64,
                collateral_shares: (old(user_collateral).collateral_shares + lock) as u64,
                last_updated_deposited: req.now,
                last_updated_collateral: req.now,
                ..*old(user_collateral)
            })
            &&& *final(position) == (BorrowPosition {
                position_id: req.position_id,
                owner: req.owner,
                collateral_mint: old(bank_collateral).mint_address,
                borrow_mint: old(bank_borrow).mint_address,
                collateral_shares: (old(position).collateral_shares + lock) as u64,
                borrowed_shares: (old(position).borrowed_shares + s) as u64,
                last_updated: req.now,
                active: true,
            })
            &&& same_index(*final(index), UserGlobalState {
                active_positions: final(index).active_positions,
                ..*old(index)
            })
            &&& final(index).active_positions@ == index_with(old(index).active_positions@, req.position_key)
        },
{
    let now = req.now;
    let cp = req.collateral_price;
    let bp = req.borrow_price;
    let acc_c = compute_accrual(bank_collateral, now)?;
    let acc_b = compute_accrual(bank_borrow, now)?;
    proof {
        lemma_accrued_wf(*bank_collateral, now as int);
        lemma_accrued_wf(*bank_borrow, now as int);
        lemma_u64_product(user_collateral.deposited_shares as int, acc_c.deposited_assets as int);
        lemma_u64_product(user_borrow.borrowed_shares as int, acc_b.borrowed_assets as int);
    }
    let supply = bank_collateral.deposit_share_supply();
    let coll = convert_to_assets(user_collateral.deposited_shares as u128, supply, acc_c.deposited_assets as u128)?;
    let collateral_usd = usd_value(coll, req.collateral_decimals, cp.price, cp.exponent)?;
    let debt = convert_to_assets(user_borrow.borrowed_shares as u128, bank_borrow.total_borrowed_shares, acc_b.borrowed_assets as u128)?;
    let debt_usd = usd_value(debt, req.borrow_decimals, bp.price, bp.exponent)?;
    let borrow_usd = usd_value(req.amount as u128, req.borrow_decimals, bp.price, bp.exponent)?;
    borrow_admission(debt_usd, borrow_usd, collateral_usd, bank_collateral.max_ltv)?;
    liquidity_admission(req.amount as u128, acc_b.deposited_assets as u128, acc_b.borrowed_assets as u128)?;
    let units = collateral_lock_amount(req.amount as u128, bp.price, bp.exponent, req.borrow_decimals, cp.price, cp.exponent, req.collateral_decimals)?;
    let new_shares = convert_to_shares(req.amount, bank_borrow.total_borrowed_shares, acc_b.borrowed_assets);
    let lock = match shares_for_units_within(units, supply, acc_c.deposited_assets, user_collateral.deposited_shares) {
        Some(l) => l,
        None => return Err(ErrorCode::InsufficientCollateral),
    };
    if lock > bank_collateral.total_deposited_shares {
        return Err(ErrorCode::ArithmeticOverflow);
    }
    let new_shares = new_shares?;
    let total_shares = match bank_borrow.total_borrowed_shares.checked_add(new_shares) {
        Some(v) => v,
        None => return Err(ErrorCode::ArithmeticOverflow),
    };
    let total_debt = match acc_b.borrowed_assets.checked_add(req.amount) {
        Some(v) => v,
        None => return Err(ErrorCode::ArithmeticOverflow),
    };
    let user_debt_shares = match user_borrow.borrowed_shares.checked_add(new_shares) {
        Some(v) => v,
        None => return Err(ErrorCode::ArithmeticOverflow),
    };
    let user_locked = match user_collateral.collateral_shares.checked_add(lock) {
        Some(v) => v,
        None => return Err(ErrorCode::ArithmeticOverflow),
    };
    let position_locked = match position.collateral_shares.checked_add(lock) {
        Some(v) => v,
        None => return Err(ErrorCode::ArithmeticOverflow),
    };
    let position_debt = match position.borrowed_shares.checked_add(new_shares) {
        Some(v) => v,
        None => return Err(ErrorCode::ArithmeticOverflow),
    };
    if !contains_key(&index.active_positions, &req.position_key) && index.active_positions.len() >= MAX_BORROW_POSITIONS {
        return Err(ErrorCode::PositionIndexFull);
    }
    apply_accrual(bank_collateral, &acc_c, Ghost(now as int));
    apply_accrual(bank_borrow, &acc_b, Ghost(now as int));
    bank_borrow.total_borrowed_shares = total_shares;
    bank_borrow.total_borrowed_assets = total_debt;
    bank_collateral.total_deposited_shares = bank_collateral.total_deposited_shares - lock;
    bank_collateral.total_collateral_shares = bank_collateral.total_collateral_shares + lock;
    user_borrow.borrowed_shares = user_debt_shares;
    user_borrow.last_updated_borrowed = now;
    user_collateral.deposited_shares = user_collateral.deposited_shares - lock;
    user_collateral.collateral_shares = user_locked;
    user_collateral.last_updated_deposited = now;
    user_collateral.last_updated_collateral = now;
    position.position_id = req.position_id;
    position.owner = req.owner;
    position.collateral_mint = bank_collateral.mint_address;
    position.borrow_mint = bank_borrow.mint_address;
    position.collateral_shares = position_locked;
    position.borrowed_shares = position_debt;
    position.last_updated = now;
    position.active = true;
    let _registered = index.register_position(req.position_key);
    Ok(new_shares)
}

// ------------------------------------------------------------------ repay

/// The arguments of a repayment, prices as `get_validated_price` gives them.
#[derive(Debug, Clone, Copy)]
pub struct RepayRequest {
    /// The address of the borrow position.
    pub position_key: Key,
    /// Base units of the borrowed asset repaid.
    pub amount: u64,
    pub now: i64,
    pub borrow_price: OraclePrice,
    pub borrow_decimals: u8,
    pub collateral_price: OraclePrice,
    pub collateral_decimals: u8,
}

/// The quantities a repayment is decided on.
pub struct RepayPlan {
    /// What the position owes, in base units, before the repayment.
    pub debt: int,
    /// Borrow shares to burn.
    pub burn: int,
    /// Collateral shares to unlock.
    pub unlock: int,
}

/// The smaller of two integers.
pub open spec fn min_int(a: int, b: int) -> int {
    if a <= b {
        a
    } else {
        b
    }
}

/// What a repayment decides, or the first check that fails. Repaying the
/// position's whole debt burns all its shares and unlocks all its
/// collateral; a partial repayment burns `amount * shares / assets` and
/// unlocks the collateral shares worth the repaid amount, rounded up. No
/// repayment unlocks more than the position or the user has locked.
pub open spec fn repay_plan(
    bb0: Bank,
    bc0: Bank,
    ub: UserTokenState,
    uc: UserTokenState,
    pos: BorrowPosition,
    req: RepayRequest,
) -> Result<RepayPlan, ErrorCode> {
    let now = req.now as int;
    let cp = req.collateral_price;
    let bp = req.borrow_price;
    if !accrual_ok(bb0, now) || !accrual_ok(bc0, now) {
        Err(ErrorCode::ArithmeticOverflow)
    } else {
        let bb = accrued(bb0, now);
        let bc = accrued(bc0, now);
        let debt = assets_for_shares(pos.borrowed_shares as int, bb.total_borrowed_shares as int, bb.total_borrowed_assets as int);
        let burn = if req.amount == debt {
            pos.borrowed_shares as int
        } else {
            shares_for_amount(req.amount as int, bb.total_borrowed_shares as int, bb.total_borrowed_assets as int)
        };
        if req.amount > debt {
            Err(ErrorCode::OverRepayRequest)
        } else if burn > pos.borrowed_shares || burn > ub.borrowed_shares || burn > bb.total_borrowed_shares || req.amount > bb.total_borrowed_assets {
            Err(ErrorCode::ArithmeticOverflow)
        } else if !(usable_price(bp.price, bp.exponent) && usable_price(cp.price, cp.exponent)) {
            Err(ErrorCode::InvalidPriceFeed)
        } else if !lock_fits(req.amount as int, bp.price, bp.exponent, req.borrow_decimals, cp.price, cp.exponent, req.collateral_decimals) {
            Err(ErrorCode::ArithmeticOverflow)
        } else {
            let units = lock_units(req.amount as int, bp.price, bp.exponent, req.borrow_decimals, cp.price, cp.exponent, req.collateral_decimals);
            let cap = min_int(pos.collateral_shares as int, uc.collateral_shares as int);
            let unlock = if pos.borrowed_shares - burn == 0 {
                cap
            } else {
                min_int(shares_for_units_ceil(units, bc.share_supply(), bc.total_deposited_assets as int), cap)
            };
            if unlock > bc.total_collateral_shares || uc.deposited_shares + unlock > u64::MAX {
                Err(ErrorCode::ArithmeticOverflow)
            } else {
                Ok(RepayPlan { debt, burn, unlock })
            }
        }
    }
}

/// Burning a smaller part of a pool's debt shares repays a smaller part of
/// its debt.
proof fn lemma_part_of_debt(p: int, shares: int, assets: int)
    requires
        0 <= p,
        shares > 0,
        assets > 0,
    ensures
        p == shares ==> p * assets / shares == assets,
        p < shares ==> p * assets / shares < assets,
{
    if p == shares {
        vstd::arithmetic::div_mod::lemma_div_by_multiple(assets, shares);
        assert(p * assets == assets * shares) by (nonlinear_arith)
            requires
                p == shares,
        ;
    } else if p < shares {
        let q = p * assets / shares;
        vstd::arithmetic::div_mod::lemma_fundamental_div_mod(p * assets, shares);
        vstd::arithmetic::div_mod::lemma_mod_bound(p * assets, shares);
        assert(q < assets) by (nonlinear_arith)
            requires
                p < shares,
                shares > 0,
                assets > 0,
                p >= 0,
                p * assets == shares * q + (p * assets) % shares,
                0 <= (p * assets) % shares,
        ;
    }
}

/// Repays `req.amount` of a position's debt: accrues both pools, refuses
/// more than the position owes (`OverRepayRequest`), burns the repaid
/// share of debt from the pool, the user and the position (all of the
/// position's shares when its whole debt is repaid), and moves the unlocked
/// collateral shares from locked back to free, in the pool's totals and the
/// user's record. A position whose debt reaches zero becomes inactive and
/// leaves the user's index. Returns the borrow shares burnt; on failure
/// nothing changes.
#[verifier::rlimit(80)]
pub fn process_repay(
    bank_borrow: &mut Bank,
    bank_collateral: &mut Bank,
    user_borrow: &mut UserTokenState,
    user_collateral: &mut UserTokenState,
    position: &mut BorrowPosition,
    index: &mut UserGlobalState,
    req: RepayRequest,
) -> (r: Result<u64, ErrorCode>)
    requires
        old(bank_borrow).wf(),
        old(bank_collateral).wf(),
    ensures
        final(bank_borrow).wf(),
        final(bank_collateral).wf(),
        r is Err <==> repay_plan(*old(bank_borrow), *old(bank_collateral), *old(user_borrow), *old(user_collateral), *old(position), req) is Err,
        r matches Err(e) ==> repay_plan(*old(bank_borrow), *old(bank_collateral), *old(user_borrow), *old(user_collateral), *old(position), req) == Err::<RepayPlan, ErrorCode>(e),
        r is Err ==> {
            &&& *final(bank_borrow) == *old(bank_borrow)
            &&& *final(bank_collateral) == *old(bank_collateral)
            &&& *final(user_borrow) == *old(user_borrow)
            &&& *final(user_collateral) == *old(user_collateral)
            &&& *final(position) == *old(position)
            &&& same_index(*final(index), *old(index))
        },
        r matches Ok(s) ==> {
            let plan = repay_plan(*old(bank_borrow), *old(bank_collateral), *old(user_borrow), *old(user_collateral), *old(position), req);
            let bb = accrued(*old(bank_borrow), req.now as int);
            let bc = accrued(*old(bank_collateral), req.now as int);
            let u = plan->Ok_0.unlock;
            &&& plan is Ok
            &&& s == plan->Ok_0.burn
            &&& req.amount == plan->Ok_0.debt ==> final(position).borrowed_shares == 0 && !final(position).active
            &&& final(user_collateral).deposited_shares + final(user_collateral).collateral_shares == old(user_collateral).deposited_shares + old(user_collateral).collateral_shares
            &&& final(bank_collateral).share_supply() == bc.share_supply()
            &&& *final(bank_borrow) == (Bank {
                total_borrowed_shares: (bb.total_borrowed_shares - s) as u64,
                total_borrowed_assets: (bb.total_borrowed_assets - req.amount) as u64,
                ..bb
            })
            &&& *final(bank_collateral) == (Bank {
                total_deposited_shares: (bc.total_deposited_shares + u) as u64,
                total_collateral_shares: (bc.total_collateral_shares - u) as u64,
                ..bc
            })
            &&& *final(user_borrow) == (UserTokenState {
                borrowed_shares: (old(user_borrow).borrowed_shares - s) as u64,
                last_updated_borrowed: req.now,
                ..*old(user_borrow)
            })
            &&& *final(user_collateral) == (UserTokenState {
                deposited_shares: (old(user_collateral).deposited_shares + u) as u64,
                collateral_shares: (old(user_collateral).collateral_shares - u) as u64,
                last_updated_deposited: req.now,
                last_updated_collateral: req.now,
                ..*old(user_collateral)
            })
            &&& *final(position) == (BorrowPosition {
                collateral_shares: (old(position).collateral_shares - u) as u64,
                borrowed_shares: (old(position).borrowed_shares - s) as u64,
                last_updated: req.now,
                active: old(position).borrowed_shares - s > 0,
                ..*old(position)
            })
            &&& final(index).user == old(index).user && final(index).bump == old(index).bump
            &&& final(index).deposited_mints@ == old(index).deposited_mints@
            &&& final(index).active_positions@ == if old(position).borrowed_shares - s == 0 {
                old(index).active_positions@.filter(|k: Key| k != req.position_key)
            } else {
                old(index).active_positions@
            }
        },
{
    let now = req.now;
    let cp = req.collateral_price;
    let bp = req.borrow_price;
    let acc_b = compute_accrual(bank_borrow, now)?;
    let acc_c = compute_accrual(bank_collateral, now)?;
    proof {
        lemma_accrued_wf(*bank_collateral, now as int);
        lemma_accrued_wf(*bank_borrow, now as int);
        lemma_u64_product(position.borrowed_shares as int, acc_b.borrowed_assets as int);
    }
    let debt = convert_to_assets(position.borrowed_shares as u128, bank_borrow.total_borrowed_shares, acc_b.borrowed_assets as u128)?;
    if req.amount as u128 > debt {
        return Err(ErrorCode::OverRepayRequest);
    }
    let burn = if req.amount as u128 == debt {
        position.borrowed_shares
    } else {
        match convert_to_shares(req.amount, bank_borrow.total_borrowed_shares, acc_b.borrowed_assets) {
            Ok(b) => b,
            Err(e) => return Err(e),
        }
    };
    if burn > position.borrowed_shares || burn > user_borrow.borrowed_shares || burn > bank_borrow.total_borrowed_shares || req.amount > acc_b.borrowed_assets {
        return Err(ErrorCode::ArithmeticOverflow);
    }
    let units = collateral_lock_amount(req.amount as u128, bp.price, bp.exponent, req.borrow_decimals, cp.price, cp.exponent, req.collateral_decimals)?;
    let cap = if position.collateral_shares <= user_collateral.collateral_shares {
        position.collateral_shares
    } else {
        user_collateral.collateral_shares
    };
    let remaining = position.borrowed_shares - burn;
    let supply = bank_collateral.deposit_share_supply();
    let unlock: u64 = if remaining == 0 {
        cap
    } else {
        match shares_for_units_within(units, supply, acc_c.deposited_assets, cap) {
            Some(v) => v,
            None => cap,
        }
    };
    if unlock > bank_collateral.total_collateral_shares || user_collateral.deposited_shares as u128 + unlock as u128 > u64::MAX as u128 {
        return Err(ErrorCode::ArithmeticOverflow);
    }
    proof {
        let bb = accrued(*old(bank_borrow), now as int);
        if bb.total_borrowed_shares > 0 {
            if req.amount == debt {
                lemma_part_of_debt(position.borrowed_shares as int, bb.total_borrowed_shares as int, bb.total_borrowed_assets as int);
            } else {
                lemma_burn_keeps_balance(req.amount as int, bb.total_borrowed_shares as int, bb.total_borrowed_assets as int);
            }
        }
    }
    apply_accrual(bank_borrow, &acc_b, Ghost(now as int));
    apply_accrual(bank_collateral, &acc_c, Ghost(now as int));
    bank_borrow.total_borrowed_shares = bank_borrow.total_borrowed_shares - burn;
    bank_borrow.total_borrowed_assets = bank_borrow.total_borrowed_assets - req.amount;
    bank_collateral.total_collateral_shares = bank_collateral.total_collateral_shares - unlock;
    bank_collateral.total_deposited_shares = bank_collateral.total_deposited_shares + unlock;
    user_borrow.borrowed_shares = user_borrow.borrowed_shares - burn;
    user_borrow.last_updated_borrowed = now;
    user_collateral.collateral_shares = user_collateral.collateral_shares - unlock;
    user_collateral.deposited_shares = user_collateral.deposited_shares + unlock;
    user_collateral.last_updated_collateral = now;
    user_collateral.last_updated_deposited = now;
    position.borrowed_shares = remaining;
    position.collateral_shares = position.collateral_shares - unlock;
    position.last_updated = now;
    position.active = remaining > 0;
    if remaining == 0 {
        index.remove_position(&req.position_key);
    }
    Ok(burn)
}

} // verus!
