use lending::error::ErrorCode;
use lending::instructions::{process_deposit, process_withdraw, WithdrawBacking};
use lending::oracle::OraclePrice;
use lending::interest::{compound_interest, elapsed_periods};
use lending::ledger::{
    accrue_interest, calculate_borrowed_assets, calculate_total_assets, calculate_user_assets,
    convert_to_assets, convert_to_shares,
};
use lending::setup::{process_init_bank, process_init_user, process_init_user_token_state};
use lending::state::{Bank, UserGlobalState, UserTokenState};

const MINT: [u8; 32] = [7; 32];

fn bank(deposit_rate: u64, borrow_rate: u64, period: i64, now: i64) -> Bank {
    process_init_bank(
        [1; 32],
        MINT,
        8000,
        500,
        5000,
        7500,
        deposit_rate,
        borrow_rate,
        "USDC".to_string(),
        "test pool".to_string(),
        0,
        0,
        1,
        period,
        now,
    )
    .unwrap()
}

fn user(owner: u8, index: &mut UserGlobalState, now: i64) -> UserTokenState {
    process_init_user_token_state(index, [owner; 32], MINT, now).unwrap()
}

#[test]
fn compound_one_period_at_ten_percent() {
    assert_eq!(compound_interest(1000, 100_000, 1), Ok(1100));
    assert_eq!(compound_interest(1500, 100_000, 1), Ok(1650));
}

#[test]
fn compound_two_periods_truncates_each_step() {
    // 1000 -> 1100 -> 1210; 999 -> 1098 (99.9 truncated) -> 1207 (109.8 truncated)
    assert_eq!(compound_interest(1000, 100_000, 2), Ok(1210));
    assert_eq!(compound_interest(999, 100_000, 2), Ok(1207));
}

#[test]
fn compound_edge_cases() {
    assert_eq!(compound_interest(1234, 100_000, 0), Ok(1234));
    assert_eq!(compound_interest(0, 100_000, 1_000_000), Ok(0));
    assert_eq!(compound_interest(u128::MAX, 1, 1), Err(ErrorCode::ArithmeticOverflow));
    assert_eq!(compound_interest(u128::MAX / 2, 1_000_000, 1), Err(ErrorCode::ArithmeticOverflow));
}

#[test]
fn elapsed_periods_truncate_partial_periods() {
    assert_eq!(elapsed_periods(100, 100, 60), Ok(0));
    assert_eq!(elapsed_periods(100, 50, 60), Ok(0));
    assert_eq!(elapsed_periods(100, 159, 60), Ok(0));
    assert_eq!(elapsed_periods(100, 160, 60), Ok(1));
    assert_eq!(elapsed_periods(0, 250, 60), Ok(4));
    assert_eq!(elapsed_periods(i64::MIN, i64::MAX, 1), Err(ErrorCode::ArithmeticOverflow));
}

#[test]
fn init_bank_refuses_non_positive_period() {
    let r = process_init_bank(
        [1; 32], MINT, 0, 0, 0, 7500, 0, 0, String::new(), String::new(), 0, 0, 0, 0, 0,
    );
    assert_eq!(r.err(), Some(ErrorCode::ArithmeticOverflow));
    let b = bank(0, 0, 60, 42);
    assert_eq!(b.last_compound_time, 42);
    assert_eq!(b.total_deposited_shares, 0);
    assert_eq!(b.max_ltv, 7500);
}

#[test]
fn share_conversions() {
    assert_eq!(convert_to_shares(1000, 0, 0), Ok(1000));
    assert_eq!(convert_to_shares(500, 1000, 1000), Ok(500));
    assert_eq!(convert_to_shares(100, 1500, 1650), Ok(90));
    assert_eq!(convert_to_shares(u64::MAX, u64::MAX, 1), Err(ErrorCode::ArithmeticOverflow));
    assert_eq!(convert_to_assets(1000, 1500, 1650), Ok(1100));
    assert_eq!(convert_to_assets(5, 0, 1650), Ok(0));
}

#[test]
fn first_and_second_depositor_then_one_period_of_interest() {
    let mut b = bank(100_000, 0, 60, 0);
    let mut index_a = process_init_user([2; 32], 1);
    let mut index_b = process_init_user([3; 32], 1);
    let mut a = user(2, &mut index_a, 0);
    let mut c = user(3, &mut index_b, 0);

    assert_eq!(process_deposit(&mut b, &mut a, &mut index_a, 1000, 0), Ok(1000));
    assert_eq!(a.deposited_shares, 1000);
    assert_eq!(calculate_total_assets(&b, 0), Ok(1000));

    assert_eq!(process_deposit(&mut b, &mut c, &mut index_b, 500, 0), Ok(500));
    assert_eq!(c.deposited_shares, 500);

    assert_eq!(accrue_interest(&mut b, 60), Ok(()));
    assert_eq!(b.total_deposited_assets, 1650);
    assert_eq!(b.total_deposited_shares, 1500);
    assert_eq!(b.last_compound_time, 60);
    assert_eq!(calculate_total_assets(&b, 60), Ok(1650));
    assert_eq!(calculate_user_assets(&b, a.deposited_shares, 60), Ok(1100));
    assert_eq!(calculate_user_assets(&b, c.deposited_shares, 60), Ok(550));
}

#[test]
fn interest_is_owed_lazily_before_accrual() {
    let mut b = bank(100_000, 200_000, 60, 0);
    let mut index = process_init_user([2; 32], 1);
    let mut a = user(2, &mut index, 0);
    process_deposit(&mut b, &mut a, &mut index, 1000, 0).unwrap();
    assert_eq!(calculate_total_assets(&b, 59), Ok(1000));
    assert_eq!(calculate_total_assets(&b, 120), Ok(1210));
    assert_eq!(calculate_user_assets(&b, 1000, 120), Ok(1210));
    assert_eq!(calculate_borrowed_assets(&b, 120), Ok(0));
}

#[test]
fn accrual_keeps_partial_periods_and_is_idempotent() {
    let mut b = bank(100_000, 0, 60, 0);
    let mut index = process_init_user([2; 32], 1);
    let mut a = user(2, &mut index, 0);
    process_deposit(&mut b, &mut a, &mut index, 1000, 0).unwrap();
    assert_eq!(accrue_interest(&mut b, 90), Ok(()));
    assert_eq!(b.last_compound_time, 60);
    assert_eq!(b.total_deposited_assets, 1100);
    let before = b.clone();
    assert_eq!(accrue_interest(&mut b, 90), Ok(()));
    assert_eq!(b.total_deposited_assets, before.total_deposited_assets);
    assert_eq!(b.last_compound_time, before.last_compound_time);
    assert_eq!(accrue_interest(&mut b, 120), Ok(()));
    assert_eq!(b.total_deposited_assets, 1210);
    assert_eq!(b.last_compound_time, 120);
}

#[test]
fn exchange_rate_never_falls_across_accruals() {
    let mut b = bank(37_000, 0, 10, 0);
    let mut index = process_init_user([2; 32], 1);
    let mut a = user(2, &mut index, 0);
    process_deposit(&mut b, &mut a, &mut index, 999_983, 0).unwrap();
    let mut last = calculate_user_assets(&b, 1_000_000, 0).unwrap();
    let mut t = 0;
    for step in 1..20 {
        t += 10 * step;
        accrue_interest(&mut b, t).unwrap();
        assert_eq!(b.total_deposited_shares, 999_983);
        let now = calculate_user_assets(&b, 1_000_000, t).unwrap();
        assert!(now >= last);
        last = now;
    }
}

#[test]
fn empty_pool_accrual_only_moves_the_clock() {
    let mut b = bank(100_000, 100_000, 60, 0);
    assert_eq!(accrue_interest(&mut b, 600), Ok(()));
    assert_eq!(b.total_deposited_assets, 0);
    assert_eq!(b.total_deposited_shares, 0);
    assert_eq!(b.last_compound_time, 600);
}

#[test]
fn deposit_below_minimum_is_refused() {
    let mut b = bank(0, 0, 60, 0);
    b.min_deposit = 100;
    let mut index = process_init_user([2; 32], 1);
    let mut a = user(2, &mut index, 0);
    assert_eq!(
        process_deposit(&mut b, &mut a, &mut index, 99, 0),
        Err(ErrorCode::InvalidDepositAmount)
    );
    assert_eq!(b.total_deposited_shares, 0);
    assert_eq!(a.deposited_shares, 0);
    assert_eq!(process_deposit(&mut b, &mut a, &mut index, 100, 0), Ok(100));
}

#[test]
fn deposit_records_the_mint_once() {
    let mut b = bank(0, 0, 60, 0);
    let mut index = process_init_user([2; 32], 1);
    let mut a = UserTokenState {
        owner: [2; 32],
        mint_address: MINT,
        deposited_shares: 0,
        collateral_shares: 0,
        borrowed_shares: 0,
        last_updated_deposited: 0,
        last_updated_borrowed: 0,
        last_updated_collateral: 0,
    };
    process_deposit(&mut b, &mut a, &mut index, 10, 5).unwrap();
    process_deposit(&mut b, &mut a, &mut index, 10, 6).unwrap();
    assert_eq!(index.deposited_mints, vec![MINT]);
    assert_eq!(a.last_updated_deposited, 6);
}

#[test]
fn deposit_then_withdraw_restores_share_counts() {
    let mut b = bank(100_000, 0, 60, 0);
    let mut index = process_init_user([2; 32], 1);
    let mut a = user(2, &mut index, 0);
    let mut c = user(3, &mut index, 0);
    process_deposit(&mut b, &mut a, &mut index, 1000, 0).unwrap();
    accrue_interest(&mut b, 60).unwrap();
    let pool_before = b.total_deposited_shares;
    let user_before = c.deposited_shares;
    let minted = process_deposit(&mut b, &mut c, &mut index, 777, 60).unwrap();
    assert_eq!(minted, 777 * 1000 / 1100);
    let burnt = process_withdraw(&mut b, &mut c, 777, 60, None).unwrap();
    assert_eq!(burnt, minted);
    assert_eq!(b.total_deposited_shares, pool_before);
    assert_eq!(c.deposited_shares, user_before);
}

#[test]
fn withdraw_more_than_free_shares_is_refused() {
    let mut b = bank(0, 0, 60, 0);
    let mut index = process_init_user([2; 32], 1);
    let mut a = user(2, &mut index, 0);
    let mut c = user(3, &mut index, 0);
    process_deposit(&mut b, &mut a, &mut index, 1000, 0).unwrap();
    process_deposit(&mut b, &mut c, &mut index, 1000, 0).unwrap();
    assert_eq!(
        process_withdraw(&mut b, &mut a, 1001, 0, None),
        Err(ErrorCode::InsufficientFunds)
    );
    assert_eq!(a.deposited_shares, 1000);
    assert_eq!(b.total_deposited_shares, 2000);
    assert_eq!(process_withdraw(&mut b, &mut a, 1000, 0, None), Ok(1000));
    assert_eq!(a.deposited_shares, 0);
    assert_eq!(b.total_deposited_assets, 1000);
}

#[test]
fn withdraw_cannot_touch_locked_collateral() {
    let mut b = bank(0, 0, 60, 0);
    let mut index = process_init_user([2; 32], 1);
    let mut a = user(2, &mut index, 0);
    process_deposit(&mut b, &mut a, &mut index, 1000, 0).unwrap();
    a.deposited_shares = 400;
    a.collateral_shares = 600;
    b.total_deposited_shares = 400;
    b.total_collateral_shares = 600;
    let free = WithdrawBacking {
        existing_debt_usd: 0,
        collateral_price: OraclePrice { price: 100_000_000, exponent: -8 },
        collateral_decimals: 6,
    };
    assert_eq!(
        process_withdraw(&mut b, &mut a, 100, 0, None),
        Err(ErrorCode::WithdrawAmountExceedsCollateralValue)
    );
    assert_eq!(
        process_withdraw(&mut b, &mut a, 401, 0, Some(free)),
        Err(ErrorCode::InsufficientFunds)
    );
    assert_eq!(process_withdraw(&mut b, &mut a, 400, 0, Some(free)), Ok(400));
    assert_eq!(a.deposited_shares, 0);
    assert_eq!(a.collateral_shares, 600);
    assert_eq!(b.total_deposited_shares, 0);
    assert_eq!(b.total_collateral_shares, 600);
    assert_eq!(b.total_deposited_assets, 600);
}

#[test]
fn withdraw_must_keep_debt_backed_by_collateral() {
    let mut b = bank(0, 0, 60, 0);
    let mut index = process_init_user([2; 32], 1);
    let mut a = user(2, &mut index, 0);
    // 1000 units of a 6-decimal token at 1 USD: 0.001 USD = 1000 micro-USD.
    process_deposit(&mut b, &mut a, &mut index, 1000, 0).unwrap();
    a.deposited_shares = 500;
    a.collateral_shares = 500;
    b.total_deposited_shares = 500;
    b.total_collateral_shares = 500;
    let backing = |debt| WithdrawBacking {
        existing_debt_usd: debt,
        collateral_price: OraclePrice { price: 100_000_000, exponent: -8 },
        collateral_decimals: 6,
    };
    // Keeping 800 units (800 micro-USD) supports 600 at 75%.
    let mut b2 = b.clone();
    let mut a2 = a.clone();
    assert_eq!(
        process_withdraw(&mut b2, &mut a2, 200, 0, Some(backing(601))),
        Err(ErrorCode::WithdrawAmountExceedsCollateralValue)
    );
    assert_eq!(a2.deposited_shares, 500);
    assert_eq!(process_withdraw(&mut b, &mut a, 200, 0, Some(backing(600))), Ok(200));
    assert_eq!(a.deposited_shares, 300);
}
