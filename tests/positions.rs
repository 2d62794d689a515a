use lending::error::ErrorCode;
use lending::instructions::{process_borrow, process_deposit, process_repay, BorrowRequest, RepayRequest};
use lending::oracle::OraclePrice;
use lending::setup::{
    process_init_bank, process_init_borrow_position, process_init_user, process_init_user_token_state,
};
use lending::state::{Bank, BorrowPosition, UserGlobalState, UserTokenState};

const SOL: [u8; 32] = [1; 32];
const USDC: [u8; 32] = [2; 32];
const BORROWER: [u8; 32] = [3; 32];
const LENDER: [u8; 32] = [4; 32];
const POSITION: [u8; 32] = [5; 32];

// 100 USD per SOL (9 decimals), 1 USD per USDC (6 decimals).
const SOL_PRICE: OraclePrice = OraclePrice { price: 10_000_000_000, exponent: -8 };
const USDC_PRICE: OraclePrice = OraclePrice { price: 100_000_000, exponent: -8 };

struct World {
    sol: Bank,
    usdc: Bank,
    borrower_sol: UserTokenState,
    borrower_usdc: UserTokenState,
    position: BorrowPosition,
    index: UserGlobalState,
}

fn pool(mint: [u8; 32]) -> Bank {
    process_init_bank(
        [0; 32], mint, 8000, 500, 5000, 7500, 0, 0, String::new(), String::new(), 0, 0, 0, 60, 0,
    )
    .unwrap()
}

/// The borrower holds 10 SOL (1000 USD) in the SOL pool; a lender holds
/// 10_000 USDC in the USDC pool.
fn world() -> World {
    let mut sol = pool(SOL);
    let mut usdc = pool(USDC);
    let mut index = process_init_user(BORROWER, 1);
    let mut lender_index = process_init_user(LENDER, 1);
    let mut borrower_sol = process_init_user_token_state(&mut index, BORROWER, SOL, 0).unwrap();
    let borrower_usdc = process_init_user_token_state(&mut index, BORROWER, USDC, 0).unwrap();
    let mut lender = process_init_user_token_state(&mut lender_index, LENDER, USDC, 0).unwrap();
    process_deposit(&mut sol, &mut borrower_sol, &mut index, 10_000_000_000, 0).unwrap();
    process_deposit(&mut usdc, &mut lender, &mut lender_index, 10_000_000_000, 0).unwrap();
    let position = process_init_borrow_position(BORROWER, SOL, USDC, 1);
    World { sol, usdc, borrower_sol, borrower_usdc, position, index }
}

fn borrow_request(amount: u64) -> BorrowRequest {
    BorrowRequest {
        position_id: 1,
        position_key: POSITION,
        owner: BORROWER,
        amount,
        now: 0,
        borrow_price: USDC_PRICE,
        borrow_decimals: 6,
        collateral_price: SOL_PRICE,
        collateral_decimals: 9,
    }
}

fn repay_request(amount: u64) -> RepayRequest {
    RepayRequest {
        position_key: POSITION,
        amount,
        now: 0,
        borrow_price: USDC_PRICE,
        borrow_decimals: 6,
        collateral_price: SOL_PRICE,
        collateral_decimals: 9,
    }
}

fn borrow(w: &mut World, amount: u64) -> Result<u64, ErrorCode> {
    process_borrow(
        &mut w.usdc,
        &mut w.sol,
        &mut w.borrower_usdc,
        &mut w.borrower_sol,
        &mut w.position,
        &mut w.index,
        borrow_request(amount),
    )
}

fn repay(w: &mut World, amount: u64) -> Result<u64, ErrorCode> {
    process_repay(
        &mut w.usdc,
        &mut w.sol,
        &mut w.borrower_usdc,
        &mut w.borrower_sol,
        &mut w.position,
        &mut w.index,
        repay_request(amount),
    )
}

#[test]
fn borrow_beyond_max_ltv_fails_and_changes_nothing() {
    let mut w = world();
    assert_eq!(borrow(&mut w, 760_000_000), Err(ErrorCode::BorrowAmountTooLarge));
    assert_eq!(w.usdc.total_borrowed_shares, 0);
    assert_eq!(w.borrower_sol.deposited_shares, 10_000_000_000);
    assert_eq!(w.borrower_sol.collateral_shares, 0);
    assert!(!w.position.active);
    assert!(w.index.active_positions.is_empty());
}

#[test]
fn borrow_within_max_ltv_locks_collateral() {
    let mut w = world();
    assert_eq!(borrow(&mut w, 740_000_000), Ok(740_000_000));
    assert_eq!(w.usdc.total_borrowed_shares, 740_000_000);
    assert_eq!(w.usdc.total_borrowed_assets, 740_000_000);
    assert_eq!(w.borrower_usdc.borrowed_shares, 740_000_000);
    // 740 USD at 100 USD per SOL: 7.4 SOL locked.
    assert_eq!(w.borrower_sol.collateral_shares, 7_400_000_000);
    assert_eq!(w.borrower_sol.deposited_shares, 2_600_000_000);
    assert_eq!(w.sol.total_collateral_shares, 7_400_000_000);
    assert_eq!(w.sol.total_deposited_shares, 2_600_000_000);
    assert!(w.position.active);
    assert_eq!(w.position.collateral_shares, 7_400_000_000);
    assert_eq!(w.position.borrowed_shares, 740_000_000);
    assert_eq!(w.position.collateral_mint, SOL);
    assert_eq!(w.position.borrow_mint, USDC);
    assert_eq!(w.index.active_positions, vec![POSITION]);
}

#[test]
fn locking_keeps_the_users_total_shares() {
    let mut w = world();
    let total = w.borrower_sol.deposited_shares + w.borrower_sol.collateral_shares;
    borrow(&mut w, 123_456_789).unwrap();
    assert_eq!(w.borrower_sol.deposited_shares + w.borrower_sol.collateral_shares, total);
    repay(&mut w, 23_456_789).unwrap();
    assert_eq!(w.borrower_sol.deposited_shares + w.borrower_sol.collateral_shares, total);
    repay(&mut w, 100_000_000).unwrap();
    assert_eq!(w.borrower_sol.deposited_shares + w.borrower_sol.collateral_shares, total);
    assert_eq!(w.borrower_sol.collateral_shares, 0);
}

#[test]
fn second_borrow_counts_existing_debt() {
    let mut w = world();
    borrow(&mut w, 100_000_000).unwrap();
    // Free collateral is now 9 SOL = 900 USD, supporting 675 USD of debt.
    assert_eq!(borrow(&mut w, 576_000_000), Err(ErrorCode::BorrowAmountTooLarge));
    assert_eq!(borrow(&mut w, 575_000_000), Ok(575_000_000));
    assert_eq!(w.borrower_usdc.borrowed_shares, 675_000_000);
    assert_eq!(w.index.active_positions, vec![POSITION]);
}

#[test]
fn borrow_needs_pool_liquidity() {
    let mut w = world();
    w.usdc.total_deposited_assets = 500_000_000;
    assert_eq!(borrow(&mut w, 600_000_000), Err(ErrorCode::InsufficientLiquidity));
}

#[test]
fn borrow_with_unusable_price_is_invalid() {
    let mut w = world();
    let mut req = borrow_request(1_000_000);
    req.collateral_price = OraclePrice { price: 0, exponent: -8 };
    let r = process_borrow(
        &mut w.usdc,
        &mut w.sol,
        &mut w.borrower_usdc,
        &mut w.borrower_sol,
        &mut w.position,
        &mut w.index,
        req,
    );
    assert_eq!(r, Err(ErrorCode::InvalidPriceFeed));
}

#[test]
fn repay_more_than_owed_fails_and_changes_nothing() {
    let mut w = world();
    borrow(&mut w, 740_000_000).unwrap();
    let usdc = w.usdc.clone();
    let sol = w.sol.clone();
    let user_usdc = w.borrower_usdc.clone();
    let user_sol = w.borrower_sol.clone();
    let position = w.position.clone();
    assert_eq!(repay(&mut w, 740_000_001), Err(ErrorCode::OverRepayRequest));
    assert_eq!(w.usdc.total_borrowed_shares, usdc.total_borrowed_shares);
    assert_eq!(w.usdc.total_borrowed_assets, usdc.total_borrowed_assets);
    assert_eq!(w.sol.total_collateral_shares, sol.total_collateral_shares);
    assert_eq!(w.borrower_usdc.borrowed_shares, user_usdc.borrowed_shares);
    assert_eq!(w.borrower_sol.deposited_shares, user_sol.deposited_shares);
    assert_eq!(w.borrower_sol.collateral_shares, user_sol.collateral_shares);
    assert_eq!(w.position.borrowed_shares, position.borrowed_shares);
    assert_eq!(w.position.collateral_shares, position.collateral_shares);
    assert!(w.position.active);
}

#[test]
fn partial_repay_unlocks_its_share_of_collateral() {
    let mut w = world();
    borrow(&mut w, 740_000_000).unwrap();
    assert_eq!(repay(&mut w, 370_000_000), Ok(370_000_000));
    assert_eq!(w.borrower_sol.collateral_shares, 3_700_000_000);
    assert_eq!(w.borrower_sol.deposited_shares, 6_300_000_000);
    assert_eq!(w.sol.total_deposited_shares, 6_300_000_000);
    assert_eq!(w.sol.total_collateral_shares, 3_700_000_000);
    assert_eq!(w.position.borrowed_shares, 370_000_000);
    assert_eq!(w.usdc.total_borrowed_assets, 370_000_000);
    assert!(w.position.active);
    assert_eq!(w.index.active_positions, vec![POSITION]);
}

#[test]
fn full_repay_closes_the_position() {
    let mut w = world();
    borrow(&mut w, 740_000_000).unwrap();
    assert_eq!(repay(&mut w, 740_000_000), Ok(740_000_000));
    assert!(!w.position.active);
    assert_eq!(w.position.borrowed_shares, 0);
    assert_eq!(w.position.collateral_shares, 0);
    assert_eq!(w.borrower_sol.collateral_shares, 0);
    assert_eq!(w.borrower_sol.deposited_shares, 10_000_000_000);
    assert_eq!(w.sol.total_collateral_shares, 0);
    assert_eq!(w.sol.total_deposited_shares, 10_000_000_000);
    assert_eq!(w.usdc.total_borrowed_shares, 0);
    assert_eq!(w.usdc.total_borrowed_assets, 0);
    assert!(w.index.active_positions.is_empty());
}

#[test]
fn debt_grows_with_borrow_interest() {
    let mut w = world();
    w.usdc.borrow_interest_rate = 100_000;
    borrow(&mut w, 500_000_000).unwrap();
    let mut req = repay_request(550_000_001);
    req.now = 60;
    let r = process_repay(
        &mut w.usdc,
        &mut w.sol,
        &mut w.borrower_usdc,
        &mut w.borrower_sol,
        &mut w.position,
        &mut w.index,
        req,
    );
    assert_eq!(r, Err(ErrorCode::OverRepayRequest));
    req.amount = 550_000_000;
    let r = process_repay(
        &mut w.usdc,
        &mut w.sol,
        &mut w.borrower_usdc,
        &mut w.borrower_sol,
        &mut w.position,
        &mut w.index,
        req,
    );
    assert_eq!(r, Ok(500_000_000));
    assert!(!w.position.active);
    assert_eq!(w.usdc.last_compound_time, 60);
}

#[test]
fn locking_keeps_the_pools_share_supply() {
    let mut w = world();
    let supply = w.sol.total_deposited_shares + w.sol.total_collateral_shares;
    borrow(&mut w, 333_333_333).unwrap();
    assert_eq!(w.sol.total_deposited_shares + w.sol.total_collateral_shares, supply);
    repay(&mut w, 111_111_111).unwrap();
    assert_eq!(w.sol.total_deposited_shares + w.sol.total_collateral_shares, supply);
}

#[test]
fn lock_is_in_shares_at_the_pools_exchange_rate() {
    let mut w = world();
    // Interest has doubled what each SOL deposit share is worth.
    w.sol.total_deposited_assets = 20_000_000_000;
    borrow(&mut w, 740_000_000).unwrap();
    // 7.4 SOL at 2 SOL per share: 3.7e9 shares.
    assert_eq!(w.borrower_sol.collateral_shares, 3_700_000_000);
    assert_eq!(w.sol.total_collateral_shares, 3_700_000_000);
}

#[test]
fn lock_beyond_free_shares_is_insufficient_collateral() {
    let mut w = world();
    w.sol.max_ltv = 20_000;
    assert_eq!(borrow(&mut w, 1_000_000_001), Err(ErrorCode::InsufficientCollateral));
    assert_eq!(borrow(&mut w, 1_000_000_000), Ok(1_000_000_000));
    assert_eq!(w.borrower_sol.deposited_shares, 0);
}

#[test]
fn repaying_the_whole_debt_burns_every_share() {
    let mut w = world();
    borrow(&mut w, 300_000_000).unwrap();
    // Two thirds of the debt shares belong to others and the debt has grown:
    // the position owes floor(3e8 * 1_000_000_001 / 9e8) = 333_333_333, and
    // that amount converts back to only 299_999_999 shares.
    w.usdc.total_borrowed_shares = 900_000_000;
    w.usdc.total_borrowed_assets = 1_000_000_001;
    w.borrower_usdc.borrowed_shares = 300_000_000;
    assert_eq!(repay(&mut w, 333_333_333), Ok(300_000_000));
    assert_eq!(w.position.borrowed_shares, 0);
    assert!(!w.position.active);
    assert_eq!(w.position.collateral_shares, 0);
    assert_eq!(w.usdc.total_borrowed_shares, 600_000_000);
    assert_eq!(w.usdc.total_borrowed_assets, 666_666_668);
}
