use vstd::prelude::*;

use crate::error::ErrorCode;
use crate::state::{Bank, BorrowPosition, Key, PythNetworkFeedId, UserGlobalState, UserTokenState};

verus! {

/// Creates the ledger of the asset `mint` with the given parameters, empty
/// and compounding from `now`. A non-positive accrual period cannot divide
/// time into periods and is refused.
pub fn process_init_bank(
    authority: Key,
    mint: Key,
    liquidation_threshold: u64,
    liquidation_bonus: u64,
    liquidation_close_factor: u64,
    max_ltv: u64,
    deposit_interest_rate: u64,
    borrow_interest_rate: u64,
    name: String,
    description: String,
    deposit_fee: u64,
    withdrawal_fee: u64,
    min_deposit: u64,
    interest_accrual_period: i64,
    now: i64,
) -> (r: Result<Bank, ErrorCode>)
    ensures
        r is Ok <==> interest_accrual_period > 0,
        r matches Err(e) ==> e == ErrorCode::ArithmeticOverflow,
        r matches Ok(b) ==> {
            &&& b.wf()
            &&& b.authority == authority && b.mint_address == mint
            &&& b.total_deposited_shares == 0 && b.total_deposited_assets == 0
            &&& b.total_collateral_shares == 0
            &&& b.total_borrowed_shares == 0 && b.total_borrowed_assets == 0
            &&& b.liquidation_threshold == liquidation_threshold
            &&& b.liquidation_bonus == liquidation_bonus
            &&& b.liquidation_close_factor == liquidation_close_factor
            &&& b.max_ltv == max_ltv
            &&& b.deposit_interest_rate == deposit_interest_rate
            &&& b.borrow_interest_rate == borrow_interest_rate
            &&& b.name@ == name@ && b.description@ == description@
            &&& b.deposit_fee == deposit_fee && b.withdrawal_fee == withdrawal_fee
            &&& b.min_deposit == min_deposit
            &&& b.interest_accrual_period == interest_accrual_period
            &&& b.last_compound_time == now
        },
{
    if interest_accrual_period <= 0 {
        return Err(ErrorCode::ArithmeticOverflow);
    }
    Ok(
        Bank {
            authority,
            mint_address: mint,
            total_deposited_shares: 0,
            total_deposited_assets: 0,
            total_collateral_shares: 0,
            total_borrowed_shares: 0,
            total_borrowed_assets: 0,
            deposit_interest_rate,
            borrow_interest_rate,
            last_compound_time: now,
            interest_accrual_period,
            liquidation_threshold,
            liquidation_bonus,
            liquidation_close_factor,
            max_ltv,
            name,
            description,
            deposit_fee,
            withdrawal_fee,
            min_deposit,
        },
    )
}

/// Creates the empty index of `user`.
pub fn process_init_user(user: Key, bump: u8) -> (r: UserGlobalState)
    ensures
        r.user == user,
        r.bump == bump,
        r.deposited_mints@.len() == 0,
        r.active_positions@.len() == 0,
{
    UserGlobalState::new(user, bump)
}

/// Creates `owner`'s empty balances in the pool of `mint` and records the
/// mint in their index.
pub fn process_init_user_token_state(index: &mut UserGlobalState, owner: Key, mint: Key, now: i64) -> (r: Result<
    UserTokenState,
    ErrorCode,
>)
    ensures
        final(index).user == old(index).user,
        final(index).bump == old(index).bump,
        final(index).active_positions@ == old(index).active_positions@,
        r is Ok <==> old(index).deposited_mints@.contains(mint) || old(index).deposited_mints@.len() < crate::constants::MAX_MINTS,
        r matches Err(e) ==> e == ErrorCode::PositionIndexFull && final(index).deposited_mints@ == old(index).deposited_mints@,
        r matches Ok(u) ==> {
            &&& u.owner == owner && u.mint_address == mint
            &&& u.deposited_shares == 0 && u.collateral_shares == 0 && u.borrowed_shares == 0
            &&& u.last_updated_deposited == now && u.last_updated_borrowed == now
            &&& u.last_updated_collateral == now
            &&& final(index).deposited_mints@ == crate::instructions::index_with(old(index).deposited_mints@, mint)
        },
{
    index.register_mint(mint)?;
    Ok(
        UserTokenState {
            owner,
            mint_address: mint,
            deposited_shares: 0,
            collateral_shares: 0,
            borrowed_shares: 0,
            last_updated_deposited: now,
            last_updated_borrowed: now,
            last_updated_collateral: now,
        },
    )
}

/// Creates an empty, inactive borrow position.
pub fn process_init_borrow_position(owner: Key, mint_collateral: Key, mint_borrow: Key, position_id: u64) -> (r:
    BorrowPosition)
    ensures
        r.position_id == position_id,
        r.owner == owner,
        r.collateral_mint == mint_collateral,
        r.borrow_mint == mint_borrow,
        r.collateral_shares == 0,
        r.borrowed_shares == 0,
        r.last_updated == 0,
        !r.active,
{
    BorrowPosition {
        position_id,
        owner,
        collateral_mint: mint_collateral,
        borrow_mint: mint_borrow,
        collateral_shares: 0,
        borrowed_shares: 0,
        last_updated: 0,
        active: false,
    }
}

/// Records that price `symbol` is published under `feed_id`.
pub fn process_store_symbol_feed_id(symbol: String, feed_id: String) -> (r: PythNetworkFeedId)
    ensures
        r.symbol@ == symbol@,
        r.feed_id@ == feed_id@,
{
    PythNetworkFeedId { symbol, feed_id }
}

} // verus!
