use vstd::prelude::*;

use crate::constants::{MAX_BORROW_POSITIONS, MAX_MINTS};
use crate::error::ErrorCode;

verus! {

broadcast use vstd::array::group_array_axioms;

/// A 32-byte account address.
pub type Key = [u8; 32];

/// A user's balances in one asset's pool.
#[derive(Debug, Clone)]
pub struct UserTokenState {
    pub owner: Key,
    pub mint_address: Key,
    /// Free (unlocked) claim on the pool's deposits.
    pub deposited_shares: u64,
    /// Deposit shares locked as collateral behind borrow positions.
    pub collateral_shares: u64,
    /// Claim on the pool's debt: what this user owes in this asset.
    pub borrowed_shares: u64,
    pub last_updated_deposited: i64,
    pub last_updated_borrowed: i64,
    pub last_updated_collateral: i64,
}

/// The ledger of one asset: share and asset totals on the deposit side and
/// on the borrow side, and the pool's parameters.
///
/// Shares are a relative claim. A deposit share, free or locked, is worth
/// `total_deposited_assets / (total_deposited_shares + total_collateral_shares)`
/// assets; interest grows the asset totals and leaves the share totals alone.
/// Locking moves shares from the free total to the collateral total.
#[derive(Debug, Clone)]
pub struct Bank {
    pub authority: Key,
    pub mint_address: Key,
    /// Free deposit shares: those not locked as collateral.
    pub total_deposited_shares: u64,
    /// The assets that the deposit shares are a claim on, interest included.
    pub total_deposited_assets: u64,
    /// Deposit shares locked as collateral behind borrow positions.
    pub total_collateral_shares: u64,
    pub total_borrowed_shares: u64,
    /// The debt that the borrow shares stand for, interest included.
    pub total_borrowed_assets: u64,
    /// Per-period rates, scaled by `RATE_SCALE`.
    pub deposit_interest_rate: u64,
    pub borrow_interest_rate: u64,
    pub last_compound_time: i64,
    /// Seconds per compounding period.
    pub interest_accrual_period: i64,
    pub liquidation_threshold: u64,
    pub liquidation_bonus: u64,
    pub liquidation_close_factor: u64,
    /// Borrowable fraction of collateral value, in basis points.
    pub max_ltv: u64,
    pub name: String,
    pub description: String,
    pub deposit_fee: u64,
    pub withdrawal_fee: u64,
    pub min_deposit: u64,
}

impl Bank {
    /// Every deposit share in existence: free ones and those locked as
    /// collateral. A deposit share is worth
    /// `total_deposited_assets / share_supply()` assets.
    pub open spec fn share_supply(&self) -> int {
        self.total_deposited_shares + self.total_collateral_shares
    }

    /// The ledger's invariant: a positive accrual period, a share supply
    /// that fits in `u64`, and shares outstanding exactly when assets are.
    pub open spec fn wf(&self) -> bool {
        &&& self.interest_accrual_period > 0
        &&& self.share_supply() <= u64::MAX
        &&& (self.share_supply() == 0 <==> self.total_deposited_assets == 0)
        &&& (self.total_borrowed_shares == 0 <==> self.total_borrowed_assets == 0)
    }

    /// Whether the ledger holds its invariant; a record read from outside is
    /// tested with this before an operation is applied to it.
    pub fn is_well_formed(&self) -> (r: bool)
        ensures
            r == self.wf(),
    {
        self.interest_accrual_period > 0
            && self.total_deposited_shares as u128 + self.total_collateral_shares as u128 <= u64::MAX as u128
            && (self.total_deposited_shares as u128 + self.total_collateral_shares as u128 == 0) == (self.total_deposited_assets == 0)
            && (self.total_borrowed_shares == 0) == (self.total_borrowed_assets == 0)
    }

    /// All deposit shares, free and locked.
    pub fn deposit_share_supply(&self) -> (r: u64)
        requires
            self.wf(),
        ensures
            r == self.share_supply(),
    {
        self.total_deposited_shares + self.total_collateral_shares
    }

    /// The parameters that no operation of the ledger changes.
    pub open spec fn same_parameters(&self, other: &Bank) -> bool {
        &&& self.authority == other.authority
        &&& self.mint_address == other.mint_address
        &&& self.deposit_interest_rate == other.deposit_interest_rate
        &&& self.borrow_interest_rate == other.borrow_interest_rate
        &&& self.interest_accrual_period == other.interest_accrual_period
        &&& self.liquidation_threshold == other.liquidation_threshold
        &&& self.liquidation_bonus == other.liquidation_bonus
        &&& self.liquidation_close_factor == other.liquidation_close_factor
        &&& self.max_ltv == other.max_ltv
        &&& self.name@ == other.name@
        &&& self.description@ == other.description@
        &&& self.deposit_fee == other.deposit_fee
        &&& self.withdrawal_fee == other.withdrawal_fee
        &&& self.min_deposit == other.min_deposit
    }
}

/// The registry entry that maps a price symbol to its oracle feed id.
#[derive(Debug, Clone)]
pub struct PythNetworkFeedId {
    pub symbol: String,
    /// The feed id as 64 hex digits, optionally behind a two-character prefix.
    pub feed_id: String,
}

/// A discovery index of a user's deposited mints and active borrow
/// positions. It carries no financial invariant.
#[derive(Debug, Clone)]
pub struct UserGlobalState {
    pub user: Key,
    pub deposited_mints: Vec<Key>,
    pub active_positions: Vec<Key>,
    pub bump: u8,
}

/// One borrow against one collateral asset.
#[derive(Debug, Clone)]
pub struct BorrowPosition {
    pub position_id: u64,
    pub owner: Key,
    pub collateral_mint: Key,
    pub borrow_mint: Key,
    /// Collateral shares locked for this position.
    pub collateral_shares: u64,
    /// Debt shares owed for this position.
    pub borrowed_shares: u64,
    pub last_updated: i64,
    /// Whether debt is outstanding.
    pub active: bool,
}

/// Whether two addresses are the same, byte for byte.
pub fn same_key(a: &Key, b: &Key) -> (r: bool)
    ensures
        r == (*a == *b),
{
    let mut i: usize = 0;
    while i < 32
        invariant
            i <= 32,
            forall|j: int| 0 <= j < i ==> a[j] == b[j],
        decreases 32 - i,
    {
        if a[i] != b[i] {
            return false;
        }
        i = i + 1;
    }
    proof {
        assert(*a =~= *b);
    }
    true
}

/// Whether `keys` holds `key`.
pub fn contains_key(keys: &Vec<Key>, key: &Key) -> (r: bool)
    ensures
        r == keys@.contains(*key),
{
    let mut i: usize = 0;
    while i < keys.len()
        invariant
            i <= keys@.len(),
            forall|j: int| 0 <= j < i ==> keys@[j] != *key,
        decreases keys@.len() - i,
    {
        if same_key(&keys[i], key) {
            return true;
        }
        i = i + 1;
    }
    false
}

/// Adds `key` to `keys` unless it is there; fails when `keys` already holds
/// `bound` other keys.
fn insert_bounded(keys: &mut Vec<Key>, key: Key, bound: usize) -> (r: Result<(), ErrorCode>)
    ensures
        old(keys)@.contains(key) ==> r is Ok && final(keys)@ == old(keys)@,
        !old(keys)@.contains(key) && old(keys)@.len() >= bound ==> r == Err::<(), ErrorCode>(ErrorCode::PositionIndexFull) && final(keys)@ == old(keys)@,
        !old(keys)@.contains(key) && old(keys)@.len() < bound ==> r is Ok && final(keys)@ == old(keys)@.push(key),
{
    if contains_key(keys, &key) {
        return Ok(());
    }
    if keys.len() >= bound {
        return Err(ErrorCode::PositionIndexFull);
    }
    keys.push(key);
    Ok(())
}

impl UserGlobalState {
    /// An empty index for `user`.
    pub fn new(user: Key, bump: u8) -> (r: UserGlobalState)
        ensures
            r.user == user,
            r.bump == bump,
            r.deposited_mints@.len() == 0,
            r.active_positions@.len() == 0,
    {
        UserGlobalState { user, deposited_mints: Vec::new(), active_positions: Vec::new(), bump }
    }

    /// Records `mint` among the deposited mints, once.
    pub fn register_mint(&mut self, mint: Key) -> (r: Result<(), ErrorCode>)
        ensures
            final(self).user == old(self).user,
            final(self).bump == old(self).bump,
            final(self).active_positions@ == old(self).active_positions@,
            old(self).deposited_mints@.contains(mint) ==> r is Ok && final(self).deposited_mints@ == old(self).deposited_mints@,
            !old(self).deposited_mints@.contains(mint) && old(self).deposited_mints@.len()
                >= MAX_MINTS ==> r == Err::<(), ErrorCode>(ErrorCode::PositionIndexFull) && final(self).deposited_mints@ == old(self).deposited_mints@,
            !old(self).deposited_mints@.contains(mint) && old(self).deposited_mints@.len()
                < MAX_MINTS ==> r is Ok && final(self).deposited_mints@ == old(self).deposited_mints@.push(mint),
    {
        insert_bounded(&mut self.deposited_mints, mint, MAX_MINTS)
    }

    /// Records `position` among the active positions, once.
    pub fn register_position(&mut self, position: Key) -> (r: Result<(), ErrorCode>)
        ensures
            final(self).user == old(self).user,
            final(self).bump == old(self).bump,
            final(self).deposited_mints@ == old(self).deposited_mints@,
            old(self).active_positions@.contains(position) ==> r is Ok && final(self).active_positions@ == old(self).active_positions@,
            !old(self).active_positions@.contains(position) && old(self).active_positions@.len()
                >= MAX_BORROW_POSITIONS ==> r == Err::<(), ErrorCode>(ErrorCode::PositionIndexFull) && final(self).active_positions@ == old(self).active_positions@,
            !old(self).active_positions@.contains(position) && old(self).active_positions@.len()
                < MAX_BORROW_POSITIONS ==> r is Ok && final(self).active_positions@ == old(self).active_positions@.push(position),
    {
        insert_bounded(&mut self.active_positions, position, MAX_BORROW_POSITIONS)
    }

    /// Drops every occurrence of `position` from the active positions and
    /// keeps the others in order.
    pub fn remove_position(&mut self, position: &Key)
        ensures
            final(self).user == old(self).user,
            final(self).bump == old(self).bump,
            final(self).deposited_mints@ == old(self).deposited_mints@,
            final(self).active_positions@ == old(self).active_positions@.filter(
                |k: Key| k != *position,
            ),
    {
        let ghost pred = |k: Key| k != *position;
        let ghost src = self.active_positions@;
        let mut kept: Vec<Key> = Vec::new();
        let mut i: usize = 0;
        while i < self.active_positions.len()
            invariant
                i <= src.len(),
                self.active_positions@ == src,
                pred == (|k: Key| k != *position),
                kept@ == src.subrange(0, i as int).filter(pred),
            decreases src.len() - i,
        {
            let k = self.active_positions[i];
            proof {
                assert(src.subrange(0, i + 1) =~= src.subrange(0, i as int).push(k));
                src.subrange(0, i as int).lemma_filter_push(k, pred);
                assert(pred(k) == (k != *position));
            }
            if !same_key(&k, position) {
                kept.push(k);
            }
            i = i + 1;
        }
        proof {
            assert(src.subrange(0, src.len() as int) =~= src);
        }
        self.active_positions = kept;
    }
}

} // verus!
