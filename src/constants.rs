use vstd::prelude::*;

verus! {

/// Oldest acceptable age of an oracle price, in seconds.
pub const MAXIMUM_AGE: u64 = 10000;

/// Capacity of a user's index of deposited mints.
pub const MAX_MINTS: usize = 64;

/// Capacity of a user's index of active borrow positions.
pub const MAX_BORROW_POSITIONS: usize = 64;

/// Fixed-point scale of per-period interest rates: a rate of `RATE_SCALE`
/// is 100% per period.
pub const RATE_SCALE: u128 = 1_000_000;

/// Basis points in a whole (100%).
pub const BPS_SCALE: u128 = 10_000;

/// USD values are fixed-point numbers with this many decimals.
pub const USD_DECIMALS: u32 = 6;

/// `10^USD_DECIMALS`.
pub const USD_SCALE: u128 = 1_000_000;

} // verus!
