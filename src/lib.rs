//! Accounting core of a collateralised lending pool: share-based ledgers,
//! compound interest, oracle-priced risk checks and the deposit / withdraw /
//! borrow / repay transitions that they gate.
pub mod constants;
pub mod error;
pub mod instructions;
pub mod interest;
pub mod laws;
pub mod ledger;
pub mod oracle;
pub mod risk;
pub mod setup;
pub mod state;
