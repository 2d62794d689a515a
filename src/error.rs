use vstd::prelude::*;

verus! {

/// Every way in which an operation of the ledger can fail. A failed
/// operation leaves every record it was given unchanged.
#[derive(Debug, Clone, Copy, PartialEq, Eq, Structural)]
pub enum ErrorCode {
    BorrowAmountTooLarge,
    WithdrawAmountExceedsCollateralValue,
    OverWithdrawRequest,
    ArithmeticOverflow,
    OverBorrowRequest,
    OverRepayRequest,
    HealthyAccount,
    OverBorrowableAmount,
    InvalidPriceFeed,
    InvalidDepositAmount,
    InvalidWithdrawAmount,
    BorrowAmountTooSmall,
    StalePrice,
    InsufficientLiquidity,
    InsufficientFunds,
    InsufficientCollateral,
    PositionIndexFull,
}

impl ErrorCode {
    /// The human-readable message of each error.
    pub open spec fn message_text(self) -> Seq<char> {
        match self {
            ErrorCode::BorrowAmountTooLarge => "Borrow Amount Too Large"@,
            ErrorCode::WithdrawAmountExceedsCollateralValue => "Withdraw Amount Exceeds Collateral Value"@,
            ErrorCode::OverWithdrawRequest => "Over Withdraw request"@,
            ErrorCode::ArithmeticOverflow => "Arithmetic Overflow"@,
            ErrorCode::OverBorrowRequest => "Over Borrow Request"@,
            ErrorCode::OverRepayRequest => "Over Repay Request"@,
            ErrorCode::HealthyAccount => "Healthy Account"@,
            ErrorCode::OverBorrowableAmount => "Over Borrowable Amount"@,
            ErrorCode::InvalidPriceFeed => "Invalid Price Feed"@,
            ErrorCode::InvalidDepositAmount => "Invalid Deposit Amount"@,
            ErrorCode::InvalidWithdrawAmount => "Invalid Withdraw Amount"@,
            ErrorCode::BorrowAmountTooSmall => "Borrow Amount Too Small"@,
            ErrorCode::StalePrice => "Stale Price"@,
            ErrorCode::InsufficientLiquidity => "Insufficient Liquidity"@,
            ErrorCode::InsufficientFunds => "Insufficient Funds"@,
            ErrorCode::InsufficientCollateral => "Insufficient Collateral"@,
            ErrorCode::PositionIndexFull => "Position Index Full"@,
        }
    }

    /// The human-readable message of the error.
    pub fn message(&self) -> (r: String)
        ensures
            r@ == self.message_text(),
    {
        let s = match self {
            ErrorCode::BorrowAmountTooLarge => "Borrow Amount Too Large",
            ErrorCode::WithdrawAmountExceedsCollateralValue => "Withdraw Amount Exceeds Collateral Value",
            ErrorCode::OverWithdrawRequest => "Over Withdraw request",
            ErrorCode::ArithmeticOverflow => "Arithmetic Overflow",
            ErrorCode::OverBorrowRequest => "Over Borrow Request",
            ErrorCode::OverRepayRequest => "Over Repay Request",
            ErrorCode::HealthyAccount => "Healthy Account",
            ErrorCode::OverBorrowableAmount => "Over Borrowable Amount",
            ErrorCode::InvalidPriceFeed => "Invalid Price Feed",
            ErrorCode::InvalidDepositAmount => "Invalid Deposit Amount",
            ErrorCode::InvalidWithdrawAmount => "Invalid Withdraw Amount",
            ErrorCode::BorrowAmountTooSmall => "Borrow Amount Too Small",
            ErrorCode::StalePrice => "Stale Price",
            ErrorCode::InsufficientLiquidity => "Insufficient Liquidity",
            ErrorCode::InsufficientFunds => "Insufficient Funds",
            ErrorCode::InsufficientCollateral => "Insufficient Collateral",
            ErrorCode::PositionIndexFull => "Position Index Full",
        };
        s.to_owned()
    }
}

} // verus!
