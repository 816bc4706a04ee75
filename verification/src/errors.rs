//! The reasons for which an operation of the exchange is rejected.

use vstd::prelude::*;

verus! {

/// Why an operation was rejected. A rejected operation changes nothing.
#[derive(Clone, Copy, Debug, PartialEq, Eq, Structural)]
pub enum ErrorCode {
    InvalidShard,
    ShardMismatch,
    PoolFull,
    NoMatchesFound,
    AlreadyRepaid,
    PartialMatchNotAllowed,
    UnsupportedToken,
    UnsupportedCollateral,
    InvalidRepaymentToken,
    LoanNotUnhealthy,
    InsufficientCollateral,
    InvalidDuration,
    Unauthorized,
    InsufficientFunds,
    Overflow,
    InvalidTokenAccount,
    InvalidVaultAccount,
    InvalidShardCount,
    NoSupportedTokens,
    InvalidAmount,
    InvalidCollateral,
    InvalidLoanIndex,
    InsufficientSwapProceeds,
}

impl ErrorCode {
    /// The text shown for each rejection.
    pub open spec fn message_text(self) -> Seq<char> {
        match self {
            ErrorCode::InvalidShard => "Invalid shard ID"@,
            ErrorCode::ShardMismatch => "Shard mismatch"@,
            ErrorCode::PoolFull => "Shard pool is full"@,
            ErrorCode::NoMatchesFound => "No matches found"@,
            ErrorCode::AlreadyRepaid => "Loan already repaid"@,
            ErrorCode::PartialMatchNotAllowed => "Partial match not allowed"@,
            ErrorCode::UnsupportedToken => "Unsupported token"@,
            ErrorCode::UnsupportedCollateral => "Unsupported collateral token"@,
            ErrorCode::InvalidRepaymentToken => "Invalid repayment token"@,
            ErrorCode::LoanNotUnhealthy => "Loan is not unhealthy"@,
            ErrorCode::InsufficientCollateral => "Insufficient collateral for healthy loan"@,
            ErrorCode::InvalidDuration => "Invalid loan duration"@,
            ErrorCode::Unauthorized => "Unauthorized access"@,
            ErrorCode::InsufficientFunds => "Insufficient funds in fee vault"@,
            ErrorCode::Overflow => "Arithmetic overflow"@,
            ErrorCode::InvalidTokenAccount => "Invalid token account"@,
            ErrorCode::InvalidVaultAccount => "Invalid vault account"@,
            ErrorCode::InvalidShardCount => "Invalid shard count"@,
            ErrorCode::NoSupportedTokens => "No supported tokens provided"@,
            ErrorCode::InvalidAmount => "Invalid amount"@,
            ErrorCode::InvalidCollateral => "Invalid collateral amount"@,
            ErrorCode::InvalidLoanIndex => "Invalid loan index"@,
            ErrorCode::InsufficientSwapProceeds => "Insufficient swap proceeds"@,
        }
    }

    /// The text shown for this rejection.
    pub fn message(&self) -> (text: &'static str)
        ensures
            text@ == self.message_text(),
    {
        match self {
            ErrorCode::InvalidShard => "Invalid shard ID",
            ErrorCode::ShardMismatch => "Shard mismatch",
            ErrorCode::PoolFull => "Shard pool is full",
            ErrorCode::NoMatchesFound => "No matches found",
            ErrorCode::AlreadyRepaid => "Loan already repaid",
            ErrorCode::PartialMatchNotAllowed => "Partial match not allowed",
            ErrorCode::UnsupportedToken => "Unsupported token",
            ErrorCode::UnsupportedCollateral => "Unsupported collateral token",
            ErrorCode::InvalidRepaymentToken => "Invalid repayment token",
            ErrorCode::LoanNotUnhealthy => "Loan is not unhealthy",
            ErrorCode::InsufficientCollateral => "Insufficient collateral for healthy loan",
            ErrorCode::InvalidDuration => "Invalid loan duration",
            ErrorCode::Unauthorized => "Unauthorized access",
            ErrorCode::InsufficientFunds => "Insufficient funds in fee vault",
            ErrorCode::Overflow => "Arithmetic overflow",
            ErrorCode::InvalidTokenAccount => "Invalid token account",
            ErrorCode::InvalidVaultAccount => "Invalid vault account",
            ErrorCode::InvalidShardCount => "Invalid shard count",
            ErrorCode::NoSupportedTokens => "No supported tokens provided",
            ErrorCode::InvalidAmount => "Invalid amount",
            ErrorCode::InvalidCollateral => "Invalid collateral amount",
            ErrorCode::InvalidLoanIndex => "Invalid loan index",
            ErrorCode::InsufficientSwapProceeds => "Insufficient swap proceeds",
        }
    }
}

} // verus!
