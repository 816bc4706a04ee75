//! A sharded peer-to-peer lending exchange: order books, matching, the loan
//! ledger and the expiry sweep, as state transitions on plain values.
//!
//! Nothing here moves tokens, reads a clock or talks to another program.
//! Each operation is handed the accounts it works on and the current slot,
//! and returns what the caller is to move and report.

pub mod errors;
pub mod events;
pub mod instructions;
pub mod invariants;
pub mod pubkey;
pub mod states;
pub mod utils;

pub use errors::ErrorCode;
pub use events::{
    AskExpired, AskSubmitted, AuctionInitialized, BidExpired, BidSubmitted, FeesWithdrawn,
    LoanIssued, LoanLiquidated, LoanRepaid,
};
pub use instructions::{
    is_stale, liquidation_swap, process_cleanup, process_initialize, process_liquidate, process_repay,
    process_submit_ask, process_submit_bid, process_withdraw_fees, settle_amount,
    submit_ask_in_shard, submit_bid_in_shard, AskOutcome, BidOutcome, Cleanup, CleanupOutcome,
    ExpiredAsk, ExpiredBid, Initialize, Liquidate, LiquidateOutcome, Repay, RepayOutcome,
    SubmitAsk, SubmitBid, WithdrawFees, WithdrawOutcome,
};
pub use pubkey::Pubkey;
pub use states::{
    find_account, Ask, Bid, LendAuction, Loan, LoanPool, ShardPool, TokenAccount, Transfer,
};
pub use utils::{
    compute_shard_id, create_raydium_swap_instruction, insert_sorted_ask, insert_sorted_bid,
    loan_rate, match_ask, match_bid, orders_cross, shard_from_digest, AccountMeta, Instruction,
};
