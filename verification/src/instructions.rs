//! The operations of the exchange. Each takes the accounts it works on as
//! plain values, decides, and on success leaves the new state in them and
//! returns what is to be moved and reported; on rejection it leaves
//! everything as it was.

pub mod cleanup;
pub mod initialize;
pub mod liquidate;
pub mod repay;
pub mod submit_ask;
pub mod submit_bid;
pub mod withdraw_fee;

pub use cleanup::{
    is_stale, process_cleanup, settle_amount, Cleanup, CleanupOutcome, ExpiredAsk, ExpiredBid,
};
pub use initialize::{process_initialize, Initialize};
pub use liquidate::{liquidation_swap, process_liquidate, Liquidate, LiquidateOutcome};
pub use repay::{process_repay, Repay, RepayOutcome};
pub use submit_ask::{process_submit_ask, submit_ask_in_shard, AskOutcome, SubmitAsk};
pub use submit_bid::{process_submit_bid, submit_bid_in_shard, BidOutcome, SubmitBid};
pub use withdraw_fee::{process_withdraw_fees, WithdrawFees, WithdrawOutcome};
