//! Setting up the auction.

use vstd::prelude::*;
use crate::errors::ErrorCode;
use crate::events::AuctionInitialized;
use crate::pubkey::Pubkey;
use crate::states::LendAuction;
use crate::utils::copy_vec;

verus! {

/// The accounts that setting up the auction works on.
#[derive(Clone, Debug, PartialEq, Eq)]
pub struct Initialize {
    /// The auction to set up.
    pub lend_auction: LendAuction,
    /// Who sets it up, and administers it from then on.
    pub admin: Pubkey,
}

/// Why the auction cannot be set up, if it cannot.
pub open spec fn initialize_rejection(shard_count: u64, supported_tokens: Seq<Pubkey>) -> Option<
    ErrorCode,
> {
    if shard_count == 0 {
        Some(ErrorCode::InvalidShardCount)
    } else if supported_tokens.len() == 0 {
        Some(ErrorCode::NoSupportedTokens)
    } else {
        None
    }
}

/// Sets up the auction with `shard_count` shards and the tokens it deals
/// in, administered by `ctx.admin`, with no loan issued yet.
pub fn process_initialize(ctx: &mut Initialize, shard_count: u64, supported_tokens: Vec<Pubkey>)
    -> (res: Result<AuctionInitialized, ErrorCode>)
    ensures
        match res {
            Ok(event) => {
                &&& initialize_rejection(shard_count, supported_tokens@) is None
                &&& final(ctx).admin == old(ctx).admin
                &&& final(ctx).lend_auction.admin == old(ctx).admin
                &&& final(ctx).lend_auction.shard_count == shard_count
                &&& final(ctx).lend_auction.total_loans == 0
                &&& final(ctx).lend_auction.supported_tokens@ == supported_tokens@
                &&& final(ctx).lend_auction.wf()
                &&& event.admin == old(ctx).admin
                &&& event.shard_count == shard_count
                &&& event.supported_tokens@ == supported_tokens@
            },
            Err(e) => {
                &&& Some(e) == initialize_rejection(shard_count, supported_tokens@)
                &&& *final(ctx) == *old(ctx)
            },
        },
{
    if shard_count == 0 {
        return Err(ErrorCode::InvalidShardCount);
    }
    if supported_tokens.len() == 0 {
        return Err(ErrorCode::NoSupportedTokens);
    }
    let reported = copy_vec(&supported_tokens);
    ctx.lend_auction.admin = ctx.admin;
    ctx.lend_auction.shard_count = shard_count;
    ctx.lend_auction.total_loans = 0;
    ctx.lend_auction.supported_tokens = supported_tokens;
    Ok(AuctionInitialized { admin: ctx.admin, shard_count, supported_tokens: reported })
}

} // verus!
