//! Withdrawal of collected fees by the administrator.

use vstd::prelude::*;
use crate::errors::ErrorCode;
use crate::events::FeesWithdrawn;
use crate::pubkey::Pubkey;
use crate::states::{transfer_order, LendAuction, TokenAccount, Transfer};

verus! {

/// The accounts that a withdrawal of fees works on.
#[derive(Clone, Debug, PartialEq, Eq)]
pub struct WithdrawFees {
    pub lend_auction: LendAuction,
    /// Who asks for the fees.
    pub admin: Pubkey,
    /// The vault that the fees are taken from.
    pub fee_vault: TokenAccount,
    /// Where the fees go.
    pub admin_token_account: TokenAccount,
    pub token_mint: Pubkey,
}

/// What a withdrawal that went through asks the caller to do.
#[derive(Clone, Copy, Debug, PartialEq, Eq)]
pub struct WithdrawOutcome {
    /// The amount withdrawn, from the fee vault to the administrator.
    pub withdrawal: Transfer,
    pub event: FeesWithdrawn,
}

/// Why a withdrawal is rejected, if it is: the first of the checks that it
/// fails. Only the administrator withdraws, from a shard that exists, a
/// positive amount of a supported token, and no more than the vault holds.
pub open spec fn withdrawal_rejection(ctx: WithdrawFees, shard_id: u64, amount: u64) -> Option<
    ErrorCode,
> {
    if ctx.lend_auction.admin != ctx.admin {
        Some(ErrorCode::Unauthorized)
    } else if shard_id >= ctx.lend_auction.shard_count {
        Some(ErrorCode::InvalidShard)
    } else if amount == 0 {
        Some(ErrorCode::InvalidAmount)
    } else if !ctx.lend_auction.supports(ctx.token_mint) {
        Some(ErrorCode::UnsupportedToken)
    } else if ctx.fee_vault.mint != ctx.token_mint {
        Some(ErrorCode::InvalidVaultAccount)
    } else if ctx.fee_vault.amount < amount {
        Some(ErrorCode::InsufficientFunds)
    } else {
        None
    }
}

/// The report of a withdrawal of `amount` from the vault of `shard_id`.
pub open spec fn withdrawn_event(ctx: WithdrawFees, shard_id: u64, amount: u64) -> FeesWithdrawn {
    FeesWithdrawn {
        admin: ctx.lend_auction.admin,
        shard_id,
        amount,
        token_mint: ctx.token_mint,
    }
}

/// What a withdrawal of `amount` asks the caller to do: to move it from the
/// fee vault to the administrator.
pub open spec fn withdraw_outcome(ctx: WithdrawFees, shard_id: u64, amount: u64)
    -> WithdrawOutcome {
    WithdrawOutcome {
        withdrawal: transfer_order(ctx.fee_vault, ctx.admin_token_account, ctx.token_mint, amount),
        event: withdrawn_event(ctx, shard_id, amount),
    }
}

/// Decides on a withdrawal of `amount` from the fee vault of `shard_id`.
/// The accounts are only read.
///
/// On success the caller moves `amount` from the fee vault to the
/// administrator; the vault holds at least that much.
pub fn process_withdraw_fees(ctx: &WithdrawFees, shard_id: u64, amount: u64) -> (res: Result<
    WithdrawOutcome,
    ErrorCode,
>)
    ensures
        match res {
            Ok(outcome) => {
                &&& withdrawal_rejection(*ctx, shard_id, amount) is None
                &&& outcome == withdraw_outcome(*ctx, shard_id, amount)
                &&& 0 < amount <= ctx.fee_vault.amount
            },
            Err(e) => Some(e) == withdrawal_rejection(*ctx, shard_id, amount),
        },
{
    if ctx.lend_auction.admin != ctx.admin {
        return Err(ErrorCode::Unauthorized);
    }
    if shard_id >= ctx.lend_auction.shard_count {
        return Err(ErrorCode::InvalidShard);
    }
    if amount == 0 {
        return Err(ErrorCode::InvalidAmount);
    }
    if !ctx.lend_auction.is_supported(&ctx.token_mint) {
        return Err(ErrorCode::UnsupportedToken);
    }
    if ctx.fee_vault.mint != ctx.token_mint {
        return Err(ErrorCode::InvalidVaultAccount);
    }
    if ctx.fee_vault.amount < amount {
        return Err(ErrorCode::InsufficientFunds);
    }
    Ok(
        WithdrawOutcome {
            withdrawal: Transfer::between(
                &ctx.fee_vault,
                &ctx.admin_token_account,
                ctx.token_mint,
                amount,
            ),
            event: FeesWithdrawn {
                admin: ctx.lend_auction.admin,
                shard_id,
                amount,
                token_mint: ctx.token_mint,
            },
        },
    )
}

} // verus!
