//! Liquidation of a loan whose collateral no longer covers what is owed
//! with margin to spare.
//!
//! A liquidation goes in two steps, with the sale of the collateral on the
//! outside exchange between them. `liquidation_swap` checks the loan and
//! says what to sell; `process_liquidate` is told what the sale brought in,
//! checks the loan again, and closes it.

use vstd::prelude::*;
use crate::errors::ErrorCode;
use crate::events::LoanLiquidated;
use crate::pubkey::Pubkey;
use crate::states::{
    transfer_order, LendAuction, Loan, LoanPool, TokenAccount, Transfer, LIQUIDATION_THRESHOLD,
};
use crate::utils::{create_raydium_swap_instruction, swap_accounts, swap_data, Instruction};

verus! {

/// The accounts that a liquidation works on.
#[derive(Clone, Debug, PartialEq, Eq)]
pub struct Liquidate {
    pub lend_auction: LendAuction,
    /// The address of the auction, which owns the vaults and signs for them.
    pub lend_auction_key: Pubkey,
    pub loan_pool: LoanPool,
    /// Who liquidates.
    pub liquidator: Pubkey,
    /// Where the proceeds of the sale arrive.
    pub liquidator_token_account: TokenAccount,
    /// Where the lender is paid.
    pub lender_token_account: TokenAccount,
    /// Where the collateral is held.
    pub vault_collateral_account: TokenAccount,
    pub raydium_amm_program: Pubkey,
    pub amm: Pubkey,
    pub amm_authority: Pubkey,
    pub amm_open_orders: Pubkey,
    pub amm_coin_vault: Pubkey,
    pub amm_pc_vault: Pubkey,
    pub market_program: Pubkey,
    pub market: Pubkey,
    pub market_bids: Pubkey,
    pub market_asks: Pubkey,
    pub market_event_queue: Pubkey,
    pub market_coin_vault: Pubkey,
    pub market_pc_vault: Pubkey,
    pub market_vault_signer: Pubkey,
}

/// What a liquidation that went through asks the caller to do.
#[derive(Clone, Copy, Debug, PartialEq, Eq)]
pub struct LiquidateOutcome {
    /// What is owed, from the liquidator's proceeds to the lender.
    pub repayment: Transfer,
    pub event: LoanLiquidated,
}

/// Why a loan may not be liquidated, if it may not: the first of the checks
/// that it fails. A loan may be liquidated when it is open, the accounts
/// are for its tokens, and its collateral is worth no more than 120% of
/// what is owed at `current_slot`.
pub open spec fn liquidation_rejection(ctx: Liquidate, loan_idx: u64, current_slot: u64)
    -> Option<ErrorCode> {
    if loan_idx >= ctx.loan_pool.loans@.len() {
        Some(ErrorCode::InvalidLoanIndex)
    } else {
        let loan = ctx.loan_pool.loans@[loan_idx as int];
        if loan.repaid {
            Some(ErrorCode::AlreadyRepaid)
        } else if !ctx.lend_auction.supports(loan.token_mint) {
            Some(ErrorCode::UnsupportedToken)
        } else if ctx.lender_token_account.mint != loan.token_mint {
            Some(ErrorCode::InvalidTokenAccount)
        } else if ctx.vault_collateral_account.mint != loan.collateral_mint {
            Some(ErrorCode::InvalidVaultAccount)
        } else if ctx.liquidator_token_account.mint != loan.token_mint {
            Some(ErrorCode::InvalidTokenAccount)
        } else if loan.repayment_due(current_slot) is None || loan.repayment_due(
            current_slot,
        )->Some_0 == 0 {
            Some(ErrorCode::Overflow)
        } else if loan.health_factor(loan.repayment_due(current_slot)->Some_0)
            > LIQUIDATION_THRESHOLD {
            Some(ErrorCode::LoanNotUnhealthy)
        } else {
            None
        }
    }
}

/// The report of the liquidation of `loan` by `liquidator`, with `due` paid
/// to the lender out of `proceeds`.
pub open spec fn liquidated_event(loan: Loan, liquidator: Pubkey, due: u64, proceeds: u64)
    -> LoanLiquidated {
    LoanLiquidated {
        lender: loan.lender,
        borrower: loan.borrower,
        liquidator,
        amount: due,
        collateral: loan.collateral,
        profit: (proceeds - due) as u64,
        shard_id: loan.shard_id,
        token_mint: loan.token_mint,
        collateral_mint: loan.collateral_mint,
    }
}

/// What the liquidation of `loan` asks the caller to do: to pay `due` to
/// the lender out of the `proceeds` of the sale. The rest of the proceeds is
/// the liquidator's.
pub open spec fn liquidate_outcome(ctx: Liquidate, loan: Loan, due: u64, proceeds: u64)
    -> LiquidateOutcome {
    LiquidateOutcome {
        repayment: transfer_order(
            ctx.liquidator_token_account,
            ctx.lender_token_account,
            loan.token_mint,
            due,
        ),
        event: liquidated_event(loan, ctx.liquidator, due, proceeds),
    }
}

/// What closing a liquidation does, given that the sale of the collateral
/// brought in `proceeds`.
///
/// A loan that may not be liquidated is rejected, and so is one whose sale
/// brought in less than is owed. Else the loan is closed: what is owed goes
/// to the lender and the rest of the proceeds stays with the liquidator.
pub open spec fn liquidation_effect(
    before: Liquidate,
    after: Liquidate,
    loan_idx: u64,
    current_slot: u64,
    proceeds: u64,
    res: Result<LiquidateOutcome, ErrorCode>,
) -> bool {
    let loan = before.loan_pool.loans@[loan_idx as int];
    let due = loan.repayment_due(current_slot)->Some_0;
    if liquidation_rejection(before, loan_idx, current_slot) is Some {
        &&& res is Err
        &&& Some(res->Err_0) == liquidation_rejection(before, loan_idx, current_slot)
        &&& after == before
    } else if proceeds < due {
        &&& res == Err::<LiquidateOutcome, ErrorCode>(ErrorCode::InsufficientSwapProceeds)
        &&& after == before
    } else {
        &&& res == Ok::<LiquidateOutcome, ErrorCode>(
            liquidate_outcome(before, loan, due, proceeds),
        )
        &&& after.loan_pool.loans@ == before.loan_pool.loans@.update(
            loan_idx as int,
            Loan { repaid: true, ..loan },
        )
        &&& after.loan_pool.shard_id == before.loan_pool.shard_id
        &&& after == Liquidate { loan_pool: after.loan_pool, ..before }
    }
}

/// Checks that the loan may be liquidated at `current_slot` and returns
/// what is owed on it.
fn check_liquidation(ctx: &Liquidate, loan_idx: u64, current_slot: u64) -> (res: Result<
    u64,
    ErrorCode,
>)
    ensures
        match res {
            Ok(due) => {
                &&& liquidation_rejection(*ctx, loan_idx, current_slot) is None
                &&& loan_idx < ctx.loan_pool.loans@.len() <= usize::MAX
                &&& Some(due) == ctx.loan_pool.loans@[loan_idx as int].repayment_due(current_slot)
            },
            Err(e) => Some(e) == liquidation_rejection(*ctx, loan_idx, current_slot),
        },
{
    if loan_idx >= ctx.loan_pool.loans.len() as u64 {
        return Err(ErrorCode::InvalidLoanIndex);
    }
    let loan = ctx.loan_pool.loans[loan_idx as usize];
    if loan.repaid {
        return Err(ErrorCode::AlreadyRepaid);
    }
    if !ctx.lend_auction.is_supported(&loan.token_mint) {
        return Err(ErrorCode::UnsupportedToken);
    }
    if ctx.lender_token_account.mint != loan.token_mint {
        return Err(ErrorCode::InvalidTokenAccount);
    }
    if ctx.vault_collateral_account.mint != loan.collateral_mint {
        return Err(ErrorCode::InvalidVaultAccount);
    }
    if ctx.liquidator_token_account.mint != loan.token_mint {
        return Err(ErrorCode::InvalidTokenAccount);
    }
    let due = match loan.repayment(current_slot) {
        Ok(due) => due,
        Err(e) => { return Err(e); },
    };
    let health_factor = match loan.health(due) {
        Ok(health_factor) => health_factor,
        Err(e) => { return Err(e); },
    };
    if health_factor > LIQUIDATION_THRESHOLD as u128 {
        return Err(ErrorCode::LoanNotUnhealthy);
    }
    Ok(due)
}

/// The first step of a liquidation: checks that the loan may be liquidated
/// at `current_slot`, and returns the instruction that sells the whole of
/// its collateral from the vault into the liquidator's account, for no less
/// than `minimum_amount_out`.
pub fn liquidation_swap(
    ctx: &Liquidate,
    loan_idx: u64,
    minimum_amount_out: u64,
    current_slot: u64,
) -> (res: Result<Instruction, ErrorCode>)
    ensures
        match res {
            Ok(swap) => {
                &&& liquidation_rejection(*ctx, loan_idx, current_slot) is None
                &&& swap.program_id == ctx.raydium_amm_program
                &&& swap.data@ == swap_data(
                    ctx.loan_pool.loans@[loan_idx as int].collateral,
                    minimum_amount_out,
                )
                &&& swap.accounts@ == swap_accounts(
                    ctx.amm,
                    ctx.amm_authority,
                    ctx.amm_open_orders,
                    ctx.amm_coin_vault,
                    ctx.amm_pc_vault,
                    ctx.market_program,
                    ctx.market,
                    ctx.market_bids,
                    ctx.market_asks,
                    ctx.market_event_queue,
                    ctx.market_coin_vault,
                    ctx.market_pc_vault,
                    ctx.market_vault_signer,
                    ctx.vault_collateral_account.key,
                    ctx.liquidator_token_account.key,
                    ctx.lend_auction_key,
                )
            },
            Err(e) => Some(e) == liquidation_rejection(*ctx, loan_idx, current_slot),
        },
{
    match check_liquidation(ctx, loan_idx, current_slot) {
        Err(e) => Err(e),
        Ok(_) => {
            let loan = ctx.loan_pool.loans[loan_idx as usize];
            create_raydium_swap_instruction(
                &ctx.raydium_amm_program,
                &ctx.amm,
                &ctx.amm_authority,
                &ctx.amm_open_orders,
                &ctx.amm_coin_vault,
                &ctx.amm_pc_vault,
                &ctx.market_program,
                &ctx.market,
                &ctx.market_bids,
                &ctx.market_asks,
                &ctx.market_event_queue,
                &ctx.market_coin_vault,
                &ctx.market_pc_vault,
                &ctx.market_vault_signer,
                &ctx.vault_collateral_account.key,
                &ctx.liquidator_token_account.key,
                &ctx.lend_auction_key,
                loan.collateral,
                minimum_amount_out,
            )
        },
    }
}

/// The second step of a liquidation, after the collateral was sold for
/// `proceeds`, which are in the liquidator's account: checks the loan once
/// more, checks that the proceeds cover what is owed at `current_slot`, and
/// closes the loan.
///
/// On success the caller pays what is owed from the liquidator's account to
/// the lender. On rejection the caller undoes the sale with everything else.
pub fn process_liquidate(ctx: &mut Liquidate, loan_idx: u64, current_slot: u64, proceeds: u64)
    -> (res: Result<LiquidateOutcome, ErrorCode>)
    ensures
        liquidation_effect(*old(ctx), *final(ctx), loan_idx, current_slot, proceeds, res),
        res is Err ==> *final(ctx) == *old(ctx),
        final(ctx).loan_pool.loans@.len() == old(ctx).loan_pool.loans@.len(),
{
    let due = match check_liquidation(ctx, loan_idx, current_slot) {
        Ok(due) => due,
        Err(e) => { return Err(e); },
    };
    if proceeds < due {
        return Err(ErrorCode::InsufficientSwapProceeds);
    }
    let liquidator_profit = proceeds - due;
    let mut loan = ctx.loan_pool.loans[loan_idx as usize];
    let event = LoanLiquidated {
        lender: loan.lender,
        borrower: loan.borrower,
        liquidator: ctx.liquidator,
        amount: due,
        collateral: loan.collateral,
        profit: liquidator_profit,
        shard_id: loan.shard_id,
        token_mint: loan.token_mint,
        collateral_mint: loan.collateral_mint,
    };
    let repayment = Transfer::between(
        &ctx.liquidator_token_account,
        &ctx.lender_token_account,
        loan.token_mint,
        due,
    );
    loan.repaid = true;
    ctx.loan_pool.loans[loan_idx as usize] = loan;
    Ok(LiquidateOutcome { repayment, event })
}

/// A loan whose collateral is worth more than 120% of what is owed is never
/// liquidated; where the loan is open and the accounts are for its tokens,
/// the reason given is that it is not unhealthy.
pub proof fn lemma_healthy_loan_is_not_liquidated(ctx: Liquidate, loan_idx: u64, current_slot: u64)
    requires
        loan_idx < ctx.loan_pool.loans@.len(),
        ctx.loan_pool.loans@[loan_idx as int].repayment_due(current_slot) matches Some(due)
            && due > 0 && ctx.loan_pool.loans@[loan_idx as int].health_factor(due)
            > LIQUIDATION_THRESHOLD,
    ensures
        liquidation_rejection(ctx, loan_idx, current_slot) is Some,
        ({
            let loan = ctx.loan_pool.loans@[loan_idx as int];
            &&& !loan.repaid
            &&& ctx.lend_auction.supports(loan.token_mint)
            &&& ctx.lender_token_account.mint == loan.token_mint
            &&& ctx.vault_collateral_account.mint == loan.collateral_mint
            &&& ctx.liquidator_token_account.mint == loan.token_mint
        }) ==> liquidation_rejection(ctx, loan_idx, current_slot) == Some(
            ErrorCode::LoanNotUnhealthy,
        ),
{
}

/// A loan that was liquidated cannot be liquidated again.
pub proof fn lemma_liquidate_twice(
    before: Liquidate,
    after: Liquidate,
    loan_idx: u64,
    current_slot: u64,
    proceeds: u64,
    res: Result<LiquidateOutcome, ErrorCode>,
    later_slot: u64,
)
    requires
        liquidation_effect(before, after, loan_idx, current_slot, proceeds, res),
        res is Ok,
    ensures
        liquidation_rejection(after, loan_idx, later_slot) == Some(ErrorCode::AlreadyRepaid),
{
}

} // verus!
