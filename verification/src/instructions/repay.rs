//! Repayment of a loan by its borrower.

use vstd::prelude::*;
use crate::errors::ErrorCode;
use crate::events::LoanRepaid;
use crate::pubkey::Pubkey;
use crate::states::{transfer_order, LendAuction, Loan, LoanPool, TokenAccount, Transfer};

verus! {

/// The accounts that a repayment works on.
#[derive(Clone, Debug, PartialEq, Eq)]
pub struct Repay {
    pub lend_auction: LendAuction,
    pub loan_pool: LoanPool,
    /// Who repays.
    pub borrower: Pubkey,
    /// Where the repayment comes from.
    pub borrower_token_account: TokenAccount,
    /// Where the collateral goes back to.
    pub borrower_collateral_account: TokenAccount,
    /// Where the lender is paid.
    pub lender_token_account: TokenAccount,
    /// Where the collateral is held.
    pub vault_collateral_account: TokenAccount,
}

/// What a repayment that went through asks the caller to do.
#[derive(Clone, Copy, Debug, PartialEq, Eq)]
pub struct RepayOutcome {
    /// What is owed, from the borrower to the lender.
    pub repayment: Transfer,
    /// The loan's collateral, from the vault back to the borrower.
    pub collateral_release: Transfer,
    pub event: LoanRepaid,
}

/// Why a repayment is rejected, if it is: the first of the checks that it
/// fails. A loan is repaid by its borrower, once, in its own token, with
/// what is owed at `current_slot`.
pub open spec fn repay_rejection(ctx: Repay, loan_idx: u64, current_slot: u64) -> Option<
    ErrorCode,
> {
    if loan_idx >= ctx.loan_pool.loans@.len() {
        Some(ErrorCode::InvalidLoanIndex)
    } else {
        let loan = ctx.loan_pool.loans@[loan_idx as int];
        if loan.repaid {
            Some(ErrorCode::AlreadyRepaid)
        } else if loan.borrower != ctx.borrower {
            Some(ErrorCode::Unauthorized)
        } else if !ctx.lend_auction.supports(loan.token_mint) {
            Some(ErrorCode::UnsupportedToken)
        } else if ctx.borrower_token_account.mint != loan.token_mint {
            Some(ErrorCode::InvalidRepaymentToken)
        } else if ctx.lender_token_account.mint != loan.token_mint {
            Some(ErrorCode::InvalidTokenAccount)
        } else if ctx.vault_collateral_account.mint != loan.collateral_mint {
            Some(ErrorCode::InvalidVaultAccount)
        } else if loan.repayment_due(current_slot) is None {
            Some(ErrorCode::Overflow)
        } else {
            None
        }
    }
}

/// The report of the repayment of `loan` with `due`.
pub open spec fn repaid_event(loan: Loan, due: u64) -> LoanRepaid {
    LoanRepaid {
        lender: loan.lender,
        borrower: loan.borrower,
        amount: due,
        shard_id: loan.shard_id,
        token_mint: loan.token_mint,
        collateral_mint: loan.collateral_mint,
    }
}

/// What the repayment of `loan` with `due` asks the caller to do: to pay
/// `due` to the lender and to give the collateral back to the borrower.
pub open spec fn repay_outcome(ctx: Repay, loan: Loan, due: u64) -> RepayOutcome {
    RepayOutcome {
        repayment: transfer_order(
            ctx.borrower_token_account,
            ctx.lender_token_account,
            loan.token_mint,
            due,
        ),
        collateral_release: transfer_order(
            ctx.vault_collateral_account,
            ctx.borrower_collateral_account,
            loan.collateral_mint,
            loan.collateral,
        ),
        event: repaid_event(loan, due),
    }
}

/// What a repayment at `current_slot` does: it is rejected and nothing
/// changes, or the loan is marked repaid, for good, and nothing else
/// changes.
pub open spec fn repayment_effect(
    before: Repay,
    after: Repay,
    loan_idx: u64,
    current_slot: u64,
    res: Result<RepayOutcome, ErrorCode>,
) -> bool {
    let loan = before.loan_pool.loans@[loan_idx as int];
    if repay_rejection(before, loan_idx, current_slot) is Some {
        &&& res is Err
        &&& Some(res->Err_0) == repay_rejection(before, loan_idx, current_slot)
        &&& after == before
    } else {
        &&& res == Ok::<RepayOutcome, ErrorCode>(
            repay_outcome(before, loan, loan.repayment_due(current_slot)->Some_0),
        )
        &&& after.loan_pool.loans@ == before.loan_pool.loans@.update(
            loan_idx as int,
            Loan { repaid: true, ..loan },
        )
        &&& after.loan_pool.shard_id == before.loan_pool.shard_id
        &&& after == Repay { loan_pool: after.loan_pool, ..before }
    }
}

/// Repays the loan at `loan_idx` in full, with the interest that has
/// accrued at `current_slot`.
///
/// On success the caller moves what is owed from the borrower to the
/// lender, and the loan's collateral from the vault back to the borrower.
pub fn process_repay(ctx: &mut Repay, loan_idx: u64, current_slot: u64) -> (res: Result<
    RepayOutcome,
    ErrorCode,
>)
    ensures
        repayment_effect(*old(ctx), *final(ctx), loan_idx, current_slot, res),
        res is Err ==> *final(ctx) == *old(ctx),
        final(ctx).loan_pool.loans@.len() == old(ctx).loan_pool.loans@.len(),
{
    if loan_idx >= ctx.loan_pool.loans.len() as u64 {
        return Err(ErrorCode::InvalidLoanIndex);
    }
    let mut loan = ctx.loan_pool.loans[loan_idx as usize];
    if loan.repaid {
        return Err(ErrorCode::AlreadyRepaid);
    }
    if loan.borrower != ctx.borrower {
        return Err(ErrorCode::Unauthorized);
    }
    if !ctx.lend_auction.is_supported(&loan.token_mint) {
        return Err(ErrorCode::UnsupportedToken);
    }
    if ctx.borrower_token_account.mint != loan.token_mint {
        return Err(ErrorCode::InvalidRepaymentToken);
    }
    if ctx.lender_token_account.mint != loan.token_mint {
        return Err(ErrorCode::InvalidTokenAccount);
    }
    if ctx.vault_collateral_account.mint != loan.collateral_mint {
        return Err(ErrorCode::InvalidVaultAccount);
    }
    let due = match loan.repayment(current_slot) {
        Ok(due) => due,
        Err(e) => { return Err(e); },
    };
    let event = LoanRepaid {
        lender: loan.lender,
        borrower: loan.borrower,
        amount: due,
        shard_id: loan.shard_id,
        token_mint: loan.token_mint,
        collateral_mint: loan.collateral_mint,
    };
    let repayment = Transfer::between(
        &ctx.borrower_token_account,
        &ctx.lender_token_account,
        loan.token_mint,
        due,
    );
    let collateral_release = Transfer::between(
        &ctx.vault_collateral_account,
        &ctx.borrower_collateral_account,
        loan.collateral_mint,
        loan.collateral,
    );
    loan.repaid = true;
    ctx.loan_pool.loans[loan_idx as usize] = loan;
    Ok(RepayOutcome { repayment, collateral_release, event })
}

/// A loan that was repaid cannot be repaid again: whoever tries, and
/// whenever, is told that it is already repaid.
pub proof fn lemma_repay_twice(
    before: Repay,
    after: Repay,
    loan_idx: u64,
    current_slot: u64,
    res: Result<RepayOutcome, ErrorCode>,
    again: Repay,
    later_slot: u64,
)
    requires
        repayment_effect(before, after, loan_idx, current_slot, res),
        res is Ok,
        again.loan_pool == after.loan_pool,
    ensures
        repay_rejection(again, loan_idx, later_slot) == Some(ErrorCode::AlreadyRepaid),
{
}

/// A repayment changes no loan but the one repaid, and of that one only
/// the mark that it is repaid.
pub proof fn lemma_repay_touches_one_loan(
    before: Repay,
    after: Repay,
    loan_idx: u64,
    current_slot: u64,
    res: Result<RepayOutcome, ErrorCode>,
    other: int,
)
    requires
        repayment_effect(before, after, loan_idx, current_slot, res),
        0 <= other < before.loan_pool.loans@.len(),
        other != loan_idx || res is Err,
    ensures
        after.loan_pool.loans@[other] == before.loan_pool.loans@[other],
{
}

} // verus!
