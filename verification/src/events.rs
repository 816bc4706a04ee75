//! What the exchange reports of each operation that went through. Every
//! record also tells the caller which amounts are to be moved.

use vstd::prelude::*;
use crate::pubkey::Pubkey;
use crate::states::Loan;

verus! {

/// The auction was set up.
#[derive(Clone, Debug, PartialEq, Eq)]
pub struct AuctionInitialized {
    pub admin: Pubkey,
    pub shard_count: u64,
    pub supported_tokens: Vec<Pubkey>,
}

/// A bid found no match and rests in the book; `amount` is held for it.
#[derive(Clone, Copy, Debug, PartialEq, Eq)]
pub struct BidSubmitted {
    pub lender: Pubkey,
    pub amount: u64,
    pub min_rate: u8,
    pub shard_id: u64,
    pub token_mint: Pubkey,
}

/// An ask found no match and rests in the book.
#[derive(Clone, Copy, Debug, PartialEq, Eq)]
pub struct AskSubmitted {
    pub borrower: Pubkey,
    pub amount: u64,
    pub max_rate: u8,
    pub shard_id: u64,
    pub token_mint: Pubkey,
    pub collateral_mint: Pubkey,
}

/// A loan was issued; `amount` goes to the borrower.
#[derive(Clone, Copy, Debug, PartialEq, Eq)]
pub struct LoanIssued {
    pub lender: Pubkey,
    pub borrower: Pubkey,
    pub amount: u64,
    pub rate: u8,
    pub shard_id: u64,
    pub token_mint: Pubkey,
    pub collateral_mint: Pubkey,
}

/// A loan was repaid; `amount`, principal and interest, goes to the lender.
#[derive(Clone, Copy, Debug, PartialEq, Eq)]
pub struct LoanRepaid {
    pub lender: Pubkey,
    pub borrower: Pubkey,
    pub amount: u64,
    pub shard_id: u64,
    pub token_mint: Pubkey,
    pub collateral_mint: Pubkey,
}

/// A loan was liquidated: its `collateral` was sold, `amount` goes to the
/// lender and `profit` stays with the liquidator.
#[derive(Clone, Copy, Debug, PartialEq, Eq)]
pub struct LoanLiquidated {
    pub lender: Pubkey,
    pub borrower: Pubkey,
    pub liquidator: Pubkey,
    pub amount: u64,
    pub collateral: u64,
    pub profit: u64,
    pub shard_id: u64,
    pub token_mint: Pubkey,
    pub collateral_mint: Pubkey,
}

/// A stale bid left the book: `refund_amount` goes back to the lender and
/// `fee_amount` to the fee vault.
#[derive(Clone, Copy, Debug, PartialEq, Eq)]
pub struct BidExpired {
    pub lender: Pubkey,
    pub amount: u64,
    pub refund_amount: u64,
    pub fee_amount: u64,
    pub shard_id: u64,
    pub token_mint: Pubkey,
}

/// A stale ask left the book: of its collateral, `refund_amount` goes back
/// to the borrower and `fee_amount` to the fee vault.
#[derive(Clone, Copy, Debug, PartialEq, Eq)]
pub struct AskExpired {
    pub borrower: Pubkey,
    pub amount: u64,
    pub refund_amount: u64,
    pub fee_amount: u64,
    pub shard_id: u64,
    pub token_mint: Pubkey,
    pub collateral_mint: Pubkey,
}

/// The administrator took `amount` out of a fee vault.
#[derive(Clone, Copy, Debug, PartialEq, Eq)]
pub struct FeesWithdrawn {
    pub admin: Pubkey,
    pub shard_id: u64,
    pub amount: u64,
    pub token_mint: Pubkey,
}

/// The report of a loan that was issued.
pub open spec fn issued_event(loan: Loan) -> LoanIssued {
    LoanIssued {
        lender: loan.lender,
        borrower: loan.borrower,
        amount: loan.amount,
        rate: loan.rate,
        shard_id: loan.shard_id,
        token_mint: loan.token_mint,
        collateral_mint: loan.collateral_mint,
    }
}

/// The reports of the loans that were issued, in their order.
pub open spec fn issued_events(loans: Seq<Loan>) -> Seq<LoanIssued> {
    Seq::new(loans.len(), |i: int| issued_event(loans[i]))
}

/// The reports of `loans`, in their order.
pub fn report_issued(loans: &Vec<Loan>) -> (events: Vec<LoanIssued>)
    ensures
        events@ == issued_events(loans@),
{
    let mut events: Vec<LoanIssued> = Vec::with_capacity(loans.len());
    let mut k: usize = 0;
    while k < loans.len()
        invariant
            k <= loans@.len(),
            events@ == issued_events(loans@.take(k as int)),
        decreases loans@.len() - k,
    {
        let loan = loans[k];
        events.push(
            LoanIssued {
                lender: loan.lender,
                borrower: loan.borrower,
                amount: loan.amount,
                rate: loan.rate,
                shard_id: loan.shard_id,
                token_mint: loan.token_mint,
                collateral_mint: loan.collateral_mint,
            },
        );
        assert(events@ =~= issued_events(loans@.take(k + 1)));
        k += 1;
    }
    assert(loans@.take(loans@.len() as int) =~= loans@);
    events
}

} // verus!
