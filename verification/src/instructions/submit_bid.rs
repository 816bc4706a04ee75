//! Submission of a lender's bid.

use vstd::prelude::*;
use crate::errors::ErrorCode;
use crate::events::{issued_events, report_issued, BidSubmitted, LoanIssued};
use crate::pubkey::Pubkey;
use crate::states::{
    loan_payouts, order_payouts, transfer_order, Ask, Bid, LendAuction, Loan, LoanPool, ShardPool,
    TokenAccount, Transfer, MAX_BIDS,
};
use crate::utils::{
    ask_fills_total, asks_after_bid, bid_fills, bid_slot, compute_shard_id, copy_vec,
    insert_sorted_bid, lemma_asks_after_bid_sorted, lemma_bid_fills_bounded, match_bid, shard_of,
};

verus! {

/// The accounts that the submission of a bid works on.
#[derive(Clone, Debug, PartialEq, Eq)]
pub struct SubmitBid {
    pub lend_auction: LendAuction,
    pub shard_pool: ShardPool,
    pub loan_pool: LoanPool,
    /// Who submits the bid.
    pub bidder: Pubkey,
    /// Where the amount to lend comes from.
    pub bidder_token_account: TokenAccount,
    /// Where the amount to lend is held.
    pub vault_token_account: TokenAccount,
    /// Where the borrowers are paid.
    pub borrower_token_account: TokenAccount,
    pub token_mint: Pubkey,
}

/// What became of a bid that was accepted.
#[derive(Clone, Debug, PartialEq, Eq)]
pub enum BidOutcome {
    /// The bid was filled in full; one loan was issued for each fill.
    Matched {
        /// The amount lent, from the bidder into the vault.
        deposit: Transfer,
        /// The amount of each loan, from the vault to the borrower, in the
        /// order of the loans.
        payouts: Vec<Transfer>,
        loans: Vec<LoanIssued>,
    },
    /// The bid found no match and rests in the book.
    Resting {
        /// The amount to lend, from the bidder into the vault.
        deposit: Transfer,
        event: BidSubmitted,
    },
}

/// The order to take what a bid lends into the vault.
pub open spec fn bid_deposit(ctx: SubmitBid, amount: u64) -> Transfer {
    transfer_order(ctx.bidder_token_account, ctx.vault_token_account, ctx.token_mint, amount)
}

/// The bid that a submission stands for.
pub open spec fn submitted_bid(
    ctx: SubmitBid,
    amount: u64,
    min_rate: u8,
    duration_slots: u64,
    current_slot: u64,
) -> Bid {
    Bid {
        lender: ctx.bidder,
        amount,
        min_rate,
        slot: current_slot,
        token_mint: ctx.token_mint,
        duration_slots,
    }
}

/// Why a bid is turned away before it is matched, if it is: the first of
/// the checks that it fails.
pub open spec fn bid_rejection(ctx: SubmitBid, shard_id: u64, amount: u64, duration_slots: u64)
    -> Option<ErrorCode> {
    if amount == 0 {
        Some(ErrorCode::InvalidAmount)
    } else if duration_slots == 0 {
        Some(ErrorCode::InvalidDuration)
    } else if !ctx.lend_auction.supports(ctx.token_mint) {
        Some(ErrorCode::UnsupportedToken)
    } else if ctx.bidder_token_account.mint != ctx.token_mint {
        Some(ErrorCode::InvalidTokenAccount)
    } else if ctx.vault_token_account.mint != ctx.token_mint {
        Some(ErrorCode::InvalidVaultAccount)
    } else if ctx.shard_pool.shard_id != shard_id || ctx.loan_pool.shard_id != shard_id {
        Some(ErrorCode::ShardMismatch)
    } else {
        None
    }
}

/// The loan that one fill of an incoming bid makes. It is backed by the
/// whole collateral of the ask that was matched.
pub open spec fn loan_for_bid_fill(bid: Bid, fill: (Ask, u8), shard_id: u64, current_slot: u64)
    -> Loan {
    Loan {
        lender: bid.lender,
        borrower: fill.0.borrower,
        amount: fill.0.amount,
        rate: fill.1,
        collateral: fill.0.collateral,
        repaid: false,
        shard_id,
        token_mint: bid.token_mint,
        collateral_mint: fill.0.collateral_mint,
        start_slot: current_slot,
        duration_slots: bid.duration_slots,
    }
}

/// Why one fill of an incoming bid cannot become a loan, if it cannot.
pub open spec fn bid_fill_rejection(fill: (Ask, u8)) -> Option<ErrorCode> {
    if fill.0.amount * 15 > u64::MAX {
        Some(ErrorCode::Overflow)
    } else if fill.0.collateral * 10 < fill.0.amount * 15 {
        Some(ErrorCode::InsufficientCollateral)
    } else {
        None
    }
}

/// Why the fills of an incoming bid cannot all become loans, if they cannot:
/// the rejection of the first fill that has one.
pub open spec fn bid_fills_rejection(fills: Seq<(Ask, u8)>) -> Option<ErrorCode>
    decreases fills.len(),
{
    if fills.len() == 0 {
        None
    } else if bid_fill_rejection(fills[0]) is Some {
        bid_fill_rejection(fills[0])
    } else {
        bid_fills_rejection(fills.drop_first())
    }
}

/// The loans that the fills of an incoming bid make, in the order of the
/// fills.
pub open spec fn bid_loans(bid: Bid, fills: Seq<(Ask, u8)>, shard_id: u64, current_slot: u64)
    -> Seq<Loan> {
    Seq::new(fills.len(), |i: int| loan_for_bid_fill(bid, fills[i], shard_id, current_slot))
}

/// The report of a bid that rests in the book of shard `shard_id`.
pub open spec fn resting_bid_event(bid: Bid, shard_id: u64) -> BidSubmitted {
    BidSubmitted {
        lender: bid.lender,
        amount: bid.amount,
        min_rate: bid.min_rate,
        shard_id,
        token_mint: bid.token_mint,
    }
}

/// Why a bid that found fills is turned away all the same, if it is: a fill
/// that cannot become a loan, fills that do not add up to the bid's amount,
/// or a loan counter that would run over.
pub open spec fn bid_match_rejection(ctx: SubmitBid, bid: Bid, fills: Seq<(Ask, u8)>) -> Option<
    ErrorCode,
> {
    if bid_fills_rejection(fills) is Some {
        bid_fills_rejection(fills)
    } else if ask_fills_total(fills) != bid.amount {
        Some(ErrorCode::PartialMatchNotAllowed)
    } else if ctx.lend_auction.total_loans + fills.len() > u64::MAX {
        Some(ErrorCode::Overflow)
    } else {
        None
    }
}

/// The state after a bid came to rest in the book.
pub open spec fn bid_rested(before: SubmitBid, after: SubmitBid, bid: Bid) -> bool {
    &&& after.shard_pool.bids@ == before.shard_pool.bids@.insert(
        bid_slot(before.shard_pool.bids@, bid.min_rate),
        bid,
    )
    &&& after.shard_pool.asks == before.shard_pool.asks
    &&& after.shard_pool.shard_id == before.shard_pool.shard_id
    &&& after == SubmitBid { shard_pool: after.shard_pool, ..before }
}

/// The state after a bid was filled in full and `loans` were issued for it:
/// the matched asks have left the book, the loans are at the end of the
/// ledger and the auction has counted them.
pub open spec fn bid_settled(before: SubmitBid, after: SubmitBid, bid: Bid, loans: Seq<Loan>)
    -> bool {
    &&& after.shard_pool.asks@ == asks_after_bid(bid, before.shard_pool.asks@, bid.amount)
    &&& after.shard_pool.bids == before.shard_pool.bids
    &&& after.shard_pool.shard_id == before.shard_pool.shard_id
    &&& after.loan_pool.loans@ == before.loan_pool.loans@ + loans
    &&& after.loan_pool.shard_id == before.loan_pool.shard_id
    &&& after.lend_auction == LendAuction {
        total_loans: (before.lend_auction.total_loans + loans.len()) as u64,
        ..before.lend_auction
    }
    &&& after == SubmitBid {
        shard_pool: after.shard_pool,
        loan_pool: after.loan_pool,
        lend_auction: after.lend_auction,
        ..before
    }
}

/// What the submission of a bid to shard `shard_id` does.
///
/// A bid that fails a check is rejected. One that matches no ask comes to
/// rest in the book, unless the book would then be full. One that matches is filled from the front of the asks:
/// either the fills cover it in full and each becomes a loan, or it is
/// rejected. A rejection leaves everything as it was.
pub open spec fn bid_submission(
    before: SubmitBid,
    after: SubmitBid,
    shard_id: u64,
    amount: u64,
    min_rate: u8,
    duration_slots: u64,
    current_slot: u64,
    res: Result<BidOutcome, ErrorCode>,
) -> bool {
    let bid = submitted_bid(before, amount, min_rate, duration_slots, current_slot);
    let fills = bid_fills(bid, before.shard_pool.asks@, amount);
    let loans = bid_loans(bid, fills, shard_id, current_slot);
    if bid_rejection(before, shard_id, amount, duration_slots) is Some {
        &&& res is Err
        &&& Some(res->Err_0) == bid_rejection(before, shard_id, amount, duration_slots)
        &&& after == before
    } else if fills.len() == 0 && before.shard_pool.bids@.len() + 1 >= MAX_BIDS {
        &&& res == Err::<BidOutcome, ErrorCode>(ErrorCode::PoolFull)
        &&& after == before
    } else if fills.len() == 0 {
        &&& res matches Ok(BidOutcome::Resting { deposit, event })
        &&& deposit == bid_deposit(before, amount)
        &&& event == resting_bid_event(bid, shard_id)
        &&& bid_rested(before, after, bid)
    } else if bid_match_rejection(before, bid, fills) is Some {
        &&& res is Err
        &&& Some(res->Err_0) == bid_match_rejection(before, bid, fills)
        &&& after == before
    } else {
        &&& res matches Ok(BidOutcome::Matched { deposit, payouts, loans: events })
        &&& deposit == bid_deposit(before, amount)
        &&& payouts@ == loan_payouts(
            before.vault_token_account,
            before.borrower_token_account,
            loans,
        )
        &&& events@ == issued_events(loans)
        &&& bid_settled(before, after, bid, loans)
    }
}

/// Turns the fills of an incoming bid into loans, each backed by the
/// collateral of its ask, and checks that they cover the bid in full.
fn loans_for_bid(bid: &Bid, fills: &Vec<(Ask, u8)>, shard_id: u64, current_slot: u64) -> (res:
    Result<Vec<Loan>, ErrorCode>)
    requires
        ask_fills_total(fills@) <= bid.amount,
    ensures
        match res {
            Ok(loans) => {
                &&& bid_fills_rejection(fills@) is None
                &&& ask_fills_total(fills@) == bid.amount
                &&& loans@ == bid_loans(*bid, fills@, shard_id, current_slot)
            },
            Err(e) => {
                &&& bid_fills_rejection(fills@) is Some ==> Some(e) == bid_fills_rejection(fills@)
                &&& bid_fills_rejection(fills@) is None ==> e
                    == ErrorCode::PartialMatchNotAllowed && ask_fills_total(fills@) != bid.amount
            },
        },
{
    let mut loans: Vec<Loan> = Vec::new();
    let mut total_matched: u64 = 0;
    let mut k: usize = 0;
    assert(fills@.skip(0) =~= fills@);
    while k < fills.len()
        invariant
            k <= fills@.len(),
            ask_fills_total(fills@) <= bid.amount,
            total_matched + ask_fills_total(fills@.skip(k as int)) == ask_fills_total(fills@),
            bid_fills_rejection(fills@) == bid_fills_rejection(fills@.skip(k as int)),
            loans@ == bid_loans(*bid, fills@.take(k as int), shard_id, current_slot),
        decreases fills@.len() - k,
    {
        let (ask, rate) = fills[k];
        let ghost rest = fills@.skip(k as int);
        assert(rest[0] == fills@[k as int]);
        assert(rest.drop_first() =~= fills@.skip(k + 1));
        let loan_amount = ask.amount;
        let loan = Loan {
            lender: bid.lender,
            borrower: ask.borrower,
            amount: loan_amount,
            rate,
            collateral: ask.collateral,
            repaid: false,
            shard_id,
            token_mint: bid.token_mint,
            collateral_mint: ask.collateral_mint,
            start_slot: current_slot,
            duration_slots: bid.duration_slots,
        };
        let required = match loan_amount.checked_mul(15) {
            Some(product) => product,
            None => { return Err(ErrorCode::Overflow); },
        };
        if (ask.collateral as u128) * 10 < required as u128 {
            return Err(ErrorCode::InsufficientCollateral);
        }
        total_matched = total_matched + loan_amount;
        loans.push(loan);
        assert(loans@ =~= bid_loans(*bid, fills@.take(k + 1), shard_id, current_slot));
        k += 1;
    }
    if total_matched != bid.amount {
        return Err(ErrorCode::PartialMatchNotAllowed);
    }
    assert(fills@.take(fills@.len() as int) =~= fills@);
    Ok(loans)
}

/// Every loan made of fills that were not rejected is backed by at least
/// 150% of its amount.
pub proof fn lemma_bid_loans_collateralized(
    bid: Bid,
    fills: Seq<(Ask, u8)>,
    shard_id: u64,
    current_slot: u64,
)
    requires
        bid_fills_rejection(fills) is None,
    ensures
        forall|i: int|
            0 <= i < fills.len() ==> (#[trigger] bid_loans(
                bid,
                fills,
                shard_id,
                current_slot,
            )[i]).collateralized(),
    decreases fills.len(),
{
    if fills.len() > 0 {
        let tail = fills.drop_first();
        lemma_bid_loans_collateralized(bid, tail, shard_id, current_slot);
        assert forall|i: int| 0 <= i < fills.len() implies (#[trigger] bid_loans(
            bid,
            fills,
            shard_id,
            current_slot,
        )[i]).collateralized() by {
            if i > 0 {
                assert(fills[i] == tail[i - 1]);
                assert(bid_loans(bid, fills, shard_id, current_slot)[i] == bid_loans(
                    bid,
                    tail,
                    shard_id,
                    current_slot,
                )[i - 1]);
            }
        }
    }
}

/// Submits a bid to the shard `shard_id`, whose book and ledger `ctx` holds.
///
/// The bid is checked, then matched against the asks of the book. Where it
/// matches nothing it comes to rest in the book, and is rejected where the
/// book has no room for it. Where it matches, the fills
/// must cover it in full and every loan must be backed by at least 150% of
/// its amount; else the submission is rejected and nothing has changed.
pub fn submit_bid_in_shard(
    ctx: &mut SubmitBid,
    shard_id: u64,
    amount: u64,
    min_rate: u8,
    duration_slots: u64,
    current_slot: u64,
) -> (res: Result<BidOutcome, ErrorCode>)
    requires
        old(ctx).shard_pool.wf(),
    ensures
        bid_submission(
            *old(ctx),
            *final(ctx),
            shard_id,
            amount,
            min_rate,
            duration_slots,
            current_slot,
            res,
        ),
        final(ctx).shard_pool.wf(),
        res is Err ==> *final(ctx) == *old(ctx),
        res matches Ok(BidOutcome::Matched { .. }) ==> ask_fills_total(
            bid_fills(
                submitted_bid(*old(ctx), amount, min_rate, duration_slots, current_slot),
                old(ctx).shard_pool.asks@,
                amount,
            ),
        ) == amount,
        forall|i: int|
            old(ctx).loan_pool.loans@.len() <= i < final(ctx).loan_pool.loans@.len() ==> (
            #[trigger] final(ctx).loan_pool.loans@[i]).collateralized(),
        forall|i: int|
            0 <= i < old(ctx).loan_pool.loans@.len() ==> final(ctx).loan_pool.loans@[i] == old(
                ctx,
            ).loan_pool.loans@[i],
{
    if amount == 0 {
        return Err(ErrorCode::InvalidAmount);
    }
    if duration_slots == 0 {
        return Err(ErrorCode::InvalidDuration);
    }
    if !ctx.lend_auction.is_supported(&ctx.token_mint) {
        return Err(ErrorCode::UnsupportedToken);
    }
    if ctx.bidder_token_account.mint != ctx.token_mint {
        return Err(ErrorCode::InvalidTokenAccount);
    }
    if ctx.vault_token_account.mint != ctx.token_mint {
        return Err(ErrorCode::InvalidVaultAccount);
    }
    if ctx.shard_pool.shard_id != shard_id || ctx.loan_pool.shard_id != shard_id {
        return Err(ErrorCode::ShardMismatch);
    }
    let bid = Bid {
        lender: ctx.bidder,
        amount,
        min_rate,
        slot: current_slot,
        token_mint: ctx.token_mint,
        duration_slots,
    };
    let deposit = Transfer::between(
        &ctx.bidder_token_account,
        &ctx.vault_token_account,
        ctx.token_mint,
        amount,
    );
    let mut asks = copy_vec(&ctx.shard_pool.asks);
    let fills = match match_bid(&bid, &mut asks) {
        Ok(fills) => fills,
        Err(e) => { return Err(e); },
    };
    proof {
        lemma_bid_fills_bounded(bid, ctx.shard_pool.asks@, amount);
        lemma_asks_after_bid_sorted(bid, ctx.shard_pool.asks@, amount);
    }
    if fills.len() == 0 {
        if ctx.shard_pool.bids.len() >= MAX_BIDS - 1 {
            return Err(ErrorCode::PoolFull);
        }
        insert_sorted_bid(&mut ctx.shard_pool, bid);
        return Ok(
            BidOutcome::Resting {
                deposit,
                event: BidSubmitted {
                    lender: bid.lender,
                    amount,
                    min_rate,
                    shard_id,
                    token_mint: bid.token_mint,
                },
            },
        );
    }
    let mut loans = match loans_for_bid(&bid, &fills, shard_id, current_slot) {
        Ok(loans) => loans,
        Err(e) => { return Err(e); },
    };
    let issued: u64 = loans.len() as u64;
    let total_loans = match ctx.lend_auction.total_loans.checked_add(issued) {
        Some(total) => total,
        None => { return Err(ErrorCode::Overflow); },
    };
    let events = report_issued(&loans);
    let payouts = order_payouts(&ctx.vault_token_account, &ctx.borrower_token_account, &loans);
    proof {
        lemma_bid_loans_collateralized(bid, fills@, shard_id, current_slot);
    }
    ctx.shard_pool.asks = asks;
    ctx.loan_pool.loans.append(&mut loans);
    ctx.lend_auction.total_loans = total_loans;
    Ok(BidOutcome::Matched { deposit, payouts, loans: events })
}

/// Submits a bid of `amount` at no less than `min_rate`, for loans of
/// `duration_slots`, to the shard that its token and rate route to.
///
/// On success the caller takes the amount into custody and, for each loan
/// issued, pays the loan's amount out to the borrower.
pub fn process_submit_bid(
    ctx: &mut SubmitBid,
    amount: u64,
    min_rate: u8,
    duration_slots: u64,
    current_slot: u64,
) -> (res: Result<BidOutcome, ErrorCode>)
    requires
        old(ctx).lend_auction.shard_count > 0,
        old(ctx).shard_pool.wf(),
    ensures
        bid_submission(
            *old(ctx),
            *final(ctx),
            shard_of(old(ctx).token_mint, min_rate, old(ctx).lend_auction.shard_count) as u64,
            amount,
            min_rate,
            duration_slots,
            current_slot,
            res,
        ),
        final(ctx).shard_pool.wf(),
        res is Err ==> *final(ctx) == *old(ctx),
        res matches Ok(BidOutcome::Matched { .. }) ==> ask_fills_total(
            bid_fills(
                submitted_bid(*old(ctx), amount, min_rate, duration_slots, current_slot),
                old(ctx).shard_pool.asks@,
                amount,
            ),
        ) == amount,
        forall|i: int|
            old(ctx).loan_pool.loans@.len() <= i < final(ctx).loan_pool.loans@.len() ==> (
            #[trigger] final(ctx).loan_pool.loans@[i]).collateralized(),
        forall|i: int|
            0 <= i < old(ctx).loan_pool.loans@.len() ==> final(ctx).loan_pool.loans@[i] == old(
                ctx,
            ).loan_pool.loans@[i],
{
    let shard_id = compute_shard_id(&ctx.token_mint, min_rate, ctx.lend_auction.shard_count);
    submit_bid_in_shard(ctx, shard_id, amount, min_rate, duration_slots, current_slot)
}

} // verus!
