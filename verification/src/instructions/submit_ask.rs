//! Submission of a borrower's ask.

use vstd::prelude::*;
use crate::errors::ErrorCode;
use crate::events::{issued_events, report_issued, AskSubmitted, LoanIssued};
use crate::pubkey::Pubkey;
use crate::states::{
    loan_payouts, order_payouts, transfer_order, Ask, Bid, LendAuction, Loan, LoanPool, ShardPool,
    TokenAccount, Transfer, MAX_ASKS,
};
use crate::utils::{
    ask_fills, ask_slot, bid_fills_total, bids_after_ask, compute_shard_id, copy_vec,
    insert_sorted_ask, lemma_ask_fills_bounded, lemma_bids_after_ask_sorted, match_ask, shard_of,
};

verus! {

/// The accounts that the submission of an ask works on.
#[derive(Clone, Debug, PartialEq, Eq)]
pub struct SubmitAsk {
    pub lend_auction: LendAuction,
    pub shard_pool: ShardPool,
    pub loan_pool: LoanPool,
    /// Who submits the ask.
    pub asker: Pubkey,
    /// Where the collateral comes from.
    pub asker_collateral_account: TokenAccount,
    /// Where the collateral is held.
    pub vault_collateral_account: TokenAccount,
    /// Where the amounts lent are held.
    pub vault_token_account: TokenAccount,
    /// Where the borrower is paid.
    pub borrower_token_account: TokenAccount,
    pub token_mint: Pubkey,
    pub collateral_mint: Pubkey,
}

/// What became of an ask that was accepted.
#[derive(Clone, Debug, PartialEq, Eq)]
pub enum AskOutcome {
    /// The ask was filled in full; one loan was issued for each fill.
    Matched {
        /// The collateral, from the asker into the collateral vault.
        deposit: Transfer,
        /// The amount of each loan, from the vault to the borrower, in the
        /// order of the loans.
        payouts: Vec<Transfer>,
        loans: Vec<LoanIssued>,
    },
    /// The ask found no match and rests in the book.
    Resting {
        /// The collateral, from the asker into the collateral vault.
        deposit: Transfer,
        event: AskSubmitted,
    },
}

/// The order to take the collateral of an ask into the collateral vault.
pub open spec fn ask_deposit(ctx: SubmitAsk, collateral: u64) -> Transfer {
    transfer_order(
        ctx.asker_collateral_account,
        ctx.vault_collateral_account,
        ctx.collateral_mint,
        collateral,
    )
}

/// The ask that a submission stands for.
pub open spec fn submitted_ask(
    ctx: SubmitAsk,
    amount: u64,
    max_rate: u8,
    collateral: u64,
    current_slot: u64,
) -> Ask {
    Ask {
        borrower: ctx.asker,
        amount,
        max_rate,
        collateral,
        slot: current_slot,
        token_mint: ctx.token_mint,
        collateral_mint: ctx.collateral_mint,
    }
}

/// Why an ask is turned away before it is matched, if it is: the first of
/// the checks that it fails.
pub open spec fn ask_rejection(ctx: SubmitAsk, shard_id: u64, amount: u64, collateral: u64)
    -> Option<ErrorCode> {
    if amount == 0 {
        Some(ErrorCode::InvalidAmount)
    } else if collateral == 0 {
        Some(ErrorCode::InvalidCollateral)
    } else if !ctx.lend_auction.supports(ctx.token_mint) {
        Some(ErrorCode::UnsupportedToken)
    } else if !ctx.lend_auction.supports(ctx.collateral_mint) {
        Some(ErrorCode::UnsupportedCollateral)
    } else if ctx.asker_collateral_account.mint != ctx.collateral_mint {
        Some(ErrorCode::InvalidTokenAccount)
    } else if ctx.vault_collateral_account.mint != ctx.collateral_mint {
        Some(ErrorCode::InvalidVaultAccount)
    } else if ctx.shard_pool.shard_id != shard_id || ctx.loan_pool.shard_id != shard_id {
        Some(ErrorCode::ShardMismatch)
    } else {
        None
    }
}

/// The share of an ask's collateral that backs `matched` of its amount,
/// rounded down.
pub open spec fn collateral_share(ask: Ask, matched: u64) -> int
    recommends
        ask.amount > 0,
{
    (ask.collateral * matched) / (ask.amount as int)
}

/// The loan that one fill of an incoming ask makes.
pub open spec fn loan_for_ask_fill(ask: Ask, fill: (Bid, u8), shard_id: u64, current_slot: u64)
    -> Loan {
    Loan {
        lender: fill.0.lender,
        borrower: ask.borrower,
        amount: fill.0.amount,
        rate: fill.1,
        collateral: collateral_share(ask, fill.0.amount) as u64,
        repaid: false,
        shard_id,
        token_mint: ask.token_mint,
        collateral_mint: ask.collateral_mint,
        start_slot: current_slot,
        duration_slots: fill.0.duration_slots,
    }
}

/// Why one fill of an incoming ask cannot become a loan, if it cannot.
pub open spec fn ask_fill_rejection(ask: Ask, fill: (Bid, u8)) -> Option<ErrorCode> {
    if ask.amount == 0 || ask.collateral * fill.0.amount > u64::MAX || fill.0.amount * 15
        > u64::MAX {
        Some(ErrorCode::Overflow)
    } else if collateral_share(ask, fill.0.amount) * 10 < fill.0.amount * 15 {
        Some(ErrorCode::InsufficientCollateral)
    } else {
        None
    }
}

/// Why the fills of an incoming ask cannot all become loans, if they cannot:
/// the rejection of the first fill that has one.
pub open spec fn ask_fills_rejection(ask: Ask, fills: Seq<(Bid, u8)>) -> Option<ErrorCode>
    decreases fills.len(),
{
    if fills.len() == 0 {
        None
    } else if ask_fill_rejection(ask, fills[0]) is Some {
        ask_fill_rejection(ask, fills[0])
    } else {
        ask_fills_rejection(ask, fills.drop_first())
    }
}

/// The loans that the fills of an incoming ask make, in the order of the
/// fills.
pub open spec fn ask_loans(ask: Ask, fills: Seq<(Bid, u8)>, shard_id: u64, current_slot: u64)
    -> Seq<Loan> {
    Seq::new(fills.len(), |i: int| loan_for_ask_fill(ask, fills[i], shard_id, current_slot))
}

/// The report of an ask that rests in the book of shard `shard_id`.
pub open spec fn resting_ask_event(ask: Ask, shard_id: u64) -> AskSubmitted {
    AskSubmitted {
        borrower: ask.borrower,
        amount: ask.amount,
        max_rate: ask.max_rate,
        shard_id,
        token_mint: ask.token_mint,
        collateral_mint: ask.collateral_mint,
    }
}

/// Why an ask that found fills is turned away all the same, if it is: a
/// fill that cannot become a loan, fills that do not add up to the ask's
/// amount, or a loan counter that would run over.
pub open spec fn ask_match_rejection(ctx: SubmitAsk, ask: Ask, fills: Seq<(Bid, u8)>) -> Option<
    ErrorCode,
> {
    if ask_fills_rejection(ask, fills) is Some {
        ask_fills_rejection(ask, fills)
    } else if bid_fills_total(fills) != ask.amount {
        Some(ErrorCode::PartialMatchNotAllowed)
    } else if ctx.lend_auction.total_loans + fills.len() > u64::MAX {
        Some(ErrorCode::Overflow)
    } else {
        None
    }
}

/// The state after an ask came to rest in the book.
pub open spec fn ask_rested(before: SubmitAsk, after: SubmitAsk, ask: Ask) -> bool {
    &&& after.shard_pool.asks@ == before.shard_pool.asks@.insert(
        ask_slot(before.shard_pool.asks@, ask.max_rate),
        ask,
    )
    &&& after.shard_pool.bids == before.shard_pool.bids
    &&& after.shard_pool.shard_id == before.shard_pool.shard_id
    &&& after == SubmitAsk { shard_pool: after.shard_pool, ..before }
}

/// The state after an ask was filled in full and `loans` were issued for
/// it: the matched bids have left the book, the loans are at the end of the
/// ledger and the auction has counted them.
pub open spec fn ask_settled(before: SubmitAsk, after: SubmitAsk, ask: Ask, loans: Seq<Loan>)
    -> bool {
    &&& after.shard_pool.bids@ == bids_after_ask(ask, before.shard_pool.bids@, ask.amount)
    &&& after.shard_pool.asks == before.shard_pool.asks
    &&& after.shard_pool.shard_id == before.shard_pool.shard_id
    &&& after.loan_pool.loans@ == before.loan_pool.loans@ + loans
    &&& after.loan_pool.shard_id == before.loan_pool.shard_id
    &&& after.lend_auction == LendAuction {
        total_loans: (before.lend_auction.total_loans + loans.len()) as u64,
        ..before.lend_auction
    }
    &&& after == SubmitAsk {
        shard_pool: after.shard_pool,
        loan_pool: after.loan_pool,
        lend_auction: after.lend_auction,
        ..before
    }
}

/// What the submission of an ask to shard `shard_id` does.
///
/// An ask that fails a check is rejected. One that matches no bid comes to
/// rest in the book, unless the book would then be full. One that matches is filled from the front of the bids:
/// either the fills cover it in full and each becomes a loan, or it is
/// rejected. A rejection leaves everything as it was.
pub open spec fn ask_submission(
    before: SubmitAsk,
    after: SubmitAsk,
    shard_id: u64,
    amount: u64,
    max_rate: u8,
    collateral: u64,
    current_slot: u64,
    res: Result<AskOutcome, ErrorCode>,
) -> bool {
    let ask = submitted_ask(before, amount, max_rate, collateral, current_slot);
    let fills = ask_fills(ask, before.shard_pool.bids@, amount);
    let loans = ask_loans(ask, fills, shard_id, current_slot);
    if ask_rejection(before, shard_id, amount, collateral) is Some {
        &&& res is Err
        &&& Some(res->Err_0) == ask_rejection(before, shard_id, amount, collateral)
        &&& after == before
    } else if fills.len() == 0 && before.shard_pool.asks@.len() + 1 >= MAX_ASKS {
        &&& res == Err::<AskOutcome, ErrorCode>(ErrorCode::PoolFull)
        &&& after == before
    } else if fills.len() == 0 {
        &&& res matches Ok(AskOutcome::Resting { deposit, event })
        &&& deposit == ask_deposit(before, collateral)
        &&& event == resting_ask_event(ask, shard_id)
        &&& ask_rested(before, after, ask)
    } else if ask_match_rejection(before, ask, fills) is Some {
        &&& res is Err
        &&& Some(res->Err_0) == ask_match_rejection(before, ask, fills)
        &&& after == before
    } else {
        &&& res matches Ok(AskOutcome::Matched { deposit, payouts, loans: events })
        &&& deposit == ask_deposit(before, collateral)
        &&& payouts@ == loan_payouts(
            before.vault_token_account,
            before.borrower_token_account,
            loans,
        )
        &&& events@ == issued_events(loans)
        &&& ask_settled(before, after, ask, loans)
    }
}

/// Turns the fills of an incoming ask into loans, each backed by its share
/// of the ask's collateral, and checks that they cover the ask in full.
fn loans_for_ask(ask: &Ask, fills: &Vec<(Bid, u8)>, shard_id: u64, current_slot: u64) -> (res:
    Result<Vec<Loan>, ErrorCode>)
    requires
        bid_fills_total(fills@) <= ask.amount,
    ensures
        match res {
            Ok(loans) => {
                &&& ask_fills_rejection(*ask, fills@) is None
                &&& bid_fills_total(fills@) == ask.amount
                &&& loans@ == ask_loans(*ask, fills@, shard_id, current_slot)
            },
            Err(e) => {
                &&& ask_fills_rejection(*ask, fills@) is Some ==> Some(e) == ask_fills_rejection(
                    *ask,
                    fills@,
                )
                &&& ask_fills_rejection(*ask, fills@) is None ==> e
                    == ErrorCode::PartialMatchNotAllowed && bid_fills_total(fills@) != ask.amount
            },
        },
{
    let mut loans: Vec<Loan> = Vec::new();
    let mut total_matched: u64 = 0;
    let mut k: usize = 0;
    assert(fills@.skip(0) =~= fills@);
    while k < fills.len()
        invariant
            k <= fills@.len(),
            bid_fills_total(fills@) <= ask.amount,
            total_matched + bid_fills_total(fills@.skip(k as int)) == bid_fills_total(fills@),
            ask_fills_rejection(*ask, fills@) == ask_fills_rejection(*ask, fills@.skip(k as int)),
            loans@ == ask_loans(*ask, fills@.take(k as int), shard_id, current_slot),
        decreases fills@.len() - k,
    {
        let (bid, rate) = fills[k];
        let ghost rest = fills@.skip(k as int);
        assert(rest[0] == fills@[k as int]);
        assert(rest.drop_first() =~= fills@.skip(k + 1));
        let loan_amount = bid.amount;
        if ask.amount == 0 {
            return Err(ErrorCode::Overflow);
        }
        let backing = match ask.collateral.checked_mul(loan_amount) {
            Some(product) => product / ask.amount,
            None => { return Err(ErrorCode::Overflow); },
        };
        let loan = Loan {
            lender: bid.lender,
            borrower: ask.borrower,
            amount: loan_amount,
            rate,
            collateral: backing,
            repaid: false,
            shard_id,
            token_mint: ask.token_mint,
            collateral_mint: ask.collateral_mint,
            start_slot: current_slot,
            duration_slots: bid.duration_slots,
        };
        let required = match loan_amount.checked_mul(15) {
            Some(product) => product,
            None => { return Err(ErrorCode::Overflow); },
        };
        if (backing as u128) * 10 < required as u128 {
            return Err(ErrorCode::InsufficientCollateral);
        }
        total_matched = total_matched + loan_amount;
        loans.push(loan);
        assert(loans@ =~= ask_loans(*ask, fills@.take(k + 1), shard_id, current_slot));
        k += 1;
    }
    if total_matched != ask.amount {
        return Err(ErrorCode::PartialMatchNotAllowed);
    }
    assert(fills@.take(fills@.len() as int) =~= fills@);
    Ok(loans)
}

/// Submits an ask to the shard `shard_id`, whose book and ledger `ctx`
/// holds.
///
/// The ask is checked, then matched against the bids of the book. Where it
/// matches nothing it comes to rest in the book, and is rejected where the
/// book has no room for it. Where it matches, the fills
/// must cover it in full and every loan must be backed by at least 150% of
/// its amount; else the submission is rejected and nothing has changed.
pub fn submit_ask_in_shard(
    ctx: &mut SubmitAsk,
    shard_id: u64,
    amount: u64,
    max_rate: u8,
    collateral: u64,
    current_slot: u64,
) -> (res: Result<AskOutcome, ErrorCode>)
    requires
        old(ctx).shard_pool.wf(),
    ensures
        ask_submission(
            *old(ctx),
            *final(ctx),
            shard_id,
            amount,
            max_rate,
            collateral,
            current_slot,
            res,
        ),
        final(ctx).shard_pool.wf(),
        res is Err ==> *final(ctx) == *old(ctx),
        res matches Ok(AskOutcome::Matched { .. }) ==> bid_fills_total(
            ask_fills(
                submitted_ask(*old(ctx), amount, max_rate, collateral, current_slot),
                old(ctx).shard_pool.bids@,
                amount,
            ),
        ) == amount,
        forall|i: int|
            old(ctx).loan_pool.loans@.len() <= i < final(ctx).loan_pool.loans@.len() ==> (
            #[trigger] final(ctx).loan_pool.loans@[i]).collateralized(),
        forall|i: int|
            0 <= i < old(ctx).loan_pool.loans@.len() ==> final(ctx).loan_pool.loans@[i] == old(
                ctx,
            ).loan_pool.loans@[i],
{
    if amount == 0 {
        return Err(ErrorCode::InvalidAmount);
    }
    if collateral == 0 {
        return Err(ErrorCode::InvalidCollateral);
    }
    if !ctx.lend_auction.is_supported(&ctx.token_mint) {
        return Err(ErrorCode::UnsupportedToken);
    }
    if !ctx.lend_auction.is_supported(&ctx.collateral_mint) {
        return Err(ErrorCode::UnsupportedCollateral);
    }
    if ctx.asker_collateral_account.mint != ctx.collateral_mint {
        return Err(ErrorCode::InvalidTokenAccount);
    }
    if ctx.vault_collateral_account.mint != ctx.collateral_mint {
        return Err(ErrorCode::InvalidVaultAccount);
    }
    if ctx.shard_pool.shard_id != shard_id || ctx.loan_pool.shard_id != shard_id {
        return Err(ErrorCode::ShardMismatch);
    }
    let ask = Ask {
        borrower: ctx.asker,
        amount,
        max_rate,
        collateral,
        slot: current_slot,
        token_mint: ctx.token_mint,
        collateral_mint: ctx.collateral_mint,
    };
    let deposit = Transfer::between(
        &ctx.asker_collateral_account,
        &ctx.vault_collateral_account,
        ctx.collateral_mint,
        collateral,
    );
    let mut bids = copy_vec(&ctx.shard_pool.bids);
    let fills = match match_ask(&ask, &mut bids) {
        Ok(fills) => fills,
        Err(e) => { return Err(e); },
    };
    proof {
        lemma_ask_fills_bounded(ask, ctx.shard_pool.bids@, amount);
        lemma_bids_after_ask_sorted(ask, ctx.shard_pool.bids@, amount);
    }
    if fills.len() == 0 {
        if ctx.shard_pool.asks.len() >= MAX_ASKS - 1 {
            return Err(ErrorCode::PoolFull);
        }
        insert_sorted_ask(&mut ctx.shard_pool, ask);
        return Ok(
            AskOutcome::Resting {
                deposit,
                event: AskSubmitted {
                    borrower: ask.borrower,
                    amount,
                    max_rate,
                    shard_id,
                    token_mint: ask.token_mint,
                    collateral_mint: ask.collateral_mint,
                },
            },
        );
    }
    let mut loans = match loans_for_ask(&ask, &fills, shard_id, current_slot) {
        Ok(loans) => loans,
        Err(e) => { return Err(e); },
    };
    let issued: u64 = loans.len() as u64;
    let total_loans = match ctx.lend_auction.total_loans.checked_add(issued) {
        Some(total) => total,
        None => { return Err(ErrorCode::Overflow); },
    };
    let events = report_issued(&loans);
    let payouts = order_payouts(&ctx.vault_token_account, &ctx.borrower_token_account, &loans);
    proof {
        lemma_ask_loans_collateralized(ask, fills@, shard_id, current_slot);
    }
    ctx.shard_pool.bids = bids;
    ctx.loan_pool.loans.append(&mut loans);
    ctx.lend_auction.total_loans = total_loans;
    Ok(AskOutcome::Matched { deposit, payouts, loans: events })
}

/// Every loan made of fills that were not rejected is backed by at least
/// 150% of its amount.
pub proof fn lemma_ask_loans_collateralized(
    ask: Ask,
    fills: Seq<(Bid, u8)>,
    shard_id: u64,
    current_slot: u64,
)
    requires
        ask_fills_rejection(ask, fills) is None,
    ensures
        forall|i: int|
            0 <= i < fills.len() ==> (#[trigger] ask_loans(
                ask,
                fills,
                shard_id,
                current_slot,
            )[i]).collateralized(),
    decreases fills.len(),
{
    if fills.len() > 0 {
        let tail = fills.drop_first();
        lemma_ask_loans_collateralized(ask, tail, shard_id, current_slot);
        assert forall|i: int| 0 <= i < fills.len() implies (#[trigger] ask_loans(
            ask,
            fills,
            shard_id,
            current_slot,
        )[i]).collateralized() by {
            if i > 0 {
                assert(fills[i] == tail[i - 1]);
                assert(ask_loans(ask, fills, shard_id, current_slot)[i] == ask_loans(
                    ask,
                    tail,
                    shard_id,
                    current_slot,
                )[i - 1]);
            } else {
                let share = collateral_share(ask, fills[0].0.amount);
                assert(0 <= share <= u64::MAX) by (nonlinear_arith)
                    requires
                        share == (ask.collateral * fills[0].0.amount) / (ask.amount as int),
                        ask.amount > 0,
                        0 <= ask.collateral * fills[0].0.amount <= u64::MAX,
                ;
            }
        }
    }
}

/// Submits an ask of `amount` at no more than `max_rate`, backed by
/// `collateral`, to the shard that its token and rate route to.
///
/// On success the caller takes the collateral into custody and, for each
/// loan issued, pays the loan's amount out to the borrower.
pub fn process_submit_ask(
    ctx: &mut SubmitAsk,
    amount: u64,
    max_rate: u8,
    collateral: u64,
    current_slot: u64,
) -> (res: Result<AskOutcome, ErrorCode>)
    requires
        old(ctx).lend_auction.shard_count > 0,
        old(ctx).shard_pool.wf(),
    ensures
        ask_submission(
            *old(ctx),
            *final(ctx),
            shard_of(old(ctx).token_mint, max_rate, old(ctx).lend_auction.shard_count) as u64,
            amount,
            max_rate,
            collateral,
            current_slot,
            res,
        ),
        final(ctx).shard_pool.wf(),
        res is Err ==> *final(ctx) == *old(ctx),
        res matches Ok(AskOutcome::Matched { .. }) ==> bid_fills_total(
            ask_fills(
                submitted_ask(*old(ctx), amount, max_rate, collateral, current_slot),
                old(ctx).shard_pool.bids@,
                amount,
            ),
        ) == amount,
        forall|i: int|
            old(ctx).loan_pool.loans@.len() <= i < final(ctx).loan_pool.loans@.len() ==> (
            #[trigger] final(ctx).loan_pool.loans@[i]).collateralized(),
        forall|i: int|
            0 <= i < old(ctx).loan_pool.loans@.len() ==> final(ctx).loan_pool.loans@[i] == old(
                ctx,
            ).loan_pool.loans@[i],
{
    let shard_id = compute_shard_id(&ctx.token_mint, max_rate, ctx.lend_auction.shard_count);
    submit_ask_in_shard(ctx, shard_id, amount, max_rate, collateral, current_slot)
}

} // verus!
