//! The sweep that takes stale orders out of a book and settles them: most
//! of what was put up goes back to whoever submitted the order, a small
//! fee goes to the fee vault.

use vstd::prelude::*;
use crate::errors::ErrorCode;
use crate::events::{AskExpired, BidExpired};
use crate::pubkey::Pubkey;
use crate::states::{
    account_of, asks_sorted, bids_sorted, find_account, lemma_account_of_is_listed,
    transfer_order, Ask, Bid, LendAuction, ShardPool, TokenAccount, Transfer,
};

verus! {

/// An order is stale once it has rested for this many slots, about a day.
pub const STALE_AFTER_SLOTS: u64 = 216000;

/// Of every thousand units of a stale order, this many go back.
pub const REFUND_PER_MILLE: u64 = 995;

/// The accounts that the sweep works on.
#[derive(Clone, Debug, PartialEq, Eq)]
pub struct Cleanup {
    pub lend_auction: LendAuction,
    pub shard_pool: ShardPool,
    /// The accounts that refunds may go to. The refund of an order goes to
    /// the first of them that belongs to whoever submitted the order and
    /// holds the token refunded.
    pub refund_accounts: Vec<TokenAccount>,
    /// Where the amounts of bids are held.
    pub vault_token_account: TokenAccount,
    /// Where the collateral of asks is held.
    pub vault_collateral_account: TokenAccount,
    /// Where the fees on bids go.
    pub fee_vault: TokenAccount,
    /// Where the fees on asks go.
    pub fee_vault_collateral: TokenAccount,
}

/// A stale bid that a sweep took out of the book, and what is to be moved
/// for it.
#[derive(Clone, Copy, Debug, PartialEq, Eq)]
pub struct ExpiredBid {
    /// The refund, from the vault to an account of the lender.
    pub refund: Transfer,
    /// The fee, from the vault to the fee vault.
    pub fee: Transfer,
    pub event: BidExpired,
}

/// A stale ask that a sweep took out of the book, and what is to be moved
/// for it.
#[derive(Clone, Copy, Debug, PartialEq, Eq)]
pub struct ExpiredAsk {
    /// The refund, from the collateral vault to an account of the borrower.
    pub refund: Transfer,
    /// The fee, from the collateral vault to the collateral fee vault.
    pub fee: Transfer,
    pub event: AskExpired,
}

/// What a sweep took out of the book, each side in the order of the book.
#[derive(Clone, Debug, PartialEq, Eq)]
pub struct CleanupOutcome {
    pub expired_bids: Vec<ExpiredBid>,
    pub expired_asks: Vec<ExpiredAsk>,
}

/// Whether an order submitted at `slot` is stale at `current_slot`: it has
/// rested for a day or longer. Nothing is stale before the first day is
/// over.
pub open spec fn stale_at(slot: u64, current_slot: u64) -> bool {
    current_slot >= STALE_AFTER_SLOTS && slot <= current_slot - STALE_AFTER_SLOTS
}

/// Whether a bid is stale at `current_slot`.
pub open spec fn stale_bid(current_slot: u64) -> spec_fn(Bid) -> bool {
    |bid: Bid| stale_at(bid.slot, current_slot)
}

/// Whether a bid is still live at `current_slot`.
pub open spec fn live_bid(current_slot: u64) -> spec_fn(Bid) -> bool {
    |bid: Bid| !stale_at(bid.slot, current_slot)
}

/// Whether an ask is stale at `current_slot`.
pub open spec fn stale_ask(current_slot: u64) -> spec_fn(Ask) -> bool {
    |ask: Ask| stale_at(ask.slot, current_slot)
}

/// Whether an ask is still live at `current_slot`.
pub open spec fn live_ask(current_slot: u64) -> spec_fn(Ask) -> bool {
    |ask: Ask| !stale_at(ask.slot, current_slot)
}

/// The part of `amount` that goes back: 99.5% of it, rounded down.
pub open spec fn refund_of(amount: u64) -> int {
    amount * REFUND_PER_MILLE / 1000
}

/// The part of `amount` that is the fee: what the refund leaves of it. That
/// is 0.5% of the amount, rounded up.
pub open spec fn fee_of(amount: u64) -> int {
    amount - refund_of(amount)
}

/// Why `amount` cannot be settled, if it cannot: the refund cannot be
/// computed in 64 bits.
pub open spec fn settlement_rejection(amount: u64) -> Option<ErrorCode> {
    if amount * REFUND_PER_MILLE > u64::MAX {
        Some(ErrorCode::Overflow)
    } else {
        None
    }
}

/// Whether an order submitted at `slot` is stale at `current_slot`.
pub fn is_stale(slot: u64, current_slot: u64) -> (stale: bool)
    ensures
        stale == stale_at(slot, current_slot),
{
    current_slot >= STALE_AFTER_SLOTS && slot <= current_slot - STALE_AFTER_SLOTS
}

/// Splits `amount` into what goes back and the fee. The two always add up
/// to the amount, and the fee is half a percent of it, rounded down, or one
/// unit more.
pub fn settle_amount(amount: u64) -> (res: Result<(u64, u64), ErrorCode>)
    ensures
        match res {
            Ok((refund, fee)) => {
                &&& settlement_rejection(amount) is None
                &&& refund == refund_of(amount)
                &&& fee == fee_of(amount)
                &&& refund + fee == amount
                &&& amount * 5 / 1000 <= fee <= amount * 5 / 1000 + 1
            },
            Err(e) => Some(e) == settlement_rejection(amount),
        },
{
    let refund = match amount.checked_mul(REFUND_PER_MILLE) {
        Some(product) => product / 1000,
        None => { return Err(ErrorCode::Overflow); },
    };
    let fee = amount - refund;
    Ok((refund, fee))
}

/// The report of a stale bid that left the book of shard `shard_id`.
pub open spec fn expired_bid_event(bid: Bid, shard_id: u64) -> BidExpired {
    BidExpired {
        lender: bid.lender,
        amount: bid.amount,
        refund_amount: refund_of(bid.amount) as u64,
        fee_amount: fee_of(bid.amount) as u64,
        shard_id,
        token_mint: bid.token_mint,
    }
}

/// The report of a stale ask that left the book of shard `shard_id`. What
/// is settled of an ask is its collateral.
pub open spec fn expired_ask_event(ask: Ask, shard_id: u64) -> AskExpired {
    AskExpired {
        borrower: ask.borrower,
        amount: ask.amount,
        refund_amount: refund_of(ask.collateral) as u64,
        fee_amount: fee_of(ask.collateral) as u64,
        shard_id,
        token_mint: ask.token_mint,
        collateral_mint: ask.collateral_mint,
    }
}

/// The account that the refund of a bid goes to: one of the lender's, for
/// the token of the bid.
pub open spec fn bid_refund_account(ctx: Cleanup, bid: Bid) -> Option<TokenAccount> {
    account_of(ctx.refund_accounts@, bid.lender, bid.token_mint)
}

/// The account that the refund of an ask goes to: one of the borrower's,
/// for the token of the collateral.
pub open spec fn ask_refund_account(ctx: Cleanup, ask: Ask) -> Option<TokenAccount> {
    account_of(ctx.refund_accounts@, ask.borrower, ask.collateral_mint)
}

/// The settlement of a stale bid: the refund of its amount to the lender
/// and the fee on it, both out of the vault.
pub open spec fn expired_bid(ctx: Cleanup, bid: Bid, shard_id: u64) -> ExpiredBid {
    ExpiredBid {
        refund: transfer_order(
            ctx.vault_token_account,
            bid_refund_account(ctx, bid)->Some_0,
            bid.token_mint,
            refund_of(bid.amount) as u64,
        ),
        fee: transfer_order(
            ctx.vault_token_account,
            ctx.fee_vault,
            bid.token_mint,
            fee_of(bid.amount) as u64,
        ),
        event: expired_bid_event(bid, shard_id),
    }
}

/// The settlement of a stale ask: the refund of its collateral to the
/// borrower and the fee on it, both out of the collateral vault.
pub open spec fn expired_ask(ctx: Cleanup, ask: Ask, shard_id: u64) -> ExpiredAsk {
    ExpiredAsk {
        refund: transfer_order(
            ctx.vault_collateral_account,
            ask_refund_account(ctx, ask)->Some_0,
            ask.collateral_mint,
            refund_of(ask.collateral) as u64,
        ),
        fee: transfer_order(
            ctx.vault_collateral_account,
            ctx.fee_vault_collateral,
            ask.collateral_mint,
            fee_of(ask.collateral) as u64,
        ),
        event: expired_ask_event(ask, shard_id),
    }
}

/// The settlements of stale bids, in their order.
pub open spec fn expired_bids(ctx: Cleanup, bids: Seq<Bid>, shard_id: u64) -> Seq<ExpiredBid> {
    Seq::new(bids.len(), |i: int| expired_bid(ctx, bids[i], shard_id))
}

/// The settlements of stale asks, in their order.
pub open spec fn expired_asks(ctx: Cleanup, asks: Seq<Ask>, shard_id: u64) -> Seq<ExpiredAsk> {
    Seq::new(asks.len(), |i: int| expired_ask(ctx, asks[i], shard_id))
}

/// Why a stale bid cannot be settled, if it cannot: its refund cannot be
/// computed, or none of the refund accounts is the lender's.
pub open spec fn bid_settlement_rejection(ctx: Cleanup, bid: Bid) -> Option<ErrorCode> {
    if settlement_rejection(bid.amount) is Some {
        settlement_rejection(bid.amount)
    } else if bid_refund_account(ctx, bid) is None {
        Some(ErrorCode::InvalidTokenAccount)
    } else {
        None
    }
}

/// Why a stale ask cannot be settled, if it cannot: its refund cannot be
/// computed, or none of the refund accounts is the borrower's.
pub open spec fn ask_settlement_rejection(ctx: Cleanup, ask: Ask) -> Option<ErrorCode> {
    if settlement_rejection(ask.collateral) is Some {
        settlement_rejection(ask.collateral)
    } else if ask_refund_account(ctx, ask) is None {
        Some(ErrorCode::InvalidTokenAccount)
    } else {
        None
    }
}

/// Why stale bids cannot all be settled, if they cannot: the rejection of
/// the first that has one.
pub open spec fn bids_settlement_rejection(ctx: Cleanup, bids: Seq<Bid>) -> Option<ErrorCode>
    decreases bids.len(),
{
    if bids.len() == 0 {
        None
    } else if bid_settlement_rejection(ctx, bids[0]) is Some {
        bid_settlement_rejection(ctx, bids[0])
    } else {
        bids_settlement_rejection(ctx, bids.drop_first())
    }
}

/// Why stale asks cannot all be settled, if they cannot: the rejection of
/// the first that has one.
pub open spec fn asks_settlement_rejection(ctx: Cleanup, asks: Seq<Ask>) -> Option<ErrorCode>
    decreases asks.len(),
{
    if asks.len() == 0 {
        None
    } else if ask_settlement_rejection(ctx, asks[0]) is Some {
        ask_settlement_rejection(ctx, asks[0])
    } else {
        asks_settlement_rejection(ctx, asks.drop_first())
    }
}

/// Why a sweep is rejected, if it is: the shard does not exist, the book is
/// not that of the shard, or a stale order cannot be settled, bids first.
pub open spec fn cleanup_rejection(ctx: Cleanup, shard_id: u64, current_slot: u64) -> Option<
    ErrorCode,
> {
    let bids = ctx.shard_pool.bids@.filter(stale_bid(current_slot));
    let asks = ctx.shard_pool.asks@.filter(stale_ask(current_slot));
    if shard_id >= ctx.lend_auction.shard_count {
        Some(ErrorCode::InvalidShard)
    } else if ctx.shard_pool.shard_id != shard_id {
        Some(ErrorCode::ShardMismatch)
    } else if bids_settlement_rejection(ctx, bids) is Some {
        bids_settlement_rejection(ctx, bids)
    } else {
        asks_settlement_rejection(ctx, asks)
    }
}

/// What a sweep of shard `shard_id` at `current_slot` does.
///
/// Every order that is stale leaves the book and is settled; the others
/// stay, in their order. A sweep that is rejected leaves the book as it
/// was.
pub open spec fn cleanup_effect(
    before: Cleanup,
    after: Cleanup,
    shard_id: u64,
    current_slot: u64,
    res: Result<CleanupOutcome, ErrorCode>,
) -> bool {
    if cleanup_rejection(before, shard_id, current_slot) is Some {
        &&& res is Err
        &&& Some(res->Err_0) == cleanup_rejection(before, shard_id, current_slot)
        &&& after == before
    } else {
        &&& res matches Ok(outcome)
        &&& outcome.expired_bids@ == expired_bids(
            before,
            before.shard_pool.bids@.filter(stale_bid(current_slot)),
            shard_id,
        )
        &&& outcome.expired_asks@ == expired_asks(
            before,
            before.shard_pool.asks@.filter(stale_ask(current_slot)),
            shard_id,
        )
        &&& after.shard_pool.bids@ == before.shard_pool.bids@.filter(live_bid(current_slot))
        &&& after.shard_pool.asks@ == before.shard_pool.asks@.filter(live_ask(current_slot))
        &&& after.shard_pool.shard_id == before.shard_pool.shard_id
        &&& after == Cleanup { shard_pool: after.shard_pool, ..before }
    }
}

/// Parts the bids of a book into those that stay and those that are stale.
fn part_bids(bids: &Vec<Bid>, current_slot: u64) -> (parts: (Vec<Bid>, Vec<Bid>))
    ensures
        parts.0@ == bids@.filter(live_bid(current_slot)),
        parts.1@ == bids@.filter(stale_bid(current_slot)),
{
    let mut live: Vec<Bid> = Vec::new();
    let mut stale: Vec<Bid> = Vec::new();
    let mut i: usize = 0;
    proof {
        reveal(Seq::filter);
    }
    while i < bids.len()
        invariant
            i <= bids@.len(),
            live@ == bids@.take(i as int).filter(live_bid(current_slot)),
            stale@ == bids@.take(i as int).filter(stale_bid(current_slot)),
        decreases bids@.len() - i,
    {
        let bid = bids[i];
        proof {
            reveal(Seq::filter);
            assert(bids@.take(i + 1).drop_last() =~= bids@.take(i as int));
            assert(bids@.take(i + 1).last() == bid);
        }
        if is_stale(bid.slot, current_slot) {
            stale.push(bid);
        } else {
            live.push(bid);
        }
        i += 1;
    }
    assert(bids@.take(bids@.len() as int) =~= bids@);
    (live, stale)
}

/// Parts the asks of a book into those that stay and those that are stale.
fn part_asks(asks: &Vec<Ask>, current_slot: u64) -> (parts: (Vec<Ask>, Vec<Ask>))
    ensures
        parts.0@ == asks@.filter(live_ask(current_slot)),
        parts.1@ == asks@.filter(stale_ask(current_slot)),
{
    let mut live: Vec<Ask> = Vec::new();
    let mut stale: Vec<Ask> = Vec::new();
    let mut i: usize = 0;
    proof {
        reveal(Seq::filter);
    }
    while i < asks.len()
        invariant
            i <= asks@.len(),
            live@ == asks@.take(i as int).filter(live_ask(current_slot)),
            stale@ == asks@.take(i as int).filter(stale_ask(current_slot)),
        decreases asks@.len() - i,
    {
        let ask = asks[i];
        proof {
            reveal(Seq::filter);
            assert(asks@.take(i + 1).drop_last() =~= asks@.take(i as int));
            assert(asks@.take(i + 1).last() == ask);
        }
        if is_stale(ask.slot, current_slot) {
            stale.push(ask);
        } else {
            live.push(ask);
        }
        i += 1;
    }
    assert(asks@.take(asks@.len() as int) =~= asks@);
    (live, stale)
}

/// Settles stale bids, in their order.
fn settle_bids(ctx: &Cleanup, bids: &Vec<Bid>, shard_id: u64) -> (res: Result<
    Vec<ExpiredBid>,
    ErrorCode,
>)
    ensures
        match res {
            Ok(settled) => {
                &&& bids_settlement_rejection(*ctx, bids@) is None
                &&& settled@ == expired_bids(*ctx, bids@, shard_id)
                &&& forall|i: int|
                    0 <= i < settled@.len() ==> settlement_sound(
                        (#[trigger] settled@[i]).refund,
                        settled@[i].fee,
                        bids@[i].amount,
                        bids@[i].lender,
                        ctx.refund_accounts@,
                    )
            },
            Err(e) => Some(e) == bids_settlement_rejection(*ctx, bids@),
        },
{
    let mut settled: Vec<ExpiredBid> = Vec::new();
    let mut k: usize = 0;
    assert(bids@.skip(0) =~= bids@);
    while k < bids.len()
        invariant
            k <= bids@.len(),
            bids_settlement_rejection(*ctx, bids@) == bids_settlement_rejection(
                *ctx,
                bids@.skip(k as int),
            ),
            settled@ == expired_bids(*ctx, bids@.take(k as int), shard_id),
            forall|i: int|
                0 <= i < settled@.len() ==> settlement_sound(
                    (#[trigger] settled@[i]).refund,
                    settled@[i].fee,
                    bids@[i].amount,
                    bids@[i].lender,
                    ctx.refund_accounts@,
                ),
        decreases bids@.len() - k,
    {
        let bid = bids[k];
        assert(bids@.skip(k as int)[0] == bid);
        assert(bids@.skip(k as int).drop_first() =~= bids@.skip(k + 1));
        let (refund_amount, fee_amount) = match settle_amount(bid.amount) {
            Ok(parts) => parts,
            Err(e) => { return Err(e); },
        };
        let refund_account = match find_account(&ctx.refund_accounts, &bid.lender, &bid.token_mint)
        {
            Some(account) => account,
            None => { return Err(ErrorCode::InvalidTokenAccount); },
        };
        proof {
            lemma_account_of_is_listed(ctx.refund_accounts@, bid.lender, bid.token_mint);
        }
        settled.push(
            ExpiredBid {
                refund: Transfer::between(
                    &ctx.vault_token_account,
                    &refund_account,
                    bid.token_mint,
                    refund_amount,
                ),
                fee: Transfer::between(
                    &ctx.vault_token_account,
                    &ctx.fee_vault,
                    bid.token_mint,
                    fee_amount,
                ),
                event: BidExpired {
                    lender: bid.lender,
                    amount: bid.amount,
                    refund_amount,
                    fee_amount,
                    shard_id,
                    token_mint: bid.token_mint,
                },
            },
        );
        assert(settled@ =~= expired_bids(*ctx, bids@.take(k + 1), shard_id));
        k += 1;
    }
    assert(bids@.take(bids@.len() as int) =~= bids@);
    Ok(settled)
}

/// Settles the collateral of stale asks, in their order.
fn settle_asks(ctx: &Cleanup, asks: &Vec<Ask>, shard_id: u64) -> (res: Result<
    Vec<ExpiredAsk>,
    ErrorCode,
>)
    ensures
        match res {
            Ok(settled) => {
                &&& asks_settlement_rejection(*ctx, asks@) is None
                &&& settled@ == expired_asks(*ctx, asks@, shard_id)
                &&& forall|i: int|
                    0 <= i < settled@.len() ==> settlement_sound(
                        (#[trigger] settled@[i]).refund,
                        settled@[i].fee,
                        asks@[i].collateral,
                        asks@[i].borrower,
                        ctx.refund_accounts@,
                    )
            },
            Err(e) => Some(e) == asks_settlement_rejection(*ctx, asks@),
        },
{
    let mut settled: Vec<ExpiredAsk> = Vec::new();
    let mut k: usize = 0;
    assert(asks@.skip(0) =~= asks@);
    while k < asks.len()
        invariant
            k <= asks@.len(),
            asks_settlement_rejection(*ctx, asks@) == asks_settlement_rejection(
                *ctx,
                asks@.skip(k as int),
            ),
            settled@ == expired_asks(*ctx, asks@.take(k as int), shard_id),
            forall|i: int|
                0 <= i < settled@.len() ==> settlement_sound(
                    (#[trigger] settled@[i]).refund,
                    settled@[i].fee,
                    asks@[i].collateral,
                    asks@[i].borrower,
                    ctx.refund_accounts@,
                ),
        decreases asks@.len() - k,
    {
        let ask = asks[k];
        assert(asks@.skip(k as int)[0] == ask);
        assert(asks@.skip(k as int).drop_first() =~= asks@.skip(k + 1));
        let (refund_amount, fee_amount) = match settle_amount(ask.collateral) {
            Ok(parts) => parts,
            Err(e) => { return Err(e); },
        };
        let refund_account = match find_account(
            &ctx.refund_accounts,
            &ask.borrower,
            &ask.collateral_mint,
        ) {
            Some(account) => account,
            None => { return Err(ErrorCode::InvalidTokenAccount); },
        };
        proof {
            lemma_account_of_is_listed(ctx.refund_accounts@, ask.borrower, ask.collateral_mint);
        }
        settled.push(
            ExpiredAsk {
                refund: Transfer::between(
                    &ctx.vault_collateral_account,
                    &refund_account,
                    ask.collateral_mint,
                    refund_amount,
                ),
                fee: Transfer::between(
                    &ctx.vault_collateral_account,
                    &ctx.fee_vault_collateral,
                    ask.collateral_mint,
                    fee_amount,
                ),
                event: AskExpired {
                    borrower: ask.borrower,
                    amount: ask.amount,
                    refund_amount,
                    fee_amount,
                    shard_id,
                    token_mint: ask.token_mint,
                    collateral_mint: ask.collateral_mint,
                },
            },
        );
        assert(settled@ =~= expired_asks(*ctx, asks@.take(k + 1), shard_id));
        k += 1;
    }
    assert(asks@.take(asks@.len() as int) =~= asks@);
    Ok(settled)
}

/// A settlement is sound when refund and fee add up to what the order had
/// put up, and the refund goes to one of `accounts` that belongs to whoever
/// submitted the order.
pub open spec fn settlement_sound(
    refund: Transfer,
    fee: Transfer,
    put_up: u64,
    submitter: Pubkey,
    accounts: Seq<TokenAccount>,
) -> bool {
    &&& refund.amount + fee.amount == put_up
    &&& exists|j: int|
        0 <= j < accounts.len() && (#[trigger] accounts[j]).key == refund.to && accounts[j].owner
            == submitter
}

/// Bids that are picked out of a book in order are in order.
pub proof fn lemma_filtered_bids_sorted(bids: Seq<Bid>, keep: spec_fn(Bid) -> bool)
    requires
        bids_sorted(bids),
    ensures
        bids_sorted(bids.filter(keep)),
        bids.filter(keep).len() <= bids.len(),
        forall|k: int|
            0 <= k < bids.filter(keep).len() ==> bids.contains(#[trigger] bids.filter(keep)[k]),
    decreases bids.len(),
{
    reveal(Seq::filter);
    if bids.len() > 0 {
        let front = bids.drop_last();
        lemma_filtered_bids_sorted(front, keep);
        let kept = bids.filter(keep);
        let kept_front = front.filter(keep);
        assert forall|k: int| 0 <= k < kept.len() implies bids.contains(#[trigger] kept[k]) by {
            if k < kept_front.len() {
                assert(front.contains(kept_front[k]));
                let m = choose|m: int| 0 <= m < front.len() && front[m] == kept_front[k];
                assert(bids[m] == kept[k]);
            } else {
                assert(bids[bids.len() - 1] == kept[k]);
            }
        }
        assert forall|i: int, j: int| 0 <= i <= j < kept.len() implies kept[i].min_rate
            <= kept[j].min_rate by {
            if j >= kept_front.len() && i < kept_front.len() {
                assert(front.contains(kept_front[i]));
                let m = choose|m: int| 0 <= m < front.len() && front[m] == kept_front[i];
                assert(bids[m] == kept[i]);
                assert(kept[j] == bids[bids.len() - 1]);
            }
        }
    }
}

/// Asks that are picked out of a book in order are in order.
pub proof fn lemma_filtered_asks_sorted(asks: Seq<Ask>, keep: spec_fn(Ask) -> bool)
    requires
        asks_sorted(asks),
    ensures
        asks_sorted(asks.filter(keep)),
        asks.filter(keep).len() <= asks.len(),
        forall|k: int|
            0 <= k < asks.filter(keep).len() ==> asks.contains(#[trigger] asks.filter(keep)[k]),
    decreases asks.len(),
{
    reveal(Seq::filter);
    if asks.len() > 0 {
        let front = asks.drop_last();
        lemma_filtered_asks_sorted(front, keep);
        let kept = asks.filter(keep);
        let kept_front = front.filter(keep);
        assert forall|k: int| 0 <= k < kept.len() implies asks.contains(#[trigger] kept[k]) by {
            if k < kept_front.len() {
                assert(front.contains(kept_front[k]));
                let m = choose|m: int| 0 <= m < front.len() && front[m] == kept_front[k];
                assert(asks[m] == kept[k]);
            } else {
                assert(asks[asks.len() - 1] == kept[k]);
            }
        }
        assert forall|i: int, j: int| 0 <= i <= j < kept.len() implies kept[i].max_rate
            >= kept[j].max_rate by {
            if j >= kept_front.len() && i < kept_front.len() {
                assert(front.contains(kept_front[i]));
                let m = choose|m: int| 0 <= m < front.len() && front[m] == kept_front[i];
                assert(asks[m] == kept[i]);
                assert(kept[j] == asks[asks.len() - 1]);
            }
        }
    }
}

/// Sweeps the book of shard `shard_id` at `current_slot`: every order that
/// has rested for a day or longer leaves the book and is settled.
///
/// On success the caller moves, for each order taken out, the refund to an
/// account of whoever submitted it and the fee to the fee vault. For every
/// order taken out the two add up to what the order had put up: the amount
/// of a bid, the collateral of an ask.
pub fn process_cleanup(ctx: &mut Cleanup, shard_id: u64, current_slot: u64) -> (res: Result<
    CleanupOutcome,
    ErrorCode,
>)
    ensures
        cleanup_effect(*old(ctx), *final(ctx), shard_id, current_slot, res),
        res is Err ==> *final(ctx) == *old(ctx),
        old(ctx).shard_pool.wf() ==> final(ctx).shard_pool.wf(),
        res matches Ok(outcome) ==> {
            &&& forall|i: int|
                0 <= i < outcome.expired_bids@.len() ==> settlement_sound(
                    (#[trigger] outcome.expired_bids@[i]).refund,
                    outcome.expired_bids@[i].fee,
                    old(ctx).shard_pool.bids@.filter(stale_bid(current_slot))[i].amount,
                    old(ctx).shard_pool.bids@.filter(stale_bid(current_slot))[i].lender,
                    old(ctx).refund_accounts@,
                )
            &&& forall|i: int|
                0 <= i < outcome.expired_asks@.len() ==> settlement_sound(
                    (#[trigger] outcome.expired_asks@[i]).refund,
                    outcome.expired_asks@[i].fee,
                    old(ctx).shard_pool.asks@.filter(stale_ask(current_slot))[i].collateral,
                    old(ctx).shard_pool.asks@.filter(stale_ask(current_slot))[i].borrower,
                    old(ctx).refund_accounts@,
                )
        },
{
    if shard_id >= ctx.lend_auction.shard_count {
        return Err(ErrorCode::InvalidShard);
    }
    if ctx.shard_pool.shard_id != shard_id {
        return Err(ErrorCode::ShardMismatch);
    }
    let (live_bids, stale_bids) = part_bids(&ctx.shard_pool.bids, current_slot);
    let (live_asks, stale_asks) = part_asks(&ctx.shard_pool.asks, current_slot);
    let expired_bids = match settle_bids(ctx, &stale_bids, shard_id) {
        Ok(settled) => settled,
        Err(e) => { return Err(e); },
    };
    let expired_asks = match settle_asks(ctx, &stale_asks, shard_id) {
        Ok(settled) => settled,
        Err(e) => { return Err(e); },
    };
    proof {
        if ctx.shard_pool.wf() {
            lemma_filtered_bids_sorted(ctx.shard_pool.bids@, live_bid(current_slot));
            lemma_filtered_asks_sorted(ctx.shard_pool.asks@, live_ask(current_slot));
        }
    }
    ctx.shard_pool.bids = live_bids;
    ctx.shard_pool.asks = live_asks;
    Ok(CleanupOutcome { expired_bids, expired_asks })
}

} // verus!
