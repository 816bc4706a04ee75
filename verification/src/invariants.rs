//! What holds of the exchange whatever is done to it: an order always finds
//! the same shard, and every order of a book belongs to the book's shard.

use vstd::prelude::*;
use crate::errors::ErrorCode;
use crate::instructions::cleanup::{
    cleanup_effect, live_ask, live_bid, stale_ask, stale_bid, Cleanup, CleanupOutcome,
};
use crate::instructions::submit_ask::{ask_submission, submitted_ask, AskOutcome, SubmitAsk};
use crate::instructions::submit_bid::{bid_submission, submitted_bid, BidOutcome, SubmitBid};
use crate::pubkey::Pubkey;
use crate::states::{Ask, Bid, ShardPool};
use crate::utils::{
    ask_slot, bid_slot, lemma_ask_slot_in_range, lemma_asks_after_bid_subset,
    lemma_bid_slot_in_range, lemma_bids_after_ask_subset, shard_of,
};

verus! {

/// The same token, rate and number of shards always route to the same
/// shard.
pub proof fn lemma_route_is_a_function(
    token_mint: Pubkey,
    rate: u8,
    shard_count: u64,
    other_mint: Pubkey,
    other_rate: u8,
    other_count: u64,
)
    requires
        token_mint@ == other_mint@,
        rate == other_rate,
        shard_count == other_count,
    ensures
        shard_of(token_mint, rate, shard_count) == shard_of(other_mint, other_rate, other_count),
{
}

/// An order is always routed to one of the shards there are.
pub proof fn lemma_route_in_range(token_mint: Pubkey, rate: u8, shard_count: u64)
    requires
        shard_count > 0,
    ensures
        0 <= shard_of(token_mint, rate, shard_count) < shard_count,
{
}

/// Whether a bid belongs to shard `shard_id` of `shard_count`.
pub open spec fn bid_routed(bid: Bid, shard_id: u64, shard_count: u64) -> bool {
    shard_of(bid.token_mint, bid.min_rate, shard_count) == shard_id
}

/// Whether an ask belongs to shard `shard_id` of `shard_count`.
pub open spec fn ask_routed(ask: Ask, shard_id: u64, shard_count: u64) -> bool {
    shard_of(ask.token_mint, ask.max_rate, shard_count) == shard_id
}

/// Every order of the book belongs to the book's shard.
pub open spec fn book_routed(pool: ShardPool, shard_count: u64) -> bool {
    &&& forall|i: int|
        0 <= i < pool.bids@.len() ==> bid_routed(#[trigger] pool.bids@[i], pool.shard_id, shard_count)
    &&& forall|i: int|
        0 <= i < pool.asks@.len() ==> ask_routed(#[trigger] pool.asks@[i], pool.shard_id, shard_count)
}

/// Submitting a bid to the shard that it routes to keeps every order of the
/// book in the book's shard.
pub proof fn lemma_bid_submission_keeps_routing(
    before: SubmitBid,
    after: SubmitBid,
    amount: u64,
    min_rate: u8,
    duration_slots: u64,
    current_slot: u64,
    res: Result<BidOutcome, ErrorCode>,
)
    requires
        before.lend_auction.shard_count > 0,
        bid_submission(
            before,
            after,
            shard_of(before.token_mint, min_rate, before.lend_auction.shard_count) as u64,
            amount,
            min_rate,
            duration_slots,
            current_slot,
            res,
        ),
        book_routed(before.shard_pool, before.lend_auction.shard_count),
    ensures
        book_routed(after.shard_pool, after.lend_auction.shard_count),
{
    let count = before.lend_auction.shard_count;
    let bid = submitted_bid(before, amount, min_rate, duration_slots, current_slot);
    let old_bids = before.shard_pool.bids@;
    let old_asks = before.shard_pool.asks@;
    lemma_route_in_range(before.token_mint, min_rate, count);
    if res is Ok {
        match res->Ok_0 {
            BidOutcome::Resting { .. } => {
                let slot = bid_slot(old_bids, min_rate);
                lemma_bid_slot_in_range(old_bids, min_rate);
                assert forall|i: int| 0 <= i < after.shard_pool.bids@.len() implies bid_routed(
                    #[trigger] after.shard_pool.bids@[i],
                    after.shard_pool.shard_id,
                    count,
                ) by {
                    if i < slot {
                        assert(after.shard_pool.bids@[i] == old_bids[i]);
                    } else if i > slot {
                        assert(after.shard_pool.bids@[i] == old_bids[i - 1]);
                    }
                }
            },
            BidOutcome::Matched { .. } => {
                lemma_asks_after_bid_subset(bid, old_asks, amount);
                assert forall|i: int| 0 <= i < after.shard_pool.asks@.len() implies ask_routed(
                    #[trigger] after.shard_pool.asks@[i],
                    after.shard_pool.shard_id,
                    count,
                ) by {
                    assert(old_asks.contains(after.shard_pool.asks@[i]));
                    let m = choose|m: int|
                        0 <= m < old_asks.len() && old_asks[m] == after.shard_pool.asks@[i];
                    assert(ask_routed(old_asks[m], before.shard_pool.shard_id, count));
                }
            },
        }
    }
}

/// Submitting an ask to the shard that it routes to keeps every order of
/// the book in the book's shard.
pub proof fn lemma_ask_submission_keeps_routing(
    before: SubmitAsk,
    after: SubmitAsk,
    amount: u64,
    max_rate: u8,
    collateral: u64,
    current_slot: u64,
    res: Result<AskOutcome, ErrorCode>,
)
    requires
        before.lend_auction.shard_count > 0,
        ask_submission(
            before,
            after,
            shard_of(before.token_mint, max_rate, before.lend_auction.shard_count) as u64,
            amount,
            max_rate,
            collateral,
            current_slot,
            res,
        ),
        book_routed(before.shard_pool, before.lend_auction.shard_count),
    ensures
        book_routed(after.shard_pool, after.lend_auction.shard_count),
{
    let count = before.lend_auction.shard_count;
    let ask = submitted_ask(before, amount, max_rate, collateral, current_slot);
    let old_bids = before.shard_pool.bids@;
    let old_asks = before.shard_pool.asks@;
    lemma_route_in_range(before.token_mint, max_rate, count);
    if res is Ok {
        match res->Ok_0 {
            AskOutcome::Resting { .. } => {
                let slot = ask_slot(old_asks, max_rate);
                lemma_ask_slot_in_range(old_asks, max_rate);
                assert forall|i: int| 0 <= i < after.shard_pool.asks@.len() implies ask_routed(
                    #[trigger] after.shard_pool.asks@[i],
                    after.shard_pool.shard_id,
                    count,
                ) by {
                    if i < slot {
                        assert(after.shard_pool.asks@[i] == old_asks[i]);
                    } else if i > slot {
                        assert(after.shard_pool.asks@[i] == old_asks[i - 1]);
                    }
                }
            },
            AskOutcome::Matched { .. } => {
                lemma_bids_after_ask_subset(ask, old_bids, amount);
                assert forall|i: int| 0 <= i < after.shard_pool.bids@.len() implies bid_routed(
                    #[trigger] after.shard_pool.bids@[i],
                    after.shard_pool.shard_id,
                    count,
                ) by {
                    assert(old_bids.contains(after.shard_pool.bids@[i]));
                    let m = choose|m: int|
                        0 <= m < old_bids.len() && old_bids[m] == after.shard_pool.bids@[i];
                    assert(bid_routed(old_bids[m], before.shard_pool.shard_id, count));
                }
            },
        }
    }
}

/// A sweep keeps every order of the book in the book's shard.
pub proof fn lemma_cleanup_keeps_routing(
    before: Cleanup,
    after: Cleanup,
    shard_id: u64,
    current_slot: u64,
    res: Result<CleanupOutcome, ErrorCode>,
)
    requires
        cleanup_effect(before, after, shard_id, current_slot, res),
        book_routed(before.shard_pool, before.lend_auction.shard_count),
    ensures
        book_routed(after.shard_pool, after.lend_auction.shard_count),
{
    let count = before.lend_auction.shard_count;
    let old_bids = before.shard_pool.bids@;
    let old_asks = before.shard_pool.asks@;
    if res is Ok {
        assert forall|i: int| 0 <= i < after.shard_pool.bids@.len() implies bid_routed(
            #[trigger] after.shard_pool.bids@[i],
            after.shard_pool.shard_id,
            count,
        ) by {
            let kept = old_bids.filter(live_bid(current_slot));
            assert(kept.contains(kept[i]));
            old_bids.lemma_filter_contains_rev(live_bid(current_slot), kept[i]);
            let m = choose|m: int| 0 <= m < old_bids.len() && old_bids[m] == kept[i];
            assert(bid_routed(old_bids[m], before.shard_pool.shard_id, count));
        }
        assert forall|i: int| 0 <= i < after.shard_pool.asks@.len() implies ask_routed(
            #[trigger] after.shard_pool.asks@[i],
            after.shard_pool.shard_id,
            count,
        ) by {
            let kept = old_asks.filter(live_ask(current_slot));
            assert(kept.contains(kept[i]));
            old_asks.lemma_filter_contains_rev(live_ask(current_slot), kept[i]);
            let m = choose|m: int| 0 <= m < old_asks.len() && old_asks[m] == kept[i];
            assert(ask_routed(old_asks[m], before.shard_pool.shard_id, count));
        }
    }
}

/// After a sweep nothing in the book is stale: a second sweep at the same
/// slot finds nothing to take out.
pub proof fn lemma_cleanup_leaves_nothing_stale(
    before: Cleanup,
    after: Cleanup,
    shard_id: u64,
    current_slot: u64,
    res: Result<CleanupOutcome, ErrorCode>,
)
    requires
        cleanup_effect(before, after, shard_id, current_slot, res),
        res is Ok,
    ensures
        after.shard_pool.bids@.filter(stale_bid(current_slot)).len() == 0,
        after.shard_pool.asks@.filter(stale_ask(current_slot)).len() == 0,
        after.shard_pool.bids@.filter(live_bid(current_slot)) == after.shard_pool.bids@,
        after.shard_pool.asks@.filter(live_ask(current_slot)) == after.shard_pool.asks@,
{
    lemma_refilter_bids(before.shard_pool.bids@, current_slot);
    lemma_refilter_asks(before.shard_pool.asks@, current_slot);
}

/// Among the bids that are live none is stale, and all are live.
proof fn lemma_refilter_bids(bids: Seq<Bid>, current_slot: u64)
    ensures
        bids.filter(live_bid(current_slot)).filter(stale_bid(current_slot)).len() == 0,
        bids.filter(live_bid(current_slot)).filter(live_bid(current_slot)) == bids.filter(
            live_bid(current_slot),
        ),
    decreases bids.len(),
{
    reveal(Seq::filter);
    if bids.len() > 0 {
        lemma_refilter_bids(bids.drop_last(), current_slot);
        let kept = bids.drop_last().filter(live_bid(current_slot));
        if live_bid(current_slot)(bids.last()) {
            assert(kept.push(bids.last()).drop_last() =~= kept);
        }
    }
}

/// Among the asks that are live none is stale, and all are live.
proof fn lemma_refilter_asks(asks: Seq<Ask>, current_slot: u64)
    ensures
        asks.filter(live_ask(current_slot)).filter(stale_ask(current_slot)).len() == 0,
        asks.filter(live_ask(current_slot)).filter(live_ask(current_slot)) == asks.filter(
            live_ask(current_slot),
        ),
    decreases asks.len(),
{
    reveal(Seq::filter);
    if asks.len() > 0 {
        lemma_refilter_asks(asks.drop_last(), current_slot);
        let kept = asks.drop_last().filter(live_ask(current_slot));
        if live_ask(current_slot)(asks.last()) {
            assert(kept.push(asks.last()).drop_last() =~= kept);
        }
    }
}

} // verus!
