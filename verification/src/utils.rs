//! Shard routing, matching of an incoming order against the resting orders
//! of the other side, and ordered insertion into a book.

use vstd::prelude::*;
use crate::errors::ErrorCode;
use crate::pubkey::Pubkey;
use crate::states::{asks_sorted, bids_sorted, Ask, Bid, ShardPool};

verus! {

/// The SHA-256 digest of `data`.
pub uninterp spec fn sha256_digest(data: Seq<u8>) -> Seq<u8>;

/// Calls `anchor_lang::solana_program::hash::hash`, which returns the
/// SHA-256 hash of the bytes it is given; the 32 bytes of that hash are
/// handed back. The digest is a function of the bytes alone, and nothing
/// else is claimed of it.
#[verifier::external_body]
fn sha256(data: &[u8]) -> (digest: [u8; 32])
    ensures
        digest@ == sha256_digest(data@),
{
    anchor_lang::solana_program::hash::hash(data).to_bytes()
}

/// The number that the first eight bytes of `bytes` spell, least significant
/// byte first.
pub open spec fn le_u64(bytes: Seq<u8>) -> nat
    recommends
        bytes.len() >= 8,
{
    (bytes[0] as nat) + 0x100 * ((bytes[1] as nat) + 0x100 * ((bytes[2] as nat) + 0x100 * ((
    bytes[3] as nat) + 0x100 * ((bytes[4] as nat) + 0x100 * ((bytes[5] as nat) + 0x100 * ((
    bytes[6] as nat) + 0x100 * (bytes[7] as nat)))))))
}

/// What is hashed to route an order: the 32 bytes of the token's address,
/// then the rate as one byte.
pub open spec fn shard_preimage(token_mint: Pubkey, rate: u8) -> Seq<u8> {
    token_mint@.push(rate)
}

/// The shard that a digest selects among `shard_count` shards.
pub open spec fn shard_of_digest(digest: Seq<u8>, shard_count: u64) -> nat
    recommends
        digest.len() >= 8,
        shard_count > 0,
{
    le_u64(digest) % (shard_count as nat)
}

/// The shard of the orders for `token_mint` at `rate`.
pub open spec fn shard_of(token_mint: Pubkey, rate: u8, shard_count: u64) -> nat
    recommends
        shard_count > 0,
{
    shard_of_digest(sha256_digest(shard_preimage(token_mint, rate)), shard_count)
}

/// Reduces a digest to a shard: its first eight bytes, read least
/// significant byte first, modulo the number of shards.
pub fn shard_from_digest(digest: &[u8; 32], shard_count: u64) -> (shard_id: u64)
    requires
        shard_count > 0,
    ensures
        shard_id == shard_of_digest(digest@, shard_count),
        shard_id < shard_count,
{
    let acc7: u64 = digest[7] as u64;
    let acc6: u64 = digest[6] as u64 + 0x100 * acc7;
    let acc5: u64 = digest[5] as u64 + 0x100 * acc6;
    let acc4: u64 = digest[4] as u64 + 0x100 * acc5;
    let acc3: u64 = digest[3] as u64 + 0x100 * acc4;
    let acc2: u64 = digest[2] as u64 + 0x100 * acc3;
    let acc1: u64 = digest[1] as u64 + 0x100 * acc2;
    let word: u64 = digest[0] as u64 + 0x100 * acc1;
    word % shard_count
}

/// Routes the orders for `token_mint` at `rate` to one of `shard_count`
/// shards: the SHA-256 digest of the token's address followed by the rate,
/// reduced modulo the number of shards. The same order always finds the same
/// shard.
pub fn compute_shard_id(token_mint: &Pubkey, rate: u8, shard_count: u64) -> (shard_id: u64)
    requires
        shard_count > 0,
    ensures
        shard_id == shard_of(*token_mint, rate, shard_count),
        shard_id < shard_count,
{
    let mut preimage: Vec<u8> = Vec::with_capacity(33);
    let mut i: usize = 0;
    while i < 32
        invariant
            i <= 32,
            preimage@ == token_mint@.take(i as int),
        decreases 32 - i,
    {
        preimage.push(token_mint.bytes[i]);
        assert(token_mint@.take(i + 1) =~= token_mint@.take(i as int).push(token_mint@[i as int]));
        i += 1;
    }
    assert(token_mint@.take(32) =~= token_mint@);
    preimage.push(rate);
    let digest = sha256(preimage.as_slice());
    shard_from_digest(&digest, shard_count)
}

/// The widest gap between an ask's rate and a bid's rate at which the two
/// still match.
pub const RATE_TOLERANCE: u8 = 5;

/// A bid and an ask match when they are for the same token, the bid's
/// lowest rate does not exceed the ask's highest, and the two rates lie
/// within the tolerance of each other.
pub open spec fn crosses(bid: Bid, ask: Ask) -> bool {
    &&& ask.token_mint == bid.token_mint
    &&& bid.min_rate <= ask.max_rate
    &&& ask.max_rate - bid.min_rate <= RATE_TOLERANCE
}

/// The rate of a loan between a bid at `min_rate` and an ask at `max_rate`:
/// the midpoint of the two, rounded down, and never above the ask's rate.
pub open spec fn agreed_rate(min_rate: u8, max_rate: u8) -> u8 {
    let mid = (min_rate + max_rate) / 2;
    if mid <= max_rate {
        mid as u8
    } else {
        max_rate
    }
}

/// Where a bid and an ask match, the rate agreed lies between the bid's
/// lowest and the ask's highest rate.
pub proof fn lemma_agreed_rate_between(bid: Bid, ask: Ask)
    requires
        crosses(bid, ask),
    ensures
        bid.min_rate <= agreed_rate(bid.min_rate, ask.max_rate) <= ask.max_rate,
        agreed_rate(bid.min_rate, ask.max_rate) == (bid.min_rate + ask.max_rate) / 2,
{
}

/// The smaller of two amounts.
pub open spec fn min_amount(a: u64, b: u64) -> u64 {
    if a <= b {
        a
    } else {
        b
    }
}

/// What a bid with `remaining` still to lend takes from a matching ask: the
/// ask, cut down to the amount matched, and the agreed rate.
pub open spec fn ask_fill(bid: Bid, ask: Ask, remaining: u64) -> (Ask, u8) {
    (
        Ask { amount: min_amount(remaining, ask.amount), ..ask },
        agreed_rate(bid.min_rate, ask.max_rate),
    )
}

/// The fills of an incoming bid with `remaining` to lend against the asks
/// of a book, taken from the front: every matching ask is filled in turn
/// until nothing remains to lend.
pub open spec fn bid_fills(bid: Bid, asks: Seq<Ask>, remaining: u64) -> Seq<(Ask, u8)>
    decreases asks.len(),
{
    if asks.len() == 0 || remaining == 0 {
        Seq::empty()
    } else if crosses(bid, asks[0]) {
        let fill = ask_fill(bid, asks[0], remaining);
        seq![fill] + bid_fills(bid, asks.drop_first(), (remaining - fill.0.amount) as u64)
    } else {
        bid_fills(bid, asks.drop_first(), remaining)
    }
}

/// The asks that stay in the book after an incoming bid with `remaining` to
/// lend has taken its fills. An ask that was matched leaves the book whole,
/// whatever part of it was filled.
pub open spec fn asks_after_bid(bid: Bid, asks: Seq<Ask>, remaining: u64) -> Seq<Ask>
    decreases asks.len(),
{
    if asks.len() == 0 || remaining == 0 {
        asks
    } else if crosses(bid, asks[0]) {
        let fill = ask_fill(bid, asks[0], remaining);
        asks_after_bid(bid, asks.drop_first(), (remaining - fill.0.amount) as u64)
    } else {
        seq![asks[0]] + asks_after_bid(bid, asks.drop_first(), remaining)
    }
}

/// Whether `bid` and `ask` match.
pub fn orders_cross(bid: &Bid, ask: &Ask) -> (matching: bool)
    ensures
        matching == crosses(*bid, *ask),
{
    ask.token_mint == bid.token_mint && bid.min_rate <= ask.max_rate && ask.max_rate
        - bid.min_rate <= RATE_TOLERANCE
}

/// The rate of a loan between a bid at `min_rate` and an ask at `max_rate`.
pub fn loan_rate(min_rate: u8, max_rate: u8) -> (rate: u8)
    ensures
        rate == agreed_rate(min_rate, max_rate),
{
    let mid: u16 = (min_rate as u16 + max_rate as u16) / 2;
    if mid <= max_rate as u16 {
        mid as u8
    } else {
        max_rate
    }
}

/// Matches an incoming bid against the asks of a book, from the front.
///
/// Each matching ask is removed from the book and reported with the amount
/// matched and the agreed rate, until the bid's amount is used up or the
/// book is exhausted. The rest of a removed ask is not put back.
pub fn match_bid(bid: &Bid, asks: &mut Vec<Ask>) -> (res: Result<Vec<(Ask, u8)>, ErrorCode>)
    ensures
        res is Ok,
        res->Ok_0@ == bid_fills(*bid, old(asks)@, bid.amount),
        final(asks)@ == asks_after_bid(*bid, old(asks)@, bid.amount),
{
    let mut matches: Vec<(Ask, u8)> = Vec::new();
    let mut remaining_amount: u64 = bid.amount;
    let mut i: usize = 0;
    assert(asks@.skip(0) =~= asks@);
    assert(asks@.take(0) + asks@ =~= asks@);
    while i < asks.len() && remaining_amount > 0
        invariant
            i <= asks@.len(),
            bid_fills(*bid, old(asks)@, bid.amount) == matches@ + bid_fills(
                *bid,
                asks@.skip(i as int),
                remaining_amount,
            ),
            asks_after_bid(*bid, old(asks)@, bid.amount) == asks@.take(i as int) + asks_after_bid(
                *bid,
                asks@.skip(i as int),
                remaining_amount,
            ),
        decreases asks@.len() - i,
    {
        let ghost resting = asks@;
        let ghost rest = asks@.skip(i as int);
        let ask = asks[i];
        assert(rest[0] == ask);
        assert(rest.drop_first() =~= resting.skip(i + 1));
        if orders_cross(bid, &ask) {
            let match_amount = if remaining_amount <= ask.amount {
                remaining_amount
            } else {
                ask.amount
            };
            let rate = loan_rate(bid.min_rate, ask.max_rate);
            let matched_ask = asks.remove(i);
            let ghost fill = (Ask { amount: match_amount, ..matched_ask }, rate);
            assert(fill == ask_fill(*bid, ask, remaining_amount));
            assert(matches@.push(fill) + bid_fills(
                *bid,
                rest.drop_first(),
                (remaining_amount - match_amount) as u64,
            ) =~= matches@ + (seq![fill] + bid_fills(
                *bid,
                rest.drop_first(),
                (remaining_amount - match_amount) as u64,
            )));
            matches.push((Ask { amount: match_amount, ..matched_ask }, rate));
            remaining_amount = remaining_amount - match_amount;
            assert(asks@.skip(i as int) =~= resting.skip(i + 1));
            assert(asks@.take(i as int) =~= resting.take(i as int));
        } else {
            assert(resting.take(i + 1) + asks_after_bid(*bid, rest.drop_first(), remaining_amount)
                =~= resting.take(i as int) + (seq![ask] + asks_after_bid(
                *bid,
                rest.drop_first(),
                remaining_amount,
            )));
            i += 1;
        }
    }
    assert(asks@.take(i as int) + asks@.skip(i as int) =~= asks@);
    assert(matches@ + Seq::<(Ask, u8)>::empty() =~= matches@);
    Ok(matches)
}

/// What an ask with `remaining` still to borrow takes from a matching bid:
/// the bid, cut down to the amount matched, and the agreed rate.
pub open spec fn bid_fill(ask: Ask, bid: Bid, remaining: u64) -> (Bid, u8) {
    (
        Bid { amount: min_amount(remaining, bid.amount), ..bid },
        agreed_rate(bid.min_rate, ask.max_rate),
    )
}

/// The fills of an incoming ask with `remaining` to borrow against the bids
/// of a book, taken from the front: every matching bid is filled in turn
/// until nothing remains to borrow.
pub open spec fn ask_fills(ask: Ask, bids: Seq<Bid>, remaining: u64) -> Seq<(Bid, u8)>
    decreases bids.len(),
{
    if bids.len() == 0 || remaining == 0 {
        Seq::empty()
    } else if crosses(bids[0], ask) {
        let fill = bid_fill(ask, bids[0], remaining);
        seq![fill] + ask_fills(ask, bids.drop_first(), (remaining - fill.0.amount) as u64)
    } else {
        ask_fills(ask, bids.drop_first(), remaining)
    }
}

/// The bids that stay in the book after an incoming ask with `remaining` to
/// borrow has taken its fills. A bid that was matched leaves the book whole,
/// whatever part of it was filled.
pub open spec fn bids_after_ask(ask: Ask, bids: Seq<Bid>, remaining: u64) -> Seq<Bid>
    decreases bids.len(),
{
    if bids.len() == 0 || remaining == 0 {
        bids
    } else if crosses(bids[0], ask) {
        let fill = bid_fill(ask, bids[0], remaining);
        bids_after_ask(ask, bids.drop_first(), (remaining - fill.0.amount) as u64)
    } else {
        seq![bids[0]] + bids_after_ask(ask, bids.drop_first(), remaining)
    }
}

/// Matches an incoming ask against the bids of a book, from the front.
///
/// Each matching bid is removed from the book and reported with the amount
/// matched and the agreed rate, until the ask's amount is used up or the
/// book is exhausted. The rest of a removed bid is not put back.
pub fn match_ask(ask: &Ask, bids: &mut Vec<Bid>) -> (res: Result<Vec<(Bid, u8)>, ErrorCode>)
    ensures
        res is Ok,
        res->Ok_0@ == ask_fills(*ask, old(bids)@, ask.amount),
        final(bids)@ == bids_after_ask(*ask, old(bids)@, ask.amount),
{
    let mut matches: Vec<(Bid, u8)> = Vec::new();
    let mut remaining_amount: u64 = ask.amount;
    let mut i: usize = 0;
    assert(bids@.skip(0) =~= bids@);
    assert(bids@.take(0) + bids@ =~= bids@);
    while i < bids.len() && remaining_amount > 0
        invariant
            i <= bids@.len(),
            ask_fills(*ask, old(bids)@, ask.amount) == matches@ + ask_fills(
                *ask,
                bids@.skip(i as int),
                remaining_amount,
            ),
            bids_after_ask(*ask, old(bids)@, ask.amount) == bids@.take(i as int) + bids_after_ask(
                *ask,
                bids@.skip(i as int),
                remaining_amount,
            ),
        decreases bids@.len() - i,
    {
        let ghost resting = bids@;
        let ghost rest = bids@.skip(i as int);
        let bid = bids[i];
        assert(rest[0] == bid);
        assert(rest.drop_first() =~= resting.skip(i + 1));
        if orders_cross(&bid, ask) {
            let match_amount = if remaining_amount <= bid.amount {
                remaining_amount
            } else {
                bid.amount
            };
            let rate = loan_rate(bid.min_rate, ask.max_rate);
            let matched_bid = bids.remove(i);
            let ghost fill = (Bid { amount: match_amount, ..matched_bid }, rate);
            assert(fill == bid_fill(*ask, bid, remaining_amount));
            assert(matches@.push(fill) + ask_fills(
                *ask,
                rest.drop_first(),
                (remaining_amount - match_amount) as u64,
            ) =~= matches@ + (seq![fill] + ask_fills(
                *ask,
                rest.drop_first(),
                (remaining_amount - match_amount) as u64,
            )));
            matches.push((Bid { amount: match_amount, ..matched_bid }, rate));
            remaining_amount = remaining_amount - match_amount;
            assert(bids@.skip(i as int) =~= resting.skip(i + 1));
            assert(bids@.take(i as int) =~= resting.take(i as int));
        } else {
            assert(resting.take(i + 1) + bids_after_ask(*ask, rest.drop_first(), remaining_amount)
                =~= resting.take(i as int) + (seq![bid] + bids_after_ask(
                *ask,
                rest.drop_first(),
                remaining_amount,
            )));
            i += 1;
        }
    }
    assert(bids@.take(i as int) + bids@.skip(i as int) =~= bids@);
    assert(matches@ + Seq::<(Bid, u8)>::empty() =~= matches@);
    Ok(matches)
}

/// The amounts of the fills of a bid, added up.
pub open spec fn ask_fills_total(fills: Seq<(Ask, u8)>) -> nat
    decreases fills.len(),
{
    if fills.len() == 0 {
        0
    } else {
        fills[0].0.amount as nat + ask_fills_total(fills.drop_first())
    }
}

/// The amounts of the fills of an ask, added up.
pub open spec fn bid_fills_total(fills: Seq<(Bid, u8)>) -> nat
    decreases fills.len(),
{
    if fills.len() == 0 {
        0
    } else {
        fills[0].0.amount as nat + bid_fills_total(fills.drop_first())
    }
}

/// A bid is never filled beyond what it had to lend; every ask of the book
/// is either filled or stays; and where nothing was filled the book is as
/// it was.
pub proof fn lemma_bid_fills_bounded(bid: Bid, asks: Seq<Ask>, remaining: u64)
    ensures
        ask_fills_total(bid_fills(bid, asks, remaining)) <= remaining,
        bid_fills(bid, asks, remaining).len() + asks_after_bid(bid, asks, remaining).len()
            == asks.len(),
        bid_fills(bid, asks, remaining).len() == 0 ==> asks_after_bid(bid, asks, remaining)
            == asks,
    decreases asks.len(),
{
    if asks.len() == 0 || remaining == 0 {
    } else if crosses(bid, asks[0]) {
        let fill = ask_fill(bid, asks[0], remaining);
        let left = (remaining - fill.0.amount) as u64;
        lemma_bid_fills_bounded(bid, asks.drop_first(), left);
        let tail = bid_fills(bid, asks.drop_first(), left);
        assert((seq![fill] + tail).drop_first() =~= tail);
    } else {
        lemma_bid_fills_bounded(bid, asks.drop_first(), remaining);
        let kept = asks_after_bid(bid, asks.drop_first(), remaining);
        if bid_fills(bid, asks, remaining).len() == 0 {
            assert(seq![asks[0]] + asks.drop_first() =~= asks);
        }
    }
}

/// An ask is never filled beyond what it had to borrow; every bid of the
/// book is either filled or stays; and where nothing was filled the book is
/// as it was.
pub proof fn lemma_ask_fills_bounded(ask: Ask, bids: Seq<Bid>, remaining: u64)
    ensures
        bid_fills_total(ask_fills(ask, bids, remaining)) <= remaining,
        ask_fills(ask, bids, remaining).len() + bids_after_ask(ask, bids, remaining).len()
            == bids.len(),
        ask_fills(ask, bids, remaining).len() == 0 ==> bids_after_ask(ask, bids, remaining)
            == bids,
    decreases bids.len(),
{
    if bids.len() == 0 || remaining == 0 {
    } else if crosses(bids[0], ask) {
        let fill = bid_fill(ask, bids[0], remaining);
        let left = (remaining - fill.0.amount) as u64;
        lemma_ask_fills_bounded(ask, bids.drop_first(), left);
        let tail = ask_fills(ask, bids.drop_first(), left);
        assert((seq![fill] + tail).drop_first() =~= tail);
    } else {
        lemma_ask_fills_bounded(ask, bids.drop_first(), remaining);
        if ask_fills(ask, bids, remaining).len() == 0 {
            assert(seq![bids[0]] + bids.drop_first() =~= bids);
        }
    }
}

/// Every ask that stays after a bid was matched was in the book before.
pub proof fn lemma_asks_after_bid_subset(bid: Bid, asks: Seq<Ask>, remaining: u64)
    ensures
        forall|k: int|
            0 <= k < asks_after_bid(bid, asks, remaining).len() ==> asks.contains(
                #[trigger] asks_after_bid(bid, asks, remaining)[k],
            ),
    decreases asks.len(),
{
    let kept = asks_after_bid(bid, asks, remaining);
    if asks.len() == 0 || remaining == 0 {
        assert forall|k: int| 0 <= k < kept.len() implies asks.contains(#[trigger] kept[k]) by {
            assert(asks[k] == kept[k]);
        }
    } else {
        let tail = asks.drop_first();
        let left = if crosses(bid, asks[0]) {
            (remaining - ask_fill(bid, asks[0], remaining).0.amount) as u64
        } else {
            remaining
        };
        lemma_asks_after_bid_subset(bid, tail, left);
        let kept_tail = asks_after_bid(bid, tail, left);
        assert forall|k: int| 0 <= k < kept.len() implies asks.contains(#[trigger] kept[k]) by {
            if crosses(bid, asks[0]) {
                assert(tail.contains(kept_tail[k]));
                let m = choose|m: int| 0 <= m < tail.len() && tail[m] == kept_tail[k];
                assert(asks[m + 1] == kept[k]);
            } else if k == 0 {
                assert(asks[0] == kept[k]);
            } else {
                assert(kept[k] == kept_tail[k - 1]);
                assert(tail.contains(kept_tail[k - 1]));
                let m = choose|m: int| 0 <= m < tail.len() && tail[m] == kept_tail[k - 1];
                assert(asks[m + 1] == kept[k]);
            }
        }
    }
}

/// Matching a bid leaves the asks of a book in order.
pub proof fn lemma_asks_after_bid_sorted(bid: Bid, asks: Seq<Ask>, remaining: u64)
    requires
        asks_sorted(asks),
    ensures
        asks_sorted(asks_after_bid(bid, asks, remaining)),
    decreases asks.len(),
{
    let kept = asks_after_bid(bid, asks, remaining);
    if asks.len() == 0 || remaining == 0 {
    } else {
        let tail = asks.drop_first();
        assert(asks_sorted(tail)) by {
            assert forall|i: int, j: int| 0 <= i <= j < tail.len() implies tail[i].max_rate
                >= tail[j].max_rate by {
                assert(tail[i] == asks[i + 1] && tail[j] == asks[j + 1]);
            }
        }
        if crosses(bid, asks[0]) {
            let left = (remaining - ask_fill(bid, asks[0], remaining).0.amount) as u64;
            lemma_asks_after_bid_sorted(bid, tail, left);
        } else {
            lemma_asks_after_bid_sorted(bid, tail, remaining);
            lemma_asks_after_bid_subset(bid, tail, remaining);
            let kept_tail = asks_after_bid(bid, tail, remaining);
            assert forall|i: int, j: int| 0 <= i <= j < kept.len() implies kept[i].max_rate
                >= kept[j].max_rate by {
                if i == 0 && j > 0 {
                    assert(kept[j] == kept_tail[j - 1]);
                    assert(tail.contains(kept_tail[j - 1]));
                    let m = choose|m: int| 0 <= m < tail.len() && tail[m] == kept_tail[j - 1];
                    assert(asks[m + 1] == kept[j]);
                } else if i > 0 {
                    assert(kept[i] == kept_tail[i - 1] && kept[j] == kept_tail[j - 1]);
                }
            }
        }
    }
}

/// Every bid that stays after an ask was matched was in the book before.
pub proof fn lemma_bids_after_ask_subset(ask: Ask, bids: Seq<Bid>, remaining: u64)
    ensures
        forall|k: int|
            0 <= k < bids_after_ask(ask, bids, remaining).len() ==> bids.contains(
                #[trigger] bids_after_ask(ask, bids, remaining)[k],
            ),
    decreases bids.len(),
{
    let kept = bids_after_ask(ask, bids, remaining);
    if bids.len() == 0 || remaining == 0 {
        assert forall|k: int| 0 <= k < kept.len() implies bids.contains(#[trigger] kept[k]) by {
            assert(bids[k] == kept[k]);
        }
    } else {
        let tail = bids.drop_first();
        let left = if crosses(bids[0], ask) {
            (remaining - bid_fill(ask, bids[0], remaining).0.amount) as u64
        } else {
            remaining
        };
        lemma_bids_after_ask_subset(ask, tail, left);
        let kept_tail = bids_after_ask(ask, tail, left);
        assert forall|k: int| 0 <= k < kept.len() implies bids.contains(#[trigger] kept[k]) by {
            if crosses(bids[0], ask) {
                assert(tail.contains(kept_tail[k]));
                let m = choose|m: int| 0 <= m < tail.len() && tail[m] == kept_tail[k];
                assert(bids[m + 1] == kept[k]);
            } else if k == 0 {
                assert(bids[0] == kept[k]);
            } else {
                assert(kept[k] == kept_tail[k - 1]);
                assert(tail.contains(kept_tail[k - 1]));
                let m = choose|m: int| 0 <= m < tail.len() && tail[m] == kept_tail[k - 1];
                assert(bids[m + 1] == kept[k]);
            }
        }
    }
}

/// Matching an ask leaves the bids of a book in order.
pub proof fn lemma_bids_after_ask_sorted(ask: Ask, bids: Seq<Bid>, remaining: u64)
    requires
        bids_sorted(bids),
    ensures
        bids_sorted(bids_after_ask(ask, bids, remaining)),
    decreases bids.len(),
{
    let kept = bids_after_ask(ask, bids, remaining);
    if bids.len() == 0 || remaining == 0 {
    } else {
        let tail = bids.drop_first();
        assert(bids_sorted(tail)) by {
            assert forall|i: int, j: int| 0 <= i <= j < tail.len() implies tail[i].min_rate
                <= tail[j].min_rate by {
                assert(tail[i] == bids[i + 1] && tail[j] == bids[j + 1]);
            }
        }
        if crosses(bids[0], ask) {
            let left = (remaining - bid_fill(ask, bids[0], remaining).0.amount) as u64;
            lemma_bids_after_ask_sorted(ask, tail, left);
        } else {
            lemma_bids_after_ask_sorted(ask, tail, remaining);
            lemma_bids_after_ask_subset(ask, tail, remaining);
            let kept_tail = bids_after_ask(ask, tail, remaining);
            assert forall|i: int, j: int| 0 <= i <= j < kept.len() implies kept[i].min_rate
                <= kept[j].min_rate by {
                if i == 0 && j > 0 {
                    assert(kept[j] == kept_tail[j - 1]);
                    assert(tail.contains(kept_tail[j - 1]));
                    let m = choose|m: int| 0 <= m < tail.len() && tail[m] == kept_tail[j - 1];
                    assert(bids[m + 1] == kept[j]);
                } else if i > 0 {
                    assert(kept[i] == kept_tail[i - 1] && kept[j] == kept_tail[j - 1]);
                }
            }
        }
    }
}

/// Where a bid at `rate` goes in a book: behind the last bid whose rate is
/// not above it, so that bids at the same rate stay in order of arrival.
pub open spec fn bid_slot(bids: Seq<Bid>, rate: u8) -> int
    decreases bids.len(),
{
    if bids.len() == 0 {
        0
    } else if bids.last().min_rate <= rate {
        bids.len() as int
    } else {
        bid_slot(bids.drop_last(), rate)
    }
}

/// Where an ask at `rate` goes in a book: behind the last ask whose rate is
/// not below it, so that asks at the same rate stay in order of arrival.
pub open spec fn ask_slot(asks: Seq<Ask>, rate: u8) -> int
    decreases asks.len(),
{
    if asks.len() == 0 {
        0
    } else if asks.last().max_rate >= rate {
        asks.len() as int
    } else {
        ask_slot(asks.drop_last(), rate)
    }
}

/// The slot of a bid is a place in the book or right behind it.
pub proof fn lemma_bid_slot_in_range(bids: Seq<Bid>, rate: u8)
    ensures
        0 <= bid_slot(bids, rate) <= bids.len(),
    decreases bids.len(),
{
    if bids.len() > 0 && bids.last().min_rate > rate {
        lemma_bid_slot_in_range(bids.drop_last(), rate);
    }
}

/// The slot of an ask is a place in the book or right behind it.
pub proof fn lemma_ask_slot_in_range(asks: Seq<Ask>, rate: u8)
    ensures
        0 <= ask_slot(asks, rate) <= asks.len(),
    decreases asks.len(),
{
    if asks.len() > 0 && asks.last().max_rate < rate {
        lemma_ask_slot_in_range(asks.drop_last(), rate);
    }
}

/// In a book in order, the slot of a bid is the one place that has every
/// bid at or below its rate in front of it and every bid above its rate
/// behind it.
pub proof fn lemma_bid_slot_unique(bids: Seq<Bid>, rate: u8, k: int)
    requires
        0 <= k <= bids.len(),
        forall|j: int| 0 <= j < k ==> bids[j].min_rate <= rate,
        forall|j: int| k <= j < bids.len() ==> bids[j].min_rate > rate,
    ensures
        bid_slot(bids, rate) == k,
    decreases bids.len(),
{
    if bids.len() == 0 {
    } else if bids.last().min_rate <= rate {
    } else {
        let front = bids.drop_last();
        assert(k < bids.len());
        lemma_bid_slot_unique(front, rate, k);
    }
}

/// In a book in order, the slot of an ask is the one place that has every
/// ask at or above its rate in front of it and every ask below its rate
/// behind it.
pub proof fn lemma_ask_slot_unique(asks: Seq<Ask>, rate: u8, k: int)
    requires
        0 <= k <= asks.len(),
        forall|j: int| 0 <= j < k ==> asks[j].max_rate >= rate,
        forall|j: int| k <= j < asks.len() ==> asks[j].max_rate < rate,
    ensures
        ask_slot(asks, rate) == k,
    decreases asks.len(),
{
    if asks.len() == 0 {
    } else if asks.last().max_rate >= rate {
    } else {
        let front = asks.drop_last();
        assert(k < asks.len());
        lemma_ask_slot_unique(front, rate, k);
    }
}

/// Puts `bid` into the book at its slot: behind every bid whose rate is not
/// above its own. The bids stay in ascending order of rate.
pub fn insert_sorted_bid(shard_pool: &mut ShardPool, bid: Bid)
    requires
        bids_sorted(old(shard_pool).bids@),
    ensures
        final(shard_pool).bids@ == old(shard_pool).bids@.insert(
            bid_slot(old(shard_pool).bids@, bid.min_rate),
            bid,
        ),
        0 <= bid_slot(old(shard_pool).bids@, bid.min_rate) <= old(shard_pool).bids@.len(),
        bids_sorted(final(shard_pool).bids@),
        final(shard_pool).asks == old(shard_pool).asks,
        final(shard_pool).shard_id == old(shard_pool).shard_id,
{
    let mut lo: usize = 0;
    let mut hi: usize = shard_pool.bids.len();
    while lo < hi
        invariant
            lo <= hi <= shard_pool.bids@.len(),
            bids_sorted(shard_pool.bids@),
            forall|j: int| 0 <= j < lo ==> shard_pool.bids@[j].min_rate <= bid.min_rate,
            forall|j: int|
                hi <= j < shard_pool.bids@.len() ==> shard_pool.bids@[j].min_rate > bid.min_rate,
        decreases hi - lo,
    {
        let mid = lo + (hi - lo) / 2;
        if shard_pool.bids[mid].min_rate <= bid.min_rate {
            lo = mid + 1;
        } else {
            hi = mid;
        }
    }
    proof {
        lemma_bid_slot_unique(shard_pool.bids@, bid.min_rate, lo as int);
    }
    let ghost before = shard_pool.bids@;
    shard_pool.bids.insert(lo, bid);
    assert(bids_sorted(shard_pool.bids@)) by {
        let after = shard_pool.bids@;
        assert forall|i: int, j: int| 0 <= i <= j < after.len() implies after[i].min_rate
            <= after[j].min_rate by {
            if i < lo && j > lo {
                assert(after[i] == before[i] && after[j] == before[j - 1]);
            } else if i > lo {
                assert(after[i] == before[i - 1] && after[j] == before[j - 1]);
            }
        }
    }
}

/// Puts `ask` into the book at its slot: behind every ask whose rate is not
/// below its own. The asks stay in descending order of rate.
pub fn insert_sorted_ask(shard_pool: &mut ShardPool, ask: Ask)
    requires
        asks_sorted(old(shard_pool).asks@),
    ensures
        final(shard_pool).asks@ == old(shard_pool).asks@.insert(
            ask_slot(old(shard_pool).asks@, ask.max_rate),
            ask,
        ),
        0 <= ask_slot(old(shard_pool).asks@, ask.max_rate) <= old(shard_pool).asks@.len(),
        asks_sorted(final(shard_pool).asks@),
        final(shard_pool).bids == old(shard_pool).bids,
        final(shard_pool).shard_id == old(shard_pool).shard_id,
{
    let mut lo: usize = 0;
    let mut hi: usize = shard_pool.asks.len();
    while lo < hi
        invariant
            lo <= hi <= shard_pool.asks@.len(),
            asks_sorted(shard_pool.asks@),
            forall|j: int| 0 <= j < lo ==> shard_pool.asks@[j].max_rate >= ask.max_rate,
            forall|j: int|
                hi <= j < shard_pool.asks@.len() ==> shard_pool.asks@[j].max_rate < ask.max_rate,
        decreases hi - lo,
    {
        let mid = lo + (hi - lo) / 2;
        if shard_pool.asks[mid].max_rate >= ask.max_rate {
            lo = mid + 1;
        } else {
            hi = mid;
        }
    }
    proof {
        lemma_ask_slot_unique(shard_pool.asks@, ask.max_rate, lo as int);
    }
    let ghost before = shard_pool.asks@;
    shard_pool.asks.insert(lo, ask);
    assert(asks_sorted(shard_pool.asks@)) by {
        let after = shard_pool.asks@;
        assert forall|i: int, j: int| 0 <= i <= j < after.len() implies after[i].max_rate
            >= after[j].max_rate by {
            if i < lo && j > lo {
                assert(after[i] == before[i] && after[j] == before[j - 1]);
            } else if i > lo {
                assert(after[i] == before[i - 1] && after[j] == before[j - 1]);
            }
        }
    }
}

/// A copy of `items`.
pub fn copy_vec<T: Copy>(items: &Vec<T>) -> (copy: Vec<T>)
    ensures
        copy@ == items@,
{
    let mut copy: Vec<T> = Vec::with_capacity(items.len());
    let mut i: usize = 0;
    while i < items.len()
        invariant
            i <= items@.len(),
            copy@ == items@.take(i as int),
        decreases items@.len() - i,
    {
        copy.push(items[i]);
        assert(items@.take(i + 1) =~= items@.take(i as int).push(items@[i as int]));
        i += 1;
    }
    assert(items@.take(items@.len() as int) =~= items@);
    copy
}

/// One account of an instruction: its address, whether it signs, and
/// whether the instruction may write to it.
#[derive(Clone, Copy, Debug, PartialEq, Eq)]
pub struct AccountMeta {
    pub pubkey: Pubkey,
    pub is_signer: bool,
    pub is_writable: bool,
}

impl AccountMeta {
    /// An account that the instruction may write to.
    pub fn new(pubkey: Pubkey, is_signer: bool) -> (meta: AccountMeta)
        ensures
            meta == writable(pubkey, is_signer),
    {
        AccountMeta { pubkey, is_signer, is_writable: true }
    }

    /// An account that the instruction only reads.
    pub fn new_readonly(pubkey: Pubkey, is_signer: bool) -> (meta: AccountMeta)
        ensures
            meta == readonly(pubkey, is_signer),
    {
        AccountMeta { pubkey, is_signer, is_writable: false }
    }
}

/// An instruction for another program: the program, the accounts it is to
/// work on, and the bytes it is to read.
#[derive(Clone, Debug, PartialEq, Eq)]
pub struct Instruction {
    pub program_id: Pubkey,
    pub accounts: Vec<AccountMeta>,
    pub data: Vec<u8>,
}

/// An account that an instruction may write to.
pub open spec fn writable(pubkey: Pubkey, is_signer: bool) -> AccountMeta {
    AccountMeta { pubkey, is_signer, is_writable: true }
}

/// An account that an instruction only reads.
pub open spec fn readonly(pubkey: Pubkey, is_signer: bool) -> AccountMeta {
    AccountMeta { pubkey, is_signer, is_writable: false }
}

/// The eight bytes of `value`, least significant first.
pub open spec fn le_bytes(value: u64) -> Seq<u8> {
    seq![
        (value % 0x100) as u8,
        (value / 0x100 % 0x100) as u8,
        (value / 0x1_0000 % 0x100) as u8,
        (value / 0x100_0000 % 0x100) as u8,
        (value / 0x1_0000_0000 % 0x100) as u8,
        (value / 0x100_0000_0000 % 0x100) as u8,
        (value / 0x1_0000_0000_0000 % 0x100) as u8,
        (value / 0x100_0000_0000_0000 % 0x100) as u8,
    ]
}

/// The 32 bytes of the address `TokenkegQfeZyiNwAJbNbGKPFXCWuBvf9Ss623VQ5DA`,
/// under which the token program runs.
pub const TOKEN_PROGRAM_ID: [u8; 32] = [
    6, 221, 246, 225, 215, 101, 161, 147, 217, 203, 225, 70, 206, 235, 121, 172, 28, 180, 133, 237,
    95, 91, 55, 145, 58, 140, 245, 133, 126, 255, 0, 169,
];

/// The address of the token program.
pub open spec fn token_program() -> Pubkey {
    Pubkey { bytes: TOKEN_PROGRAM_ID }
}

/// Reads `anchor_spl::token::ID`, the address that the token program
/// declares for itself, `TokenkegQfeZyiNwAJbNbGKPFXCWuBvf9Ss623VQ5DA`, and
/// hands back its 32 bytes. The contract claims that these are the bytes
/// which that address spells.
#[verifier::external_body]
fn token_program_id() -> (id: Pubkey)
    ensures
        id == token_program(),
{
    Pubkey { bytes: anchor_spl::token::ID.to_bytes() }
}

/// The tag of the instruction that swaps a fixed amount in.
pub const SWAP_BASE_IN: u8 = 9;

/// The bytes of a swap instruction: the tag, the amount that goes in, and
/// the least amount that must come out.
pub open spec fn swap_data(amount_in: u64, minimum_amount_out: u64) -> Seq<u8> {
    seq![SWAP_BASE_IN] + le_bytes(amount_in) + le_bytes(minimum_amount_out)
}

/// The accounts of a swap instruction, in the order in which the exchange
/// reads them. Only the owner of the source signs; the last account is the
/// token program.
pub open spec fn swap_accounts(
    amm: Pubkey,
    amm_authority: Pubkey,
    amm_open_orders: Pubkey,
    amm_coin_vault: Pubkey,
    amm_pc_vault: Pubkey,
    market_program: Pubkey,
    market: Pubkey,
    market_bids: Pubkey,
    market_asks: Pubkey,
    market_event_queue: Pubkey,
    market_coin_vault: Pubkey,
    market_pc_vault: Pubkey,
    market_vault_signer: Pubkey,
    user_token_source: Pubkey,
    user_token_destination: Pubkey,
    user_source_owner: Pubkey,
) -> Seq<AccountMeta> {
    seq![
        writable(amm, false),
        readonly(amm_authority, false),
        writable(amm_open_orders, false),
        writable(amm_coin_vault, false),
        writable(amm_pc_vault, false),
        readonly(market_program, false),
        writable(market, false),
        writable(market_bids, false),
        writable(market_asks, false),
        writable(market_event_queue, false),
        writable(market_coin_vault, false),
        writable(market_pc_vault, false),
        readonly(market_vault_signer, false),
        writable(user_token_source, false),
        writable(user_token_destination, false),
        writable(user_source_owner, true),
        readonly(token_program(), false),
    ]
}

/// Appends the eight bytes of `value`, least significant first.
fn push_le_bytes(data: &mut Vec<u8>, value: u64)
    ensures
        final(data)@ == old(data)@ + le_bytes(value),
{
    let ghost before = data@;
    data.push((value % 0x100) as u8);
    data.push((value / 0x100 % 0x100) as u8);
    data.push((value / 0x1_0000 % 0x100) as u8);
    data.push((value / 0x100_0000 % 0x100) as u8);
    data.push((value / 0x1_0000_0000 % 0x100) as u8);
    data.push((value / 0x100_0000_0000 % 0x100) as u8);
    data.push((value / 0x1_0000_0000_0000 % 0x100) as u8);
    data.push((value / 0x100_0000_0000_0000 % 0x100) as u8);
    assert(data@ =~= before + le_bytes(value));
}

/// Builds the instruction that swaps `amount_in` from `user_token_source`
/// into `user_token_destination` on the outside exchange `program_id`, for
/// no less than `minimum_amount_out`.
pub fn create_raydium_swap_instruction(
    program_id: &Pubkey,
    amm: &Pubkey,
    amm_authority: &Pubkey,
    amm_open_orders: &Pubkey,
    amm_coin_vault: &Pubkey,
    amm_pc_vault: &Pubkey,
    market_program: &Pubkey,
    market: &Pubkey,
    market_bids: &Pubkey,
    market_asks: &Pubkey,
    market_event_queue: &Pubkey,
    market_coin_vault: &Pubkey,
    market_pc_vault: &Pubkey,
    market_vault_signer: &Pubkey,
    user_token_source: &Pubkey,
    user_token_destination: &Pubkey,
    user_source_owner: &Pubkey,
    amount_in: u64,
    minimum_amount_out: u64,
) -> (res: Result<Instruction, ErrorCode>)
    ensures
        res is Ok,
        res->Ok_0.program_id == *program_id,
        res->Ok_0.data@ == swap_data(amount_in, minimum_amount_out),
        res->Ok_0.accounts@ == swap_accounts(
            *amm,
            *amm_authority,
            *amm_open_orders,
            *amm_coin_vault,
            *amm_pc_vault,
            *market_program,
            *market,
            *market_bids,
            *market_asks,
            *market_event_queue,
            *market_coin_vault,
            *market_pc_vault,
            *market_vault_signer,
            *user_token_source,
            *user_token_destination,
            *user_source_owner,
        ),
{
    let mut data: Vec<u8> = Vec::with_capacity(17);
    data.push(SWAP_BASE_IN);
    assert(data@ =~= seq![SWAP_BASE_IN]);
    push_le_bytes(&mut data, amount_in);
    push_le_bytes(&mut data, minimum_amount_out);
    let mut accounts: Vec<AccountMeta> = Vec::with_capacity(17);
    accounts.push(AccountMeta::new(*amm, false));
    accounts.push(AccountMeta::new_readonly(*amm_authority, false));
    accounts.push(AccountMeta::new(*amm_open_orders, false));
    accounts.push(AccountMeta::new(*amm_coin_vault, false));
    accounts.push(AccountMeta::new(*amm_pc_vault, false));
    accounts.push(AccountMeta::new_readonly(*market_program, false));
    accounts.push(AccountMeta::new(*market, false));
    accounts.push(AccountMeta::new(*market_bids, false));
    accounts.push(AccountMeta::new(*market_asks, false));
    accounts.push(AccountMeta::new(*market_event_queue, false));
    accounts.push(AccountMeta::new(*market_coin_vault, false));
    accounts.push(AccountMeta::new(*market_pc_vault, false));
    accounts.push(AccountMeta::new_readonly(*market_vault_signer, false));
    accounts.push(AccountMeta::new(*user_token_source, false));
    accounts.push(AccountMeta::new(*user_token_destination, false));
    accounts.push(AccountMeta::new(*user_source_owner, true));
    accounts.push(AccountMeta::new_readonly(token_program_id(), false));
    assert(accounts@ =~= swap_accounts(
        *amm,
        *amm_authority,
        *amm_open_orders,
        *amm_coin_vault,
        *amm_pc_vault,
        *market_program,
        *market,
        *market_bids,
        *market_asks,
        *market_event_queue,
        *market_coin_vault,
        *market_pc_vault,
        *market_vault_signer,
        *user_token_source,
        *user_token_destination,
        *user_source_owner,
    ));
    Ok(Instruction { program_id: *program_id, accounts, data })
}

} // verus!
