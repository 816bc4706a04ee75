use lend_auction::{
    compute_shard_id, process_submit_ask, process_submit_bid, submit_ask_in_shard,
    submit_bid_in_shard, Ask, AskOutcome, AskSubmitted, Bid, BidOutcome, BidSubmitted, ErrorCode,
    LendAuction, Loan, LoanIssued, LoanPool, Pubkey, ShardPool, SubmitAsk, SubmitBid,
    TokenAccount, Transfer,
};

const SHARD: u64 = 2;
const NOW: u64 = 5000;

fn key(byte: u8) -> Pubkey {
    Pubkey::new_from_array([byte; 32])
}

fn token() -> Pubkey {
    key(100)
}

fn collateral_token() -> Pubkey {
    key(101)
}

fn auction() -> LendAuction {
    LendAuction {
        admin: key(1),
        shard_count: 4,
        total_loans: 0,
        supported_tokens: vec![token(), collateral_token()],
    }
}

fn account(address: u8, mint: Pubkey) -> TokenAccount {
    TokenAccount { key: key(address), owner: key(address + 100), mint, amount: 1_000_000 }
}

fn bid_ctx(bidder: u8) -> SubmitBid {
    SubmitBid {
        lend_auction: auction(),
        shard_pool: ShardPool::new(SHARD),
        loan_pool: LoanPool::new(SHARD),
        bidder: key(bidder),
        bidder_token_account: account(50, token()),
        vault_token_account: account(51, token()),
        borrower_token_account: account(52, token()),
        token_mint: token(),
    }
}

fn ask_ctx(asker: u8) -> SubmitAsk {
    SubmitAsk {
        lend_auction: auction(),
        shard_pool: ShardPool::new(SHARD),
        loan_pool: LoanPool::new(SHARD),
        asker: key(asker),
        asker_collateral_account: account(60, collateral_token()),
        vault_collateral_account: account(61, collateral_token()),
        vault_token_account: account(51, token()),
        borrower_token_account: account(52, token()),
        token_mint: token(),
        collateral_mint: collateral_token(),
    }
}

fn moved(from: u8, to: u8, mint: Pubkey, amount: u64) -> Transfer {
    Transfer { from: key(from), to: key(to), mint, amount }
}

fn resting_bid(lender: u8, amount: u64, min_rate: u8) -> Bid {
    Bid {
        lender: key(lender),
        amount,
        min_rate,
        slot: 10,
        token_mint: token(),
        duration_slots: 100,
    }
}

fn resting_ask(borrower: u8, amount: u64, max_rate: u8, collateral: u64) -> Ask {
    Ask {
        borrower: key(borrower),
        amount,
        max_rate,
        collateral,
        slot: 10,
        token_mint: token(),
        collateral_mint: collateral_token(),
    }
}

#[test]
fn bid_against_an_empty_ask_book_rests_unmatched() {
    let mut ctx = bid_ctx(7);
    let outcome = submit_bid_in_shard(&mut ctx, SHARD, 1000, 10, 100, NOW).unwrap();
    assert_eq!(
        outcome,
        BidOutcome::Resting {
            deposit: moved(50, 51, token(), 1000),
            event: BidSubmitted {
                lender: key(7),
                amount: 1000,
                min_rate: 10,
                shard_id: SHARD,
                token_mint: token(),
            },
        }
    );
    assert_eq!(ctx.shard_pool.bids.len() + ctx.shard_pool.asks.len(), 1);
    assert_eq!(
        ctx.shard_pool.bids,
        vec![Bid {
            lender: key(7),
            amount: 1000,
            min_rate: 10,
            slot: NOW,
            token_mint: token(),
            duration_slots: 100,
        }]
    );
    assert!(ctx.loan_pool.loans.is_empty());
    assert_eq!(ctx.lend_auction.total_loans, 0);
}

#[test]
fn ask_against_a_larger_bid_is_filled_and_becomes_a_loan() {
    let mut ctx = ask_ctx(8);
    ctx.shard_pool.bids = vec![resting_bid(7, 1000, 10)];
    let outcome = submit_ask_in_shard(&mut ctx, SHARD, 500, 12, 750, NOW).unwrap();
    assert_eq!(
        outcome,
        AskOutcome::Matched {
            deposit: moved(60, 61, collateral_token(), 750),
            payouts: vec![moved(51, 52, token(), 500)],
            loans: vec![LoanIssued {
                lender: key(7),
                borrower: key(8),
                amount: 500,
                rate: 11,
                shard_id: SHARD,
                token_mint: token(),
                collateral_mint: collateral_token(),
            }],
        }
    );
    assert_eq!(
        ctx.loan_pool.loans,
        vec![Loan {
            lender: key(7),
            borrower: key(8),
            amount: 500,
            rate: 11,
            collateral: 750,
            repaid: false,
            shard_id: SHARD,
            token_mint: token(),
            collateral_mint: collateral_token(),
            start_slot: NOW,
            duration_slots: 100,
        }]
    );
    assert_eq!(ctx.loan_pool.loans[0].collateral * 10, ctx.loan_pool.loans[0].amount * 15);
    assert_eq!(ctx.lend_auction.total_loans, 1);
    assert!(ctx.shard_pool.asks.is_empty());
    assert!(ctx.shard_pool.bids.is_empty());
}

#[test]
fn bid_matched_in_full_issues_a_loan_for_each_fill() {
    let mut ctx = bid_ctx(7);
    ctx.shard_pool.asks = vec![resting_ask(8, 600, 14, 900), resting_ask(9, 400, 12, 700)];
    ctx.lend_auction.total_loans = 41;
    let outcome = submit_bid_in_shard(&mut ctx, SHARD, 1000, 10, 250, NOW).unwrap();
    match outcome {
        BidOutcome::Matched { deposit, payouts, loans } => {
            assert_eq!(deposit, moved(50, 51, token(), 1000));
            assert_eq!(
                payouts,
                vec![moved(51, 52, token(), 600), moved(51, 52, token(), 400)]
            );
            assert_eq!(loans.len(), 2);
            assert_eq!(loans[0].amount + loans[1].amount, 1000);
            assert_eq!((loans[0].rate, loans[1].rate), (12, 11));
            assert_eq!((loans[0].borrower, loans[1].borrower), (key(8), key(9)));
        }
        BidOutcome::Resting { .. } => panic!("the bid was matched"),
    }
    assert_eq!(ctx.loan_pool.loans.len(), 2);
    assert_eq!(ctx.loan_pool.loans[0].collateral, 900);
    assert_eq!(ctx.loan_pool.loans[1].collateral, 700);
    assert_eq!(ctx.loan_pool.loans[1].duration_slots, 250);
    assert_eq!(ctx.loan_pool.loans[1].start_slot, NOW);
    assert!(!ctx.loan_pool.loans[0].repaid);
    assert_eq!(ctx.lend_auction.total_loans, 43);
    assert!(ctx.shard_pool.asks.is_empty());
    assert!(ctx.shard_pool.bids.is_empty());
}

#[test]
fn bid_matched_in_part_is_rejected_and_leaves_no_trace() {
    let mut ctx = bid_ctx(7);
    ctx.shard_pool.asks = vec![resting_ask(8, 500, 12, 750)];
    let before = ctx.clone();
    let res = submit_bid_in_shard(&mut ctx, SHARD, 1000, 10, 100, NOW);
    assert_eq!(res, Err(ErrorCode::PartialMatchNotAllowed));
    assert_eq!(ctx, before);
}

#[test]
fn ask_matched_in_part_is_rejected_and_leaves_no_trace() {
    let mut ctx = ask_ctx(8);
    ctx.shard_pool.bids = vec![resting_bid(7, 300, 10)];
    let before = ctx.clone();
    let res = submit_ask_in_shard(&mut ctx, SHARD, 500, 12, 750, NOW);
    assert_eq!(res, Err(ErrorCode::PartialMatchNotAllowed));
    assert_eq!(ctx, before);
}

#[test]
fn bid_against_thin_collateral_is_rejected() {
    let mut ctx = bid_ctx(7);
    ctx.shard_pool.asks = vec![resting_ask(8, 1000, 12, 1499)];
    let before = ctx.clone();
    let res = submit_bid_in_shard(&mut ctx, SHARD, 1000, 10, 100, NOW);
    assert_eq!(res, Err(ErrorCode::InsufficientCollateral));
    assert_eq!(ctx, before);
    ctx.shard_pool.asks = vec![resting_ask(8, 1000, 12, 1500)];
    assert!(submit_bid_in_shard(&mut ctx, SHARD, 1000, 10, 100, NOW).is_ok());
}

#[test]
fn collateral_must_cover_one_and_a_half_times_an_odd_amount() {
    let mut ctx = bid_ctx(7);
    ctx.shard_pool.asks = vec![resting_ask(8, 1, 12, 1)];
    assert_eq!(
        submit_bid_in_shard(&mut ctx, SHARD, 1, 10, 100, NOW),
        Err(ErrorCode::InsufficientCollateral)
    );
    ctx.shard_pool.asks = vec![resting_ask(8, 1, 12, 2)];
    assert!(submit_bid_in_shard(&mut ctx, SHARD, 1, 10, 100, NOW).is_ok());
}

#[test]
fn ask_with_thin_collateral_is_rejected() {
    let mut ctx = ask_ctx(8);
    ctx.shard_pool.bids = vec![resting_bid(7, 500, 10)];
    let before = ctx.clone();
    let res = submit_ask_in_shard(&mut ctx, SHARD, 500, 12, 749, NOW);
    assert_eq!(res, Err(ErrorCode::InsufficientCollateral));
    assert_eq!(ctx, before);
}

#[test]
fn ask_splits_its_collateral_over_its_fills() {
    let mut ctx = ask_ctx(8);
    ctx.shard_pool.bids = vec![resting_bid(6, 100, 9), resting_bid(7, 200, 10)];
    let outcome = submit_ask_in_shard(&mut ctx, SHARD, 300, 12, 601, NOW).unwrap();
    assert!(matches!(outcome, AskOutcome::Matched { .. }));
    assert_eq!(ctx.loan_pool.loans.len(), 2);
    assert_eq!(ctx.loan_pool.loans[0].amount, 100);
    assert_eq!(ctx.loan_pool.loans[0].collateral, 601 * 100 / 300);
    assert_eq!(ctx.loan_pool.loans[1].amount, 200);
    assert_eq!(ctx.loan_pool.loans[1].collateral, 601 * 200 / 300);
    assert_eq!(ctx.loan_pool.loans[0].lender, key(6));
    assert_eq!(ctx.loan_pool.loans[1].lender, key(7));
}

#[test]
fn ask_against_an_empty_bid_book_rests_unmatched() {
    let mut ctx = ask_ctx(8);
    ctx.shard_pool.asks = vec![resting_ask(3, 100, 20, 150), resting_ask(4, 100, 5, 150)];
    let outcome = submit_ask_in_shard(&mut ctx, SHARD, 500, 12, 750, NOW).unwrap();
    assert_eq!(
        outcome,
        AskOutcome::Resting {
            deposit: moved(60, 61, collateral_token(), 750),
            event: AskSubmitted {
                borrower: key(8),
                amount: 500,
                max_rate: 12,
                shard_id: SHARD,
                token_mint: token(),
                collateral_mint: collateral_token(),
            },
        }
    );
    let rates: Vec<u8> = ctx.shard_pool.asks.iter().map(|a| a.max_rate).collect();
    assert_eq!(rates, vec![20, 12, 5]);
    assert_eq!(ctx.shard_pool.asks[1].slot, NOW);
    assert_eq!(ctx.shard_pool.asks[1].collateral, 750);
    assert!(ctx.loan_pool.loans.is_empty());
}

#[test]
fn bid_checks_come_in_order() {
    let mut ctx = bid_ctx(7);
    assert_eq!(submit_bid_in_shard(&mut ctx, SHARD, 0, 10, 0, NOW), Err(ErrorCode::InvalidAmount));
    assert_eq!(
        submit_bid_in_shard(&mut ctx, SHARD, 1000, 10, 0, NOW),
        Err(ErrorCode::InvalidDuration)
    );
    let mut wrong_shard = bid_ctx(7);
    wrong_shard.shard_pool.shard_id = 3;
    assert_eq!(
        submit_bid_in_shard(&mut wrong_shard, SHARD, 1000, 10, 100, NOW),
        Err(ErrorCode::ShardMismatch)
    );
    let mut wrong_ledger = bid_ctx(7);
    wrong_ledger.loan_pool.shard_id = 3;
    assert_eq!(
        submit_bid_in_shard(&mut wrong_ledger, SHARD, 1000, 10, 100, NOW),
        Err(ErrorCode::ShardMismatch)
    );
    let mut unsupported = bid_ctx(7);
    unsupported.token_mint = key(102);
    assert_eq!(
        submit_bid_in_shard(&mut unsupported, SHARD, 1000, 10, 100, NOW),
        Err(ErrorCode::UnsupportedToken)
    );
    let mut wrong_account = bid_ctx(7);
    wrong_account.bidder_token_account.mint = collateral_token();
    wrong_account.vault_token_account.mint = collateral_token();
    assert_eq!(
        submit_bid_in_shard(&mut wrong_account, SHARD, 1000, 10, 100, NOW),
        Err(ErrorCode::InvalidTokenAccount)
    );
    let mut wrong_vault = bid_ctx(7);
    wrong_vault.vault_token_account.mint = collateral_token();
    assert_eq!(
        submit_bid_in_shard(&mut wrong_vault, SHARD, 1000, 10, 100, NOW),
        Err(ErrorCode::InvalidVaultAccount)
    );
}

#[test]
fn the_tenth_bid_finds_the_pool_full() {
    let mut ctx = bid_ctx(7);
    for i in 0..9u64 {
        let outcome = submit_bid_in_shard(&mut ctx, SHARD, 100 + i, 10, 100, NOW).unwrap();
        assert!(matches!(outcome, BidOutcome::Resting { .. }));
    }
    assert_eq!(ctx.shard_pool.bids.len(), 9);
    assert!(ctx.shard_pool.is_wf());
    let before = ctx.clone();
    assert_eq!(
        submit_bid_in_shard(&mut ctx, SHARD, 1000, 10, 100, NOW),
        Err(ErrorCode::PoolFull)
    );
    assert_eq!(ctx, before);
}

#[test]
fn a_bid_that_is_matched_needs_no_room_in_the_book() {
    let mut ctx = bid_ctx(7);
    for i in 0..9u64 {
        assert!(submit_bid_in_shard(&mut ctx, SHARD, 100 + i, 30, 100, NOW).is_ok());
    }
    ctx.shard_pool.asks = vec![resting_ask(8, 1000, 12, 1500)];
    let outcome = submit_bid_in_shard(&mut ctx, SHARD, 1000, 10, 100, NOW).unwrap();
    assert!(matches!(outcome, BidOutcome::Matched { .. }));
    assert_eq!(ctx.shard_pool.bids.len(), 9);
    assert!(ctx.shard_pool.asks.is_empty());
}

#[test]
fn a_full_pool_is_found_only_after_the_other_checks() {
    let mut ctx = bid_ctx(7);
    for i in 0..9u64 {
        assert!(submit_bid_in_shard(&mut ctx, SHARD, 100 + i, 10, 100, NOW).is_ok());
    }
    assert_eq!(submit_bid_in_shard(&mut ctx, SHARD, 0, 10, 100, NOW), Err(ErrorCode::InvalidAmount));
    ctx.token_mint = key(102);
    assert_eq!(
        submit_bid_in_shard(&mut ctx, SHARD, 1000, 10, 100, NOW),
        Err(ErrorCode::UnsupportedToken)
    );
}

#[test]
fn the_thousandth_ask_finds_the_pool_full() {
    let mut ctx = ask_ctx(8);
    for i in 0..999u64 {
        let rate = (i % 50) as u8;
        let outcome = submit_ask_in_shard(&mut ctx, SHARD, 100, rate, 150, NOW).unwrap();
        assert!(matches!(outcome, AskOutcome::Resting { .. }));
    }
    assert_eq!(ctx.shard_pool.asks.len(), 999);
    assert!(ctx.shard_pool.is_wf());
    for pair in ctx.shard_pool.asks.windows(2) {
        assert!(pair[0].max_rate >= pair[1].max_rate);
    }
    let before = ctx.clone();
    assert_eq!(
        submit_ask_in_shard(&mut ctx, SHARD, 100, 10, 150, NOW),
        Err(ErrorCode::PoolFull)
    );
    assert_eq!(ctx, before);
}

#[test]
fn ask_checks_come_in_order() {
    let mut ctx = ask_ctx(8);
    assert_eq!(
        submit_ask_in_shard(&mut ctx, SHARD, 0, 12, 0, NOW),
        Err(ErrorCode::InvalidAmount)
    );
    assert_eq!(
        submit_ask_in_shard(&mut ctx, SHARD, 500, 12, 0, NOW),
        Err(ErrorCode::InvalidCollateral)
    );
    let mut unsupported = ask_ctx(8);
    unsupported.token_mint = key(102);
    unsupported.collateral_mint = key(103);
    assert_eq!(
        submit_ask_in_shard(&mut unsupported, SHARD, 500, 12, 750, NOW),
        Err(ErrorCode::UnsupportedToken)
    );
    let mut unsupported_collateral = ask_ctx(8);
    unsupported_collateral.collateral_mint = key(103);
    assert_eq!(
        submit_ask_in_shard(&mut unsupported_collateral, SHARD, 500, 12, 750, NOW),
        Err(ErrorCode::UnsupportedCollateral)
    );
    let mut wrong_account = ask_ctx(8);
    wrong_account.asker_collateral_account.mint = token();
    assert_eq!(
        submit_ask_in_shard(&mut wrong_account, SHARD, 500, 12, 750, NOW),
        Err(ErrorCode::InvalidTokenAccount)
    );
    let mut wrong_vault = ask_ctx(8);
    wrong_vault.vault_collateral_account.mint = token();
    assert_eq!(
        submit_ask_in_shard(&mut wrong_vault, SHARD, 500, 12, 750, NOW),
        Err(ErrorCode::InvalidVaultAccount)
    );
    let mut wrong_shard = ask_ctx(8);
    wrong_shard.loan_pool.shard_id = 0;
    assert_eq!(
        submit_ask_in_shard(&mut wrong_shard, SHARD, 500, 12, 750, NOW),
        Err(ErrorCode::ShardMismatch)
    );
}

#[test]
fn loan_counter_that_would_run_over_rejects_the_match() {
    let mut ctx = bid_ctx(7);
    ctx.shard_pool.asks = vec![resting_ask(8, 1000, 12, 1500)];
    ctx.lend_auction.total_loans = u64::MAX;
    let before = ctx.clone();
    assert_eq!(
        submit_bid_in_shard(&mut ctx, SHARD, 1000, 10, 100, NOW),
        Err(ErrorCode::Overflow)
    );
    assert_eq!(ctx, before);
}

#[test]
fn collateral_share_that_does_not_fit_rejects_the_ask() {
    let mut ctx = ask_ctx(8);
    ctx.shard_pool.bids = vec![resting_bid(7, 4, 10)];
    let before = ctx.clone();
    assert_eq!(
        submit_ask_in_shard(&mut ctx, SHARD, 4, 12, u64::MAX, NOW),
        Err(ErrorCode::Overflow)
    );
    assert_eq!(ctx, before);
}

#[test]
fn loan_amount_too_large_to_scale_rejects_the_bid() {
    let mut ctx = bid_ctx(7);
    let huge = u64::MAX / 15 + 1;
    ctx.shard_pool.asks = vec![resting_ask(8, huge, 12, u64::MAX)];
    assert_eq!(
        submit_bid_in_shard(&mut ctx, SHARD, huge, 10, 100, NOW),
        Err(ErrorCode::Overflow)
    );
}

#[test]
fn process_submit_bid_routes_by_mint_and_rate() {
    let shard_id = compute_shard_id(&token(), 10, 4);
    let mut ctx = bid_ctx(7);
    ctx.shard_pool.shard_id = shard_id;
    ctx.loan_pool.shard_id = shard_id;
    let outcome = process_submit_bid(&mut ctx, 1000, 10, 100, NOW).unwrap();
    match outcome {
        BidOutcome::Resting { event, .. } => assert_eq!(event.shard_id, shard_id),
        BidOutcome::Matched { .. } => panic!("the book was empty"),
    }
    assert_eq!(ctx.shard_pool.bids.len(), 1);
    let mut elsewhere = bid_ctx(7);
    elsewhere.shard_pool.shard_id = (shard_id + 1) % 4;
    elsewhere.loan_pool.shard_id = (shard_id + 1) % 4;
    assert_eq!(
        process_submit_bid(&mut elsewhere, 1000, 10, 100, NOW),
        Err(ErrorCode::ShardMismatch)
    );
}

#[test]
fn process_submit_ask_routes_by_mint_and_rate() {
    let shard_id = compute_shard_id(&token(), 12, 4);
    let mut ctx = ask_ctx(8);
    ctx.shard_pool.shard_id = shard_id;
    ctx.loan_pool.shard_id = shard_id;
    ctx.shard_pool.bids = vec![resting_bid(7, 1000, 10)];
    let outcome = process_submit_ask(&mut ctx, 500, 12, 750, NOW).unwrap();
    match outcome {
        AskOutcome::Matched { loans, .. } => {
            assert_eq!(loans.len(), 1);
            assert_eq!(loans[0].shard_id, shard_id);
            assert_eq!(loans[0].rate, 11);
        }
        AskOutcome::Resting { .. } => panic!("the ask was matched"),
    }
    let mut elsewhere = ask_ctx(8);
    elsewhere.shard_pool.shard_id = (shard_id + 1) % 4;
    elsewhere.loan_pool.shard_id = (shard_id + 1) % 4;
    assert_eq!(
        process_submit_ask(&mut elsewhere, 500, 12, 750, NOW),
        Err(ErrorCode::ShardMismatch)
    );
}
