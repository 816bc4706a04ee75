use lend_auction::{
    find_account, is_stale, process_cleanup, process_initialize, process_withdraw_fees,
    settle_amount, Ask, AskExpired,
    AuctionInitialized, Bid, BidExpired, Cleanup, ErrorCode, ExpiredAsk, ExpiredBid,
    FeesWithdrawn, Initialize, LendAuction, Pubkey, ShardPool, TokenAccount, Transfer,
    WithdrawFees, WithdrawOutcome,
};

const DAY: u64 = 216000;

fn key(byte: u8) -> Pubkey {
    Pubkey::new_from_array([byte; 32])
}

fn token() -> Pubkey {
    key(100)
}

fn collateral_token() -> Pubkey {
    key(101)
}

fn auction() -> LendAuction {
    LendAuction {
        admin: key(1),
        shard_count: 4,
        total_loans: 0,
        supported_tokens: vec![token(), collateral_token()],
    }
}

fn bid(lender: u8, amount: u64, min_rate: u8, slot: u64) -> Bid {
    Bid {
        lender: key(lender),
        amount,
        min_rate,
        slot,
        token_mint: token(),
        duration_slots: 100,
    }
}

fn ask(borrower: u8, amount: u64, max_rate: u8, collateral: u64, slot: u64) -> Ask {
    Ask {
        borrower: key(borrower),
        amount,
        max_rate,
        collateral,
        slot,
        token_mint: token(),
        collateral_mint: collateral_token(),
    }
}

fn account(address: u8, mint: Pubkey, amount: u64) -> TokenAccount {
    TokenAccount { key: key(address), owner: key(address + 100), mint, amount }
}

fn account_of(owner: u8, address: u8, mint: Pubkey) -> TokenAccount {
    TokenAccount { key: key(address), owner: key(owner), mint, amount: 0 }
}

fn moved(from: u8, to: u8, mint: Pubkey, amount: u64) -> Transfer {
    Transfer { from: key(from), to: key(to), mint, amount }
}

/// Lenders 1 to 9 hold their tokens at 31 to 39, borrowers 1 to 9 their
/// collateral at 41 to 49.
fn cleanup_ctx(bids: Vec<Bid>, asks: Vec<Ask>) -> Cleanup {
    let mut refund_accounts = Vec::new();
    for who in 1..=9u8 {
        refund_accounts.push(account_of(who, 40 + who, collateral_token()));
        refund_accounts.push(account_of(who, 30 + who, token()));
    }
    Cleanup {
        lend_auction: auction(),
        shard_pool: ShardPool { shard_id: 2, bids, asks },
        refund_accounts,
        vault_token_account: account(51, token(), 10_000_000),
        vault_collateral_account: account(61, collateral_token(), 10_000_000),
        fee_vault: account(70, token(), 0),
        fee_vault_collateral: account(71, collateral_token(), 0),
    }
}

fn withdraw_ctx(admin: u8, balance: u64) -> WithdrawFees {
    WithdrawFees {
        lend_auction: auction(),
        admin: key(admin),
        fee_vault: account(70, token(), balance),
        admin_token_account: account(80, token(), 0),
        token_mint: token(),
    }
}

#[test]
fn settle_amount_gives_back_all_but_half_a_percent() {
    assert_eq!(settle_amount(1_000_000), Ok((995_000, 5_000)));
    assert_eq!(settle_amount(200), Ok((199, 1)));
    assert_eq!(settle_amount(0), Ok((0, 0)));
    assert_eq!(
        settle_amount(18_000_000_000_000_000),
        Ok((17_910_000_000_000_000, 90_000_000_000_000))
    );
}

#[test]
fn settle_amount_gives_the_odd_unit_to_the_fee() {
    assert_eq!(settle_amount(1), Ok((0, 1)));
    assert_eq!(settle_amount(199), Ok((198, 1)));
    assert_eq!(settle_amount(201), Ok((199, 2)));
    assert_eq!(settle_amount(750), Ok((746, 4)));
    assert_eq!(settle_amount(1_000_100), Ok((995_099, 5_001)));
}

#[test]
fn settle_amount_rejects_what_does_not_fit() {
    assert_eq!(settle_amount(u64::MAX), Err(ErrorCode::Overflow));
    assert_eq!(settle_amount(u64::MAX / 995 + 1), Err(ErrorCode::Overflow));
    assert_eq!(
        settle_amount(u64::MAX / 995),
        Ok((u64::MAX / 995 * 995 / 1000, u64::MAX / 995 - u64::MAX / 995 * 995 / 1000))
    );
}

#[test]
fn settle_amount_always_adds_up() {
    for amount in 0..20_000u64 {
        let (refund, fee) = settle_amount(amount).unwrap();
        assert_eq!(refund + fee, amount);
        assert_eq!(refund, amount * 995 / 1000);
        assert!(fee == amount * 5 / 1000 || fee == amount * 5 / 1000 + 1);
    }
}

#[test]
fn orders_grow_stale_after_a_day() {
    assert!(is_stale(100, 100 + DAY));
    assert!(is_stale(100, 101 + DAY));
    assert!(!is_stale(100, 99 + DAY));
    assert!(is_stale(0, DAY));
    assert!(is_stale(0, u64::MAX));
    assert!(is_stale(u64::MAX - DAY, u64::MAX));
    assert!(!is_stale(u64::MAX - DAY + 1, u64::MAX));
}

#[test]
fn nothing_is_stale_in_the_first_day() {
    assert!(!is_stale(0, 0));
    assert!(!is_stale(0, 100));
    assert!(!is_stale(0, DAY - 1));
    assert!(!is_stale(100, 50));
}

#[test]
fn cleanup_of_a_stale_bid_refunds_it_less_the_fee() {
    let mut ctx = cleanup_ctx(vec![bid(7, 1_000_000, 10, 100)], vec![]);
    let outcome = process_cleanup(&mut ctx, 2, 100 + DAY).unwrap();
    assert_eq!(
        outcome.expired_bids,
        vec![ExpiredBid {
            refund: moved(51, 37, token(), 995_000),
            fee: moved(51, 70, token(), 5_000),
            event: BidExpired {
                lender: key(7),
                amount: 1_000_000,
                refund_amount: 995_000,
                fee_amount: 5_000,
                shard_id: 2,
                token_mint: token(),
            },
        }]
    );
    assert!(outcome.expired_asks.is_empty());
    assert!(ctx.shard_pool.bids.is_empty());
}

#[test]
fn cleanup_of_a_stale_ask_settles_its_collateral() {
    let mut ctx = cleanup_ctx(vec![], vec![ask(8, 500, 12, 750, 1000)]);
    let outcome = process_cleanup(&mut ctx, 2, 300_000).unwrap();
    assert_eq!(
        outcome.expired_asks,
        vec![ExpiredAsk {
            refund: moved(61, 48, collateral_token(), 746),
            fee: moved(61, 71, collateral_token(), 4),
            event: AskExpired {
                borrower: key(8),
                amount: 500,
                refund_amount: 746,
                fee_amount: 4,
                shard_id: 2,
                token_mint: token(),
                collateral_mint: collateral_token(),
            },
        }]
    );
    assert!(ctx.shard_pool.asks.is_empty());
}

#[test]
fn cleanup_of_a_bid_of_one_unit_loses_nothing() {
    let mut ctx = cleanup_ctx(vec![bid(7, 1, 10, 1000)], vec![]);
    let outcome = process_cleanup(&mut ctx, 2, 300_000).unwrap();
    assert_eq!(outcome.expired_bids.len(), 1);
    assert_eq!(
        outcome.expired_bids[0].refund.amount + outcome.expired_bids[0].fee.amount,
        1
    );
    assert!(ctx.shard_pool.bids.is_empty());
}

#[test]
fn cleanup_in_the_first_day_takes_nothing() {
    let resting = bid(7, 1000, 10, 0);
    let mut ctx = cleanup_ctx(vec![resting], vec![ask(8, 500, 12, 750, 0)]);
    let before = ctx.clone();
    let outcome = process_cleanup(&mut ctx, 2, 100).unwrap();
    assert!(outcome.expired_bids.is_empty());
    assert!(outcome.expired_asks.is_empty());
    assert_eq!(ctx, before);
    let outcome = process_cleanup(&mut ctx, 2, DAY - 1).unwrap();
    assert!(outcome.expired_bids.is_empty());
    assert_eq!(ctx.shard_pool.bids, vec![resting]);
    let outcome = process_cleanup(&mut ctx, 2, DAY).unwrap();
    assert_eq!(outcome.expired_bids.len(), 1);
    assert_eq!(outcome.expired_asks.len(), 1);
}

#[test]
fn cleanup_leaves_what_is_not_yet_a_day_old() {
    let mut ctx = cleanup_ctx(
        vec![bid(1, 200, 5, 100), bid(2, 200, 6, 101), bid(3, 400, 7, 50), bid(4, 200, 8, 102)],
        vec![ask(5, 100, 20, 200, 101), ask(6, 100, 10, 400, 100)],
    );
    let outcome = process_cleanup(&mut ctx, 2, 100 + DAY).unwrap();
    let gone: Vec<Pubkey> = outcome.expired_bids.iter().map(|e| e.event.lender).collect();
    assert_eq!(gone, vec![key(1), key(3)]);
    assert_eq!(ctx.shard_pool.bids, vec![bid(2, 200, 6, 101), bid(4, 200, 8, 102)]);
    assert_eq!(outcome.expired_asks.len(), 1);
    assert_eq!(outcome.expired_asks[0].event.borrower, key(6));
    assert_eq!(ctx.shard_pool.asks, vec![ask(5, 100, 20, 200, 101)]);
}

#[test]
fn cleanup_refunds_each_order_to_its_own_submitter() {
    let mut ctx = cleanup_ctx(
        vec![bid(1, 200, 5, 100), bid(3, 400, 7, 50)],
        vec![ask(3, 100, 10, 400, 100)],
    );
    let outcome = process_cleanup(&mut ctx, 2, 100 + DAY).unwrap();
    assert_eq!(outcome.expired_bids[0].refund, moved(51, 31, token(), 199));
    assert_eq!(outcome.expired_bids[1].refund, moved(51, 33, token(), 398));
    assert_eq!(outcome.expired_asks[0].refund, moved(61, 43, collateral_token(), 398));
    for expired in &outcome.expired_bids {
        let target = find_account(&ctx.refund_accounts, &expired.event.lender, &token()).unwrap();
        assert_eq!(expired.refund.to, target.key);
        assert_eq!(target.owner, expired.event.lender);
    }
}

#[test]
fn cleanup_without_an_account_of_the_submitter_is_rejected() {
    let mut ctx = cleanup_ctx(vec![bid(1, 200, 5, 100), bid(2, 200, 6, 100)], vec![]);
    ctx.refund_accounts = vec![account_of(1, 31, token()), account_of(2, 42, collateral_token())];
    let before = ctx.clone();
    assert_eq!(process_cleanup(&mut ctx, 2, 100 + DAY), Err(ErrorCode::InvalidTokenAccount));
    assert_eq!(ctx, before);
    ctx.refund_accounts.push(account_of(2, 32, token()));
    assert!(process_cleanup(&mut ctx, 2, 100 + DAY).is_ok());
    let mut asks_only = cleanup_ctx(vec![], vec![ask(3, 100, 10, 400, 100)]);
    asks_only.refund_accounts = vec![account_of(3, 33, token())];
    assert_eq!(
        process_cleanup(&mut asks_only, 2, 100 + DAY),
        Err(ErrorCode::InvalidTokenAccount)
    );
}

#[test]
fn find_account_takes_the_first_that_fits() {
    let accounts = vec![
        account_of(1, 31, token()),
        account_of(2, 42, collateral_token()),
        account_of(2, 32, token()),
        account_of(2, 52, token()),
    ];
    assert_eq!(find_account(&accounts, &key(2), &token()), Some(account_of(2, 32, token())));
    assert_eq!(find_account(&accounts, &key(1), &collateral_token()), None);
    assert_eq!(find_account(&Vec::new(), &key(1), &token()), None);
}

#[test]
fn cleanup_again_finds_nothing() {
    let mut ctx = cleanup_ctx(
        vec![bid(1, 200, 5, 100), bid(2, 200, 6, 101)],
        vec![ask(6, 100, 10, 400, 100)],
    );
    assert!(process_cleanup(&mut ctx, 2, 100 + DAY).is_ok());
    let after_first = ctx.clone();
    let outcome = process_cleanup(&mut ctx, 2, 100 + DAY).unwrap();
    assert!(outcome.expired_bids.is_empty());
    assert!(outcome.expired_asks.is_empty());
    assert_eq!(ctx, after_first);
}

#[test]
fn cleanup_that_cannot_settle_an_order_changes_nothing() {
    let mut huge = cleanup_ctx(
        vec![bid(1, 200, 5, 100), bid(2, u64::MAX, 6, 100)],
        vec![ask(6, 100, 10, 401, 100)],
    );
    let before = huge.clone();
    assert_eq!(process_cleanup(&mut huge, 2, 100 + DAY), Err(ErrorCode::Overflow));
    assert_eq!(huge, before);
    let mut huge_collateral = cleanup_ctx(vec![], vec![ask(6, 100, 10, u64::MAX, 100)]);
    assert_eq!(process_cleanup(&mut huge_collateral, 2, 100 + DAY), Err(ErrorCode::Overflow));
}

#[test]
fn cleanup_checks_the_shard() {
    let mut ctx = cleanup_ctx(vec![bid(1, 200, 5, 100)], vec![]);
    assert_eq!(process_cleanup(&mut ctx, 4, 100 + DAY), Err(ErrorCode::InvalidShard));
    assert_eq!(process_cleanup(&mut ctx, 3, 100 + DAY), Err(ErrorCode::ShardMismatch));
    assert_eq!(ctx.shard_pool.bids.len(), 1);
}

#[test]
fn withdrawal_by_a_stranger_is_rejected() {
    let ctx = withdraw_ctx(9, 5_000);
    let before = ctx.clone();
    assert_eq!(process_withdraw_fees(&ctx, 2, 1_000), Err(ErrorCode::Unauthorized));
    assert_eq!(ctx.fee_vault.amount, 5_000);
    assert_eq!(ctx, before);
}

#[test]
fn withdrawal_by_the_administrator_goes_through() {
    let ctx = withdraw_ctx(1, 5_000);
    assert_eq!(
        process_withdraw_fees(&ctx, 2, 5_000),
        Ok(WithdrawOutcome {
            withdrawal: moved(70, 80, token(), 5_000),
            event: FeesWithdrawn {
                admin: key(1),
                shard_id: 2,
                amount: 5_000,
                token_mint: token(),
            },
        })
    );
    assert!(process_withdraw_fees(&ctx, 0, 1).is_ok());
}

#[test]
fn withdrawal_checks_come_in_order() {
    let ctx = withdraw_ctx(1, 5_000);
    assert_eq!(process_withdraw_fees(&ctx, 4, 0), Err(ErrorCode::InvalidShard));
    assert_eq!(process_withdraw_fees(&ctx, 3, 0), Err(ErrorCode::InvalidAmount));
    assert_eq!(process_withdraw_fees(&ctx, 3, 5_001), Err(ErrorCode::InsufficientFunds));
    let mut unsupported = withdraw_ctx(1, 5_000);
    unsupported.token_mint = key(102);
    assert_eq!(process_withdraw_fees(&unsupported, 3, 1), Err(ErrorCode::UnsupportedToken));
    let mut wrong_vault = withdraw_ctx(1, 5_000);
    wrong_vault.fee_vault.mint = collateral_token();
    assert_eq!(process_withdraw_fees(&wrong_vault, 3, 9_000), Err(ErrorCode::InvalidVaultAccount));
}

#[test]
fn initialize_sets_up_the_auction() {
    let mut ctx = Initialize {
        lend_auction: LendAuction {
            admin: key(0),
            shard_count: 0,
            total_loans: 99,
            supported_tokens: vec![],
        },
        admin: key(1),
    };
    let event = process_initialize(&mut ctx, 4, vec![token(), collateral_token()]).unwrap();
    assert_eq!(
        event,
        AuctionInitialized {
            admin: key(1),
            shard_count: 4,
            supported_tokens: vec![token(), collateral_token()],
        }
    );
    assert_eq!(ctx.lend_auction, auction());
    assert!(ctx.lend_auction.is_supported(&token()));
    assert!(!ctx.lend_auction.is_supported(&key(102)));
}

#[test]
fn initialize_needs_a_shard_and_a_token() {
    let blank = LendAuction { admin: key(0), shard_count: 0, total_loans: 0, supported_tokens: vec![] };
    let mut ctx = Initialize { lend_auction: blank.clone(), admin: key(1) };
    assert_eq!(process_initialize(&mut ctx, 0, vec![]), Err(ErrorCode::InvalidShardCount));
    assert_eq!(process_initialize(&mut ctx, 0, vec![token()]), Err(ErrorCode::InvalidShardCount));
    assert_eq!(process_initialize(&mut ctx, 4, vec![]), Err(ErrorCode::NoSupportedTokens));
    assert_eq!(ctx.lend_auction, blank);
}

#[test]
fn every_rejection_has_its_text() {
    assert_eq!(ErrorCode::InvalidShard.message(), "Invalid shard ID");
    assert_eq!(ErrorCode::ShardMismatch.message(), "Shard mismatch");
    assert_eq!(ErrorCode::PoolFull.message(), "Shard pool is full");
    assert_eq!(ErrorCode::NoMatchesFound.message(), "No matches found");
    assert_eq!(ErrorCode::AlreadyRepaid.message(), "Loan already repaid");
    assert_eq!(ErrorCode::PartialMatchNotAllowed.message(), "Partial match not allowed");
    assert_eq!(ErrorCode::UnsupportedToken.message(), "Unsupported token");
    assert_eq!(ErrorCode::UnsupportedCollateral.message(), "Unsupported collateral token");
    assert_eq!(ErrorCode::InvalidRepaymentToken.message(), "Invalid repayment token");
    assert_eq!(ErrorCode::LoanNotUnhealthy.message(), "Loan is not unhealthy");
    assert_eq!(
        ErrorCode::InsufficientCollateral.message(),
        "Insufficient collateral for healthy loan"
    );
    assert_eq!(ErrorCode::InvalidDuration.message(), "Invalid loan duration");
    assert_eq!(ErrorCode::Unauthorized.message(), "Unauthorized access");
    assert_eq!(ErrorCode::InsufficientFunds.message(), "Insufficient funds in fee vault");
    assert_eq!(ErrorCode::Overflow.message(), "Arithmetic overflow");
    assert_eq!(ErrorCode::InvalidTokenAccount.message(), "Invalid token account");
    assert_eq!(ErrorCode::InvalidVaultAccount.message(), "Invalid vault account");
    assert_eq!(ErrorCode::InvalidShardCount.message(), "Invalid shard count");
    assert_eq!(ErrorCode::NoSupportedTokens.message(), "No supported tokens provided");
    assert_eq!(ErrorCode::InvalidAmount.message(), "Invalid amount");
    assert_eq!(ErrorCode::InvalidCollateral.message(), "Invalid collateral amount");
    assert_eq!(ErrorCode::InvalidLoanIndex.message(), "Invalid loan index");
    assert_eq!(ErrorCode::InsufficientSwapProceeds.message(), "Insufficient swap proceeds");
}
