//! The state of the exchange: the auction, and per shard an order book and a
//! loan ledger.

use vstd::prelude::*;
use crate::errors::ErrorCode;
use crate::pubkey::Pubkey;

verus! {

/// A shard's book always holds fewer bids than this.
pub const MAX_BIDS: usize = 10;

/// A shard's book always holds fewer asks than this.
pub const MAX_ASKS: usize = 1000;

/// The exchange as a whole: who administers it, how many shards it has, how
/// many loans it has issued, and which tokens it deals in.
#[derive(Clone, Debug, PartialEq, Eq)]
pub struct LendAuction {
    pub admin: Pubkey,
    pub shard_count: u64,
    pub total_loans: u64,
    pub supported_tokens: Vec<Pubkey>,
}

/// The order book of one shard.
#[derive(Clone, Debug, PartialEq, Eq)]
pub struct ShardPool {
    pub shard_id: u64,
    /// Resting bids, ascending by `min_rate`; among equal rates the earlier
    /// submission comes first.
    pub bids: Vec<Bid>,
    /// Resting asks, descending by `max_rate`; among equal rates the earlier
    /// submission comes first.
    pub asks: Vec<Ask>,
}

/// The loans issued in one shard. Loans are only ever appended, and a loan
/// changes only by its `repaid` flag turning true.
#[derive(Clone, Debug, PartialEq, Eq)]
pub struct LoanPool {
    pub shard_id: u64,
    pub loans: Vec<Loan>,
}

/// A loan from `lender` to `borrower`.
#[derive(Clone, Copy, Debug, PartialEq, Eq)]
pub struct Loan {
    pub lender: Pubkey,
    pub borrower: Pubkey,
    pub amount: u64,
    pub rate: u8,
    pub collateral: u64,
    pub repaid: bool,
    pub shard_id: u64,
    pub token_mint: Pubkey,
    pub collateral_mint: Pubkey,
    pub start_slot: u64,
    pub duration_slots: u64,
}

/// A lender's offer: `amount` of `token_mint` at no less than `min_rate`.
#[derive(Clone, Copy, Debug, PartialEq, Eq)]
pub struct Bid {
    pub lender: Pubkey,
    pub amount: u64,
    pub min_rate: u8,
    pub slot: u64,
    pub token_mint: Pubkey,
    pub duration_slots: u64,
}

/// A borrower's request: `amount` of `token_mint` at no more than `max_rate`,
/// backed by `collateral` of `collateral_mint`.
#[derive(Clone, Copy, Debug, PartialEq, Eq)]
pub struct Ask {
    pub borrower: Pubkey,
    pub amount: u64,
    pub max_rate: u8,
    pub collateral: u64,
    pub slot: u64,
    pub token_mint: Pubkey,
    pub collateral_mint: Pubkey,
}

/// What the exchange reads of a token account: its address, who owns it,
/// the token it holds and how much of it.
#[derive(Clone, Copy, Debug, PartialEq, Eq)]
pub struct TokenAccount {
    pub key: Pubkey,
    pub owner: Pubkey,
    pub mint: Pubkey,
    pub amount: u64,
}

/// An order to the caller to move `amount` of the token `mint` from one
/// token account to another. The library moves nothing itself.
#[derive(Clone, Copy, Debug, PartialEq, Eq)]
pub struct Transfer {
    /// The address of the account that pays.
    pub from: Pubkey,
    /// The address of the account that is paid.
    pub to: Pubkey,
    pub mint: Pubkey,
    pub amount: u64,
}

/// The order to move `amount` of `mint` from `from` to `to`.
pub open spec fn transfer_order(from: TokenAccount, to: TokenAccount, mint: Pubkey, amount: u64)
    -> Transfer {
    Transfer { from: from.key, to: to.key, mint, amount }
}

impl Transfer {
    /// The order to move `amount` of `mint` from `from` to `to`.
    pub fn between(from: &TokenAccount, to: &TokenAccount, mint: Pubkey, amount: u64) -> (order:
        Transfer)
        ensures
            order == transfer_order(*from, *to, mint, amount),
    {
        Transfer { from: from.key, to: to.key, mint, amount }
    }
}

/// The first of `accounts` that belongs to `owner` and holds `mint`, if
/// there is one.
pub open spec fn account_of(accounts: Seq<TokenAccount>, owner: Pubkey, mint: Pubkey) -> Option<
    TokenAccount,
>
    decreases accounts.len(),
{
    if accounts.len() == 0 {
        None
    } else if accounts[0].owner == owner && accounts[0].mint == mint {
        Some(accounts[0])
    } else {
        account_of(accounts.drop_first(), owner, mint)
    }
}

/// The account found for an owner and a token is one of the accounts
/// searched, and belongs to that owner.
pub proof fn lemma_account_of_is_listed(accounts: Seq<TokenAccount>, owner: Pubkey, mint: Pubkey)
    ensures
        account_of(accounts, owner, mint) matches Some(account) ==> account.owner == owner
            && account.mint == mint && accounts.contains(account),
    decreases accounts.len(),
{
    if accounts.len() > 0 {
        if accounts[0].owner == owner && accounts[0].mint == mint {
        } else {
            lemma_account_of_is_listed(accounts.drop_first(), owner, mint);
            if account_of(accounts, owner, mint) is Some {
                let account = account_of(accounts, owner, mint)->Some_0;
                let tail = accounts.drop_first();
                let m = choose|m: int| 0 <= m < tail.len() && tail[m] == account;
                assert(accounts[m + 1] == account);
            }
        }
    }
}

/// The first of `accounts` that belongs to `owner` and holds `mint`.
pub fn find_account(accounts: &Vec<TokenAccount>, owner: &Pubkey, mint: &Pubkey) -> (found: Option<
    TokenAccount,
>)
    ensures
        found == account_of(accounts@, *owner, *mint),
        found matches Some(account) ==> account.owner == *owner && account.mint == *mint,
{
    let mut i: usize = 0;
    assert(accounts@.skip(0) =~= accounts@);
    while i < accounts.len()
        invariant
            i <= accounts@.len(),
            account_of(accounts@, *owner, *mint) == account_of(
                accounts@.skip(i as int),
                *owner,
                *mint,
            ),
        decreases accounts@.len() - i,
    {
        let account = accounts[i];
        assert(accounts@.skip(i as int)[0] == account);
        assert(accounts@.skip(i as int).drop_first() =~= accounts@.skip(i + 1));
        if account.owner == *owner && account.mint == *mint {
            return Some(account);
        }
        i += 1;
    }
    None
}

/// The orders to pay the amounts of `loans` out of `vault` to `to`, one for
/// each loan, in their order.
pub open spec fn loan_payouts(vault: TokenAccount, to: TokenAccount, loans: Seq<Loan>) -> Seq<
    Transfer,
> {
    Seq::new(
        loans.len(),
        |i: int| transfer_order(vault, to, loans[i].token_mint, loans[i].amount),
    )
}

/// The orders to pay the amounts of `loans` out of `vault` to `to`.
pub fn order_payouts(vault: &TokenAccount, to: &TokenAccount, loans: &Vec<Loan>) -> (orders: Vec<
    Transfer,
>)
    ensures
        orders@ == loan_payouts(*vault, *to, loans@),
{
    let mut orders: Vec<Transfer> = Vec::with_capacity(loans.len());
    let mut k: usize = 0;
    while k < loans.len()
        invariant
            k <= loans@.len(),
            orders@ == loan_payouts(*vault, *to, loans@.take(k as int)),
        decreases loans@.len() - k,
    {
        let loan = loans[k];
        orders.push(Transfer::between(vault, to, loan.token_mint, loan.amount));
        assert(orders@ =~= loan_payouts(*vault, *to, loans@.take(k + 1)));
        k += 1;
    }
    assert(loans@.take(loans@.len() as int) =~= loans@);
    orders
}

/// Bids in ascending order of `min_rate`.
pub open spec fn bids_sorted(bids: Seq<Bid>) -> bool {
    forall|i: int, j: int| 0 <= i <= j < bids.len() ==> bids[i].min_rate <= bids[j].min_rate
}

/// Asks in descending order of `max_rate`.
pub open spec fn asks_sorted(asks: Seq<Ask>) -> bool {
    forall|i: int, j: int| 0 <= i <= j < asks.len() ==> asks[i].max_rate >= asks[j].max_rate
}

/// A loan may be liquidated once its collateral is worth no more than this
/// many hundredths of what is owed.
pub const LIQUIDATION_THRESHOLD: u64 = 120;

impl Loan {
    /// The collateral is at least 150% of the principal.
    pub open spec fn collateralized(self) -> bool {
        self.collateral * 10 >= self.amount * 15
    }

    /// The slots gone by at `current_slot` since the loan started.
    pub open spec fn elapsed_slots(self, current_slot: u64) -> int {
        if current_slot >= self.start_slot {
            current_slot - self.start_slot
        } else {
            0
        }
    }

    /// The interest per unit of principal at `current_slot`: the rate, in
    /// hundredths, for the part of the loan's duration that has gone by,
    /// rounded down.
    pub open spec fn interest_factor(self, current_slot: u64) -> int
        recommends
            self.duration_slots > 0,
    {
        (self.elapsed_slots(current_slot) * self.rate) / (self.duration_slots * 100)
    }

    /// What the borrower owes at `current_slot`: the principal and the
    /// interest on it. None where the loan has no duration or the sum does
    /// not fit in 64 bits.
    pub open spec fn repayment_due(self, current_slot: u64) -> Option<u64> {
        let due = self.amount + self.amount * self.interest_factor(current_slot);
        if self.duration_slots > 0 && due <= u64::MAX {
            Some(due as u64)
        } else {
            None
        }
    }

    /// The collateral in hundredths of `due`, rounded down.
    pub open spec fn health_factor(self, due: u64) -> int
        recommends
            due > 0,
    {
        (self.collateral * 100) / (due as int)
    }

    /// What the borrower owes at `current_slot`. Fails with `Overflow` where
    /// the loan has no duration or the sum does not fit in 64 bits.
    pub fn repayment(&self, current_slot: u64) -> (res: Result<u64, ErrorCode>)
        ensures
            match self.repayment_due(current_slot) {
                Some(due) => res == Ok::<u64, ErrorCode>(due),
                None => res == Err::<u64, ErrorCode>(ErrorCode::Overflow),
            },
    {
        let elapsed_slots = current_slot.saturating_sub(self.start_slot);
        if self.duration_slots == 0 {
            return Err(ErrorCode::Overflow);
        }
        assert(elapsed_slots * self.rate <= 0xffff_ffff_ffff_ffff * 0xff) by (nonlinear_arith)
            requires
                elapsed_slots <= 0xffff_ffff_ffff_ffff,
                self.rate <= 0xff,
        ;
        let accrued: u128 = elapsed_slots as u128 * self.rate as u128;
        let span: u128 = self.duration_slots as u128 * 100;
        let interest_factor: u128 = accrued / span;
        assert(interest_factor == self.interest_factor(current_slot));
        let ghost due = self.amount + self.amount * self.interest_factor(current_slot);
        match (self.amount as u128).checked_mul(interest_factor) {
            None => Err(ErrorCode::Overflow),
            Some(interest) => {
                if interest > u64::MAX as u128 {
                    Err(ErrorCode::Overflow)
                } else {
                    match self.amount.checked_add(interest as u64) {
                        None => Err(ErrorCode::Overflow),
                        Some(total) => Ok(total),
                    }
                }
            },
        }
    }

    /// The collateral in hundredths of `due`. Fails with `Overflow` where
    /// nothing is due.
    pub fn health(&self, due: u64) -> (res: Result<u128, ErrorCode>)
        ensures
            due > 0 ==> res == Ok::<u128, ErrorCode>(self.health_factor(due) as u128),
            due == 0 ==> res == Err::<u128, ErrorCode>(ErrorCode::Overflow),
    {
        if due == 0 {
            return Err(ErrorCode::Overflow);
        }
        let cover: u128 = self.collateral as u128 * 100;
        Ok(cover / due as u128)
    }
}

impl LendAuction {
    /// An initialized auction has at least one shard and one supported token.
    pub open spec fn wf(self) -> bool {
        &&& self.shard_count > 0
        &&& self.supported_tokens@.len() > 0
    }

    /// Whether the auction deals in `mint`.
    pub open spec fn supports(self, mint: Pubkey) -> bool {
        self.supported_tokens@.contains(mint)
    }

    /// Whether the auction deals in `mint`.
    pub fn is_supported(&self, mint: &Pubkey) -> (found: bool)
        ensures
            found == self.supports(*mint),
    {
        let mut i: usize = 0;
        while i < self.supported_tokens.len()
            invariant
                i <= self.supported_tokens@.len(),
                forall|j: int| 0 <= j < i ==> self.supported_tokens@[j] != *mint,
            decreases self.supported_tokens@.len() - i,
        {
            if self.supported_tokens[i] == *mint {
                return true;
            }
            i += 1;
        }
        false
    }
}

impl ShardPool {
    /// An empty book for shard `shard_id`.
    pub fn new(shard_id: u64) -> (pool: ShardPool)
        ensures
            pool.shard_id == shard_id,
            pool.bids@.len() == 0,
            pool.asks@.len() == 0,
            pool.wf(),
    {
        ShardPool { shard_id, bids: Vec::new(), asks: Vec::new() }
    }

    /// Both sides are in order and within capacity.
    pub open spec fn wf(self) -> bool {
        &&& bids_sorted(self.bids@)
        &&& asks_sorted(self.asks@)
        &&& self.bids@.len() < MAX_BIDS
        &&& self.asks@.len() < MAX_ASKS
    }

    /// Whether both sides are in order and within capacity.
    pub fn is_wf(&self) -> (ok: bool)
        ensures
            ok == self.wf(),
    {
        if self.bids.len() >= MAX_BIDS || self.asks.len() >= MAX_ASKS {
            return false;
        }
        let mut i: usize = 1;
        while i < self.bids.len()
            invariant
                1 <= i,
                forall|a: int, b: int|
                    0 <= a <= b < i && b < self.bids@.len() ==> self.bids@[a].min_rate
                        <= self.bids@[b].min_rate,
            decreases self.bids@.len() - i,
        {
            if self.bids[i - 1].min_rate > self.bids[i].min_rate {
                return false;
            }
            i += 1;
        }
        let mut j: usize = 1;
        while j < self.asks.len()
            invariant
                1 <= j,
                bids_sorted(self.bids@),
                forall|a: int, b: int|
                    0 <= a <= b < j && b < self.asks@.len() ==> self.asks@[a].max_rate
                        >= self.asks@[b].max_rate,
            decreases self.asks@.len() - j,
        {
            if self.asks[j - 1].max_rate < self.asks[j].max_rate {
                return false;
            }
            j += 1;
        }
        true
    }
}

impl LoanPool {
    /// An empty ledger for shard `shard_id`.
    pub fn new(shard_id: u64) -> (pool: LoanPool)
        ensures
            pool.shard_id == shard_id,
            pool.loans@.len() == 0,
    {
        LoanPool { shard_id, loans: Vec::new() }
    }
}

} // verus!
