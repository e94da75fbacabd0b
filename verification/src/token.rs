use vstd::prelude::*;
use crate::types::{Amount, Holder, Metadata, Timestamp, TransactionRecord, TxError, TxKind};
use crate::balances::{Balances, credited, debited, moved, fee_paid, credit_entries, debit_entries, move_entries, fee_entries};
use crate::allowances::Allowances;
use crate::table::lemma_lookup_le_total;
use crate::ledger::Ledger;
use crate::auction::{AuctionRecord, BiddingState, auctions_in_order};
use crate::notify::markers_in_range;

verus! {

/// Time between two auctions unless the owner sets another: one day.
pub const DEFAULT_AUCTION_PERIOD: Timestamp = 86_400_000_000;

/// Most records that one query may ask for.
pub const MAX_TRANSACTION_QUERY_LEN: u64 = 1000;

/// Settings of the token.
pub struct StatsData {
    pub logo: String,
    pub name: String,
    pub symbol: String,
    pub decimals: u8,
    pub owner: Holder,
    pub fee: Amount,
    pub fee_to: Holder,
    pub deploy_time: Timestamp,
    pub min_cycles: u64,
    pub is_test_token: bool,
}

/// The whole state of one token: every operation takes it by reference.
pub struct TokenCanister {
    pub balances: Balances,
    pub allowances: Allowances,
    pub ledger: Ledger,
    pub stats: StatsData,
    /// Everything ever minted, the initial supply included.
    pub minted: Amount,
    /// Everything ever burned.
    pub burned: Amount,
    pub bidding: BiddingState,
    pub auctions: Vec<AuctionRecord>,
    /// Ids with a notification under way, each with the time it was started.
    pub in_flight: Vec<(u64, Timestamp)>,
}

impl TokenCanister {
    /// No value is created or destroyed outside mint and burn: what the
    /// holders have, plus what was burned, is what was minted.
    pub open spec fn conserved(&self) -> bool {
        self.balances.total() + self.burned == self.minted
    }

    pub open spec fn wf(&self) -> bool {
        &&& self.balances.wf()
        &&& self.allowances.wf()
        &&& self.ledger.wf()
        &&& self.conserved()
        &&& self.bidding.wf()
        &&& auctions_in_order(self.auctions@)
        &&& markers_in_range(self.in_flight@, self.ledger@.len())
    }

    /// Whether settings, auction state and notification markers agree.
    pub open spec fn same_settings(&self, other: &Self) -> bool {
        &&& self.stats == other.stats
        &&& self.bidding == other.bidding
        &&& self.auctions == other.auctions
        &&& self.in_flight == other.in_flight
    }

    /// Whether `other` differs from `self` at most in balances and log.
    pub open spec fn same_but_books(&self, other: &Self) -> bool {
        &&& self.same_settings(other)
        &&& self.allowances == other.allowances
        &&& self.minted == other.minted
        &&& self.burned == other.burned
    }

    /// The supply in circulation.
    pub open spec fn spec_total_supply(&self) -> nat {
        (self.minted - self.burned) as nat
    }

    /// At every point that can be observed, what the holders have between
    /// them plus what was burned is what was minted, and the supply in
    /// circulation is what the holders have.
    pub proof fn lemma_supply_conserved(&self)
        requires
            self.wf(),
        ensures
            self.balances.total() + self.burned == self.minted,
            self.spec_total_supply() == self.balances.total(),
    {
    }

    /// A transfer goes through only where the caller has the value and the
    /// fee, and a caller that has less is always refused.
    pub proof fn lemma_transfer_needs_balance(&self, caller: Holder, value: Amount, fee_limit: Option<Amount>)
        ensures
            self.transfer_refusal(caller, value, fee_limit).is_none() ==> self.balances@[caller] >= value
                + self.stats.fee,
            self.balances@[caller] < value + self.stats.fee ==> self.transfer_refusal(
                caller,
                value,
                fee_limit,
            ).is_some(),
            self.balances@[caller] < value + self.stats.fee && value + self.stats.fee <= u128::MAX && (
            fee_limit.is_none() || self.stats.fee <= fee_limit.unwrap()) ==> self.transfer_refusal(
                caller,
                value,
                fee_limit,
            ) == Some(TxError::InsufficientBalance),
    {
    }

    /// Creates the token: mints the initial supply to the owner and logs it as
    /// the first record.
    pub fn init(metadata: Metadata, now: Timestamp) -> (r: Self)
        ensures
            r.wf(),
            forall|h: Holder|
                r.balances@[h] == if h == metadata.owner {
                    metadata.totalSupply as nat
                } else {
                    0nat
                },
            r.balances.entries@ == seq![(metadata.owner, metadata.totalSupply)],
            r.minted == metadata.totalSupply,
            r.burned == 0,
            r.ledger@ == seq![
                (TransactionRecord {
                    id: 0,
                    kind: TxKind::Mint,
                    caller: metadata.owner,
                    from: metadata.owner,
                    to: metadata.owner,
                    amount: metadata.totalSupply,
                    fee: 0,
                    timestamp: now,
                    notified: false,
                }),
            ],
            r.allowances.entries@.len() == 0,
            r.auctions@.len() == 0,
            r.in_flight@.len() == 0,
            r.bidding.auction_period == DEFAULT_AUCTION_PERIOD,
            r.bidding.fee_ratio == 0,
            r.bidding.last_auction == now,
            r.bidding.bids.entries@.len() == 0,
            r.stats.owner == metadata.owner,
            r.stats.fee == metadata.fee,
            r.stats.fee_to == metadata.feeTo,
            r.stats.name == metadata.name,
            r.stats.symbol == metadata.symbol,
            r.stats.logo == metadata.logo,
            r.stats.decimals == metadata.decimals,
            r.stats.deploy_time == now,
            r.stats.min_cycles == 0,
            r.stats.is_test_token == (metadata.isTestToken == Some(true)),
    {
        let owner = metadata.owner;
        let supply: Amount = metadata.totalSupply;
        let mut balances = Balances::new();
        let given = balances.credit(owner, supply);
        let mut ledger = Ledger::new();
        let id: u64 = ledger.append(TxKind::Mint, owner, owner, owner, supply, 0, now);
        let is_test: bool = match metadata.isTestToken {
            Some(b) => b,
            None => false,
        };
        let stats = StatsData {
            logo: metadata.logo,
            name: metadata.name,
            symbol: metadata.symbol,
            decimals: metadata.decimals,
            owner,
            fee: metadata.fee,
            fee_to: metadata.feeTo,
            deploy_time: now,
            min_cycles: 0,
            is_test_token: is_test,
        };
        proof {
            assert(ledger@ =~= seq![
                (TransactionRecord {
                    id: 0,
                    kind: TxKind::Mint,
                    caller: owner,
                    from: owner,
                    to: owner,
                    amount: supply,
                    fee: 0,
                    timestamp: now,
                    notified: false,
                }),
            ]);
        }
        TokenCanister {
            balances,
            allowances: Allowances::new(),
            ledger,
            stats,
            minted: supply,
            burned: 0,
            bidding: BiddingState::new(DEFAULT_AUCTION_PERIOD, now),
            auctions: Vec::new(),
            in_flight: Vec::new(),
        }
    }

    /// Why a transfer of `value` by `caller` is refused, if it is. The tests
    /// are made in this order.
    pub open spec fn transfer_refusal(&self, caller: Holder, value: Amount, fee_limit: Option<Amount>) -> Option<
        TxError,
    > {
        if fee_limit.is_some() && self.stats.fee > fee_limit.unwrap() {
            Some(TxError::FeeExceededLimit)
        } else if value + self.stats.fee > u128::MAX {
            Some(TxError::Overflow)
        } else if self.balances@[caller] < value + self.stats.fee {
            Some(TxError::InsufficientBalance)
        } else {
            None
        }
    }

    /// Moves `value` from `caller` to `to`. The caller pays the fee on top of
    /// `value`; the fee is split between the fee collector and the auction
    /// pool. A refused transfer changes nothing.
    pub fn transfer(
        &mut self,
        caller: Holder,
        to: Holder,
        value: Amount,
        fee_limit: Option<Amount>,
        now: Timestamp,
    ) -> (r: Result<u64, TxError>)
        requires
            old(self).wf(),
        ensures
            match old(self).transfer_refusal(caller, value, fee_limit) {
                Some(e) => r == Err::<u64, TxError>(e) && *final(self) == *old(self),
                None => {
                    &&& r == Ok::<u64, TxError>(old(self).ledger@.len() as u64)
                    &&& final(self).wf()
                    &&& final(self).same_but_books(old(self))
                    &&& final(self).balances@ == moved(
                        fee_paid(
                            old(self).balances@,
                            caller,
                            old(self).stats.fee as nat,
                            old(self).stats.fee_to,
                            old(self).bidding.fee_ratio as nat,
                        ),
                        caller,
                        to,
                        value as nat,
                    )
                    &&& final(self).balances.entries@ == move_entries(
                        fee_entries(
                            old(self).balances.entries@,
                            caller,
                            old(self).stats.fee as nat,
                            old(self).stats.fee_to,
                            old(self).bidding.fee_ratio as nat,
                        ),
                        caller,
                        to,
                        value as nat,
                    )
                    &&& final(self).ledger@ == old(self).ledger@.push(
                        (TransactionRecord {
                            id: old(self).ledger@.len() as u64,
                            kind: TxKind::Transfer,
                            caller,
                            from: caller,
                            to,
                            amount: value,
                            fee: old(self).stats.fee,
                            timestamp: now,
                            notified: false,
                        }),
                    )
                },
            },
    {
        let fee: Amount = self.stats.fee;
        match fee_limit {
            Some(limit) => {
                if fee > limit {
                    return Err(TxError::FeeExceededLimit);
                }
            },
            None => {},
        }
        let due: Amount = match value.checked_add(fee) {
            Some(d) => d,
            None => {
                return Err(TxError::Overflow);
            },
        };
        if self.balances.balance_of(caller) < due {
            return Err(TxError::InsufficientBalance);
        }
        self.balances.pay_fee(caller, fee, self.stats.fee_to, self.bidding.fee_ratio);
        self.balances.move_amount(caller, to, value);
        let id: u64 = self.ledger.append(TxKind::Transfer, caller, caller, to, value, fee, now);
        Ok(id)
    }

    /// Why a transfer of `value` with the fee taken out of it is refused, if
    /// it is.
    pub open spec fn transfer_include_fee_refusal(&self, caller: Holder, value: Amount) -> Option<
        TxError,
    > {
        if value <= self.stats.fee {
            Some(TxError::AmountTooSmall)
        } else if self.balances@[caller] < value {
            Some(TxError::InsufficientBalance)
        } else {
            None
        }
    }

    /// Moves `value` out of the caller's balance: the fee is taken from it and
    /// the recipient gets the rest. A refused transfer changes nothing.
    pub fn transfer_include_fee(&mut self, caller: Holder, to: Holder, value: Amount, now: Timestamp) -> (r:
        Result<u64, TxError>)
        requires
            old(self).wf(),
        ensures
            match old(self).transfer_include_fee_refusal(caller, value) {
                Some(e) => r == Err::<u64, TxError>(e) && *final(self) == *old(self),
                None => {
                    &&& r == Ok::<u64, TxError>(old(self).ledger@.len() as u64)
                    &&& final(self).wf()
                    &&& final(self).same_but_books(old(self))
                    &&& final(self).balances@ == moved(
                        fee_paid(
                            old(self).balances@,
                            caller,
                            old(self).stats.fee as nat,
                            old(self).stats.fee_to,
                            old(self).bidding.fee_ratio as nat,
                        ),
                        caller,
                        to,
                        (value - old(self).stats.fee) as nat,
                    )
                    &&& final(self).balances.entries@ == move_entries(
                        fee_entries(
                            old(self).balances.entries@,
                            caller,
                            old(self).stats.fee as nat,
                            old(self).stats.fee_to,
                            old(self).bidding.fee_ratio as nat,
                        ),
                        caller,
                        to,
                        (value - old(self).stats.fee) as nat,
                    )
                    &&& final(self).ledger@ == old(self).ledger@.push(
                        (TransactionRecord {
                            id: old(self).ledger@.len() as u64,
                            kind: TxKind::Transfer,
                            caller,
                            from: caller,
                            to,
                            amount: (value - old(self).stats.fee) as u128,
                            fee: old(self).stats.fee,
                            timestamp: now,
                            notified: false,
                        }),
                    )
                },
            },
    {
        let fee: Amount = self.stats.fee;
        if value <= fee {
            return Err(TxError::AmountTooSmall);
        }
        if self.balances.balance_of(caller) < value {
            return Err(TxError::InsufficientBalance);
        }
        let rest: Amount = value - fee;
        self.balances.pay_fee(caller, fee, self.stats.fee_to, self.bidding.fee_ratio);
        self.balances.move_amount(caller, to, rest);
        let id: u64 = self.ledger.append(TxKind::Transfer, caller, caller, to, rest, fee, now);
        Ok(id)
    }

    /// Why a transfer by `caller` out of the balance of `from` is refused, if
    /// it is. The allowance is tested before the balance.
    pub open spec fn transfer_from_refusal(&self, caller: Holder, from: Holder, value: Amount) -> Option<
        TxError,
    > {
        if value + self.stats.fee > u128::MAX {
            Some(TxError::Overflow)
        } else if self.allowances@[(from, caller)] < value + self.stats.fee {
            Some(TxError::InsufficientAllowance)
        } else if self.balances@[from] < value + self.stats.fee {
            Some(TxError::InsufficientBalance)
        } else {
            None
        }
    }

    /// Moves `value` from `from` to `to` on the strength of the allowance that
    /// `from` gave to `caller`. `from` pays the fee on top; value and fee
    /// together are taken off the allowance. A refused transfer changes
    /// nothing.
    pub fn transfer_from(&mut self, caller: Holder, from: Holder, to: Holder, value: Amount, now: Timestamp) -> (r:
        Result<u64, TxError>)
        requires
            old(self).wf(),
        ensures
            match old(self).transfer_from_refusal(caller, from, value) {
                Some(e) => r == Err::<u64, TxError>(e) && *final(self) == *old(self),
                None => {
                    &&& r == Ok::<u64, TxError>(old(self).ledger@.len() as u64)
                    &&& final(self).wf()
                    &&& final(self).same_settings(old(self))
                    &&& final(self).minted == old(self).minted
                    &&& final(self).burned == old(self).burned
                    &&& final(self).allowances@ == old(self).allowances@.insert(
                        (from, caller),
                        (old(self).allowances@[(from, caller)] - (value + old(self).stats.fee)) as nat,
                    )
                    &&& final(self).balances@ == moved(
                        fee_paid(
                            old(self).balances@,
                            from,
                            old(self).stats.fee as nat,
                            old(self).stats.fee_to,
                            old(self).bidding.fee_ratio as nat,
                        ),
                        from,
                        to,
                        value as nat,
                    )
                    &&& final(self).balances.entries@ == move_entries(
                        fee_entries(
                            old(self).balances.entries@,
                            from,
                            old(self).stats.fee as nat,
                            old(self).stats.fee_to,
                            old(self).bidding.fee_ratio as nat,
                        ),
                        from,
                        to,
                        value as nat,
                    )
                    &&& final(self).ledger@ == old(self).ledger@.push(
                        (TransactionRecord {
                            id: old(self).ledger@.len() as u64,
                            kind: TxKind::TransferFrom,
                            caller,
                            from,
                            to,
                            amount: value,
                            fee: old(self).stats.fee,
                            timestamp: now,
                            notified: false,
                        }),
                    )
                },
            },
    {
        let fee: Amount = self.stats.fee;
        let due: Amount = match value.checked_add(fee) {
            Some(d) => d,
            None => {
                return Err(TxError::Overflow);
            },
        };
        if self.allowances.allowance(from, caller) < due {
            return Err(TxError::InsufficientAllowance);
        }
        if self.balances.balance_of(from) < due {
            return Err(TxError::InsufficientBalance);
        }
        let spent = self.allowances.consume_allowance(from, caller, due);
        self.balances.pay_fee(from, fee, self.stats.fee_to, self.bidding.fee_ratio);
        self.balances.move_amount(from, to, value);
        let id: u64 = self.ledger.append(TxKind::TransferFrom, caller, from, to, value, fee, now);
        Ok(id)
    }

    /// Why an approval is refused, if it is.
    pub open spec fn approve_refusal(&self, caller: Holder, value: Amount) -> Option<TxError> {
        if value + self.stats.fee > u128::MAX {
            Some(TxError::Overflow)
        } else if self.balances@[caller] < self.stats.fee {
            Some(TxError::InsufficientBalance)
        } else {
            None
        }
    }

    /// Lets `spender` move up to `value`, and the fee of that transfer, out of
    /// the caller's balance. The caller pays the fee of the approval. A
    /// refused approval changes nothing.
    pub fn approve(&mut self, caller: Holder, spender: Holder, value: Amount, now: Timestamp) -> (r:
        Result<u64, TxError>)
        requires
            old(self).wf(),
        ensures
            match old(self).approve_refusal(caller, value) {
                Some(e) => r == Err::<u64, TxError>(e) && *final(self) == *old(self),
                None => {
                    &&& r == Ok::<u64, TxError>(old(self).ledger@.len() as u64)
                    &&& final(self).wf()
                    &&& final(self).same_settings(old(self))
                    &&& final(self).minted == old(self).minted
                    &&& final(self).burned == old(self).burned
                    &&& final(self).allowances@ == old(self).allowances@.insert(
                        (caller, spender),
                        (value + old(self).stats.fee) as nat,
                    )
                    &&& final(self).balances@ == fee_paid(
                        old(self).balances@,
                        caller,
                        old(self).stats.fee as nat,
                        old(self).stats.fee_to,
                        old(self).bidding.fee_ratio as nat,
                    )
                    &&& final(self).balances.entries@ == fee_entries(
                        old(self).balances.entries@,
                        caller,
                        old(self).stats.fee as nat,
                        old(self).stats.fee_to,
                        old(self).bidding.fee_ratio as nat,
                    )
                    &&& final(self).ledger@ == old(self).ledger@.push(
                        (TransactionRecord {
                            id: old(self).ledger@.len() as u64,
                            kind: TxKind::Approve,
                            caller,
                            from: caller,
                            to: spender,
                            amount: value,
                            fee: old(self).stats.fee,
                            timestamp: now,
                            notified: false,
                        }),
                    )
                },
            },
    {
        let fee: Amount = self.stats.fee;
        let granted: Amount = match value.checked_add(fee) {
            Some(d) => d,
            None => {
                return Err(TxError::Overflow);
            },
        };
        if self.balances.balance_of(caller) < fee {
            return Err(TxError::InsufficientBalance);
        }
        self.balances.pay_fee(caller, fee, self.stats.fee_to, self.bidding.fee_ratio);
        self.allowances.set_allowance(caller, spender, granted);
        let id: u64 = self.ledger.append(TxKind::Approve, caller, caller, spender, value, fee, now);
        Ok(id)
    }

    /// Why a mint is refused, if it is.
    pub open spec fn mint_refusal(&self, caller: Holder, amount: Amount) -> Option<TxError> {
        if !self.stats.is_test_token && caller != self.stats.owner {
            Some(TxError::Unauthorized { owner: self.stats.owner, caller })
        } else if self.minted + amount > u128::MAX {
            Some(TxError::Overflow)
        } else {
            None
        }
    }

    /// Creates `amount` in the balance of `to`. Only the owner may, unless the
    /// token is a test token. A refused mint changes nothing.
    pub fn mint(&mut self, caller: Holder, to: Holder, amount: Amount, now: Timestamp) -> (r: Result<
        u64,
        TxError,
    >)
        requires
            old(self).wf(),
        ensures
            match old(self).mint_refusal(caller, amount) {
                Some(e) => r == Err::<u64, TxError>(e) && *final(self) == *old(self),
                None => {
                    &&& r == Ok::<u64, TxError>(old(self).ledger@.len() as u64)
                    &&& final(self).wf()
                    &&& final(self).same_settings(old(self))
                    &&& final(self).allowances == old(self).allowances
                    &&& final(self).minted == old(self).minted + amount
                    &&& final(self).burned == old(self).burned
                    &&& final(self).balances@ == credited(old(self).balances@, to, amount as nat)
                    &&& final(self).balances.entries@ == credit_entries(old(self).balances.entries@, to, amount as nat)
                    &&& final(self).ledger@ == old(self).ledger@.push(
                        (TransactionRecord {
                            id: old(self).ledger@.len() as u64,
                            kind: TxKind::Mint,
                            caller,
                            from: caller,
                            to,
                            amount,
                            fee: 0,
                            timestamp: now,
                            notified: false,
                        }),
                    )
                },
            },
    {
        if !self.stats.is_test_token && caller != self.stats.owner {
            return Err(TxError::Unauthorized { owner: self.stats.owner, caller });
        }
        let minted: Amount = match self.minted.checked_add(amount) {
            Some(m) => m,
            None => {
                return Err(TxError::Overflow);
            },
        };
        proof {
            lemma_lookup_le_total(self.balances.entries@, to);
        }
        let given = self.balances.credit(to, amount);
        self.minted = minted;
        let id: u64 = self.ledger.append(TxKind::Mint, caller, caller, to, amount, 0, now);
        Ok(id)
    }

    /// Why a burn is refused, if it is.
    pub open spec fn burn_refusal(&self, caller: Holder, amount: Amount) -> Option<TxError> {
        if self.balances@[caller] < amount {
            Some(TxError::InsufficientBalance)
        } else {
            None
        }
    }

    /// Destroys `amount` of the caller's balance. A refused burn changes
    /// nothing.
    pub fn burn(&mut self, caller: Holder, amount: Amount, now: Timestamp) -> (r: Result<u64, TxError>)
        requires
            old(self).wf(),
        ensures
            match old(self).burn_refusal(caller, amount) {
                Some(e) => r == Err::<u64, TxError>(e) && *final(self) == *old(self),
                None => {
                    &&& r == Ok::<u64, TxError>(old(self).ledger@.len() as u64)
                    &&& final(self).wf()
                    &&& final(self).same_settings(old(self))
                    &&& final(self).allowances == old(self).allowances
                    &&& final(self).minted == old(self).minted
                    &&& final(self).burned == old(self).burned + amount
                    &&& final(self).balances@ == debited(old(self).balances@, caller, amount as nat)
                    &&& final(self).balances.entries@ == debit_entries(old(self).balances.entries@, caller, amount as nat)
                    &&& final(self).ledger@ == old(self).ledger@.push(
                        (TransactionRecord {
                            id: old(self).ledger@.len() as u64,
                            kind: TxKind::Burn,
                            caller,
                            from: caller,
                            to: caller,
                            amount,
                            fee: 0,
                            timestamp: now,
                            notified: false,
                        }),
                    )
                },
            },
    {
        if self.balances.balance_of(caller) < amount {
            return Err(TxError::InsufficientBalance);
        }
        proof {
            lemma_lookup_le_total(self.balances.entries@, caller);
        }
        let taken = self.balances.debit(caller, amount);
        self.burned = self.burned + amount;
        let id: u64 = self.ledger.append(TxKind::Burn, caller, caller, caller, amount, 0, now);
        Ok(id)
    }
}

} // verus!
