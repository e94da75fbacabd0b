use vstd::prelude::*;
use crate::types::{Amount, Holder, Metadata, Timestamp, TransactionRecord, TxError};
use crate::ledger::{records_of, spec_by_participant, spec_range};
use crate::token::{StatsData, TokenCanister, MAX_TRANSACTION_QUERY_LEN};
use crate::store::page;

verus! {

/// Allows `caller` only if it is `owner`.
pub fn check_caller(caller: Holder, owner: Holder) -> (r: Result<(), TxError>)
    ensures
        caller == owner ==> r.is_ok(),
        caller != owner ==> r == Err::<(), TxError>((TxError::Unauthorized { owner, caller })),
{
    if caller == owner {
        Ok(())
    } else {
        Err(TxError::Unauthorized { owner, caller })
    }
}

/// The query limit, capped at the most that one query may ask for.
pub open spec fn spec_capped(limit: u64) -> u64 {
    if limit > MAX_TRANSACTION_QUERY_LEN {
        MAX_TRANSACTION_QUERY_LEN
    } else {
        limit
    }
}

/// The query limit, capped at the most that one query may ask for.
#[verifier::when_used_as_spec(spec_capped)]
pub fn capped(limit: u64) -> (r: u64)
    ensures
        r == spec_capped(limit),
{
    if limit > MAX_TRANSACTION_QUERY_LEN {
        MAX_TRANSACTION_QUERY_LEN
    } else {
        limit
    }
}

/// A summary of the token.
#[allow(non_snake_case)]
pub struct TokenInfo {
    pub metadata: Metadata,
    pub feeTo: Holder,
    pub historySize: u64,
    pub deployTime: Timestamp,
    pub holderNumber: usize,
    pub cycles: u64,
}

impl TokenCanister {
    /// Whether everything but the settings agrees with `other`.
    pub open spec fn same_but_stats(&self, other: &Self) -> bool {
        &&& self.balances == other.balances
        &&& self.allowances == other.allowances
        &&& self.ledger == other.ledger
        &&& self.minted == other.minted
        &&& self.burned == other.burned
        &&& self.bidding == other.bidding
        &&& self.auctions == other.auctions
        &&& self.in_flight == other.in_flight
    }

    pub fn get_metadata(&self) -> (r: Metadata)
        requires
            self.wf(),
        ensures
            r.logo == self.stats.logo,
            r.name == self.stats.name,
            r.symbol == self.stats.symbol,
            r.decimals == self.stats.decimals,
            r.totalSupply == self.spec_total_supply(),
            r.owner == self.stats.owner,
            r.fee == self.stats.fee,
            r.feeTo == self.stats.fee_to,
            r.isTestToken == Some(self.stats.is_test_token),
    {
        Metadata {
            logo: self.stats.logo.clone(),
            name: self.stats.name.clone(),
            symbol: self.stats.symbol.clone(),
            decimals: self.stats.decimals,
            totalSupply: self.minted - self.burned,
            owner: self.stats.owner,
            fee: self.stats.fee,
            feeTo: self.stats.fee_to,
            isTestToken: Some(self.stats.is_test_token),
        }
    }

    /// A summary of the token; `cycles` is the resource at hand.
    pub fn get_token_info(&self, cycles: u64) -> (r: TokenInfo)
        requires
            self.wf(),
        ensures
            r.metadata.logo == self.stats.logo,
            r.metadata.name == self.stats.name,
            r.metadata.symbol == self.stats.symbol,
            r.metadata.decimals == self.stats.decimals,
            r.metadata.totalSupply == self.spec_total_supply(),
            r.metadata.owner == self.stats.owner,
            r.metadata.fee == self.stats.fee,
            r.metadata.feeTo == self.stats.fee_to,
            r.metadata.isTestToken == Some(self.stats.is_test_token),
            r.feeTo == self.stats.fee_to,
            r.historySize == self.ledger@.len(),
            r.deployTime == self.stats.deploy_time,
            r.holderNumber == self.balances.entries@.len(),
            r.cycles == cycles,
    {
        TokenInfo {
            metadata: self.get_metadata(),
            feeTo: self.stats.fee_to,
            historySize: self.ledger.len(),
            deployTime: self.stats.deploy_time,
            holderNumber: self.balances.entries.len(),
            cycles,
        }
    }

    /// A page of the holders, each with its balance, in the order in which
    /// they first received anything.
    pub fn get_holders(&self, start: usize, limit: usize) -> (r: Vec<(Holder, Amount)>)
        ensures
            r@ == page(self.balances.entries@, start as nat, limit as nat),
    {
        let n: usize = self.balances.entries.len();
        let lo: usize = if start < n { start } else { n };
        let hi: usize = if limit < n - lo { lo + limit } else { n };
        let mut out: Vec<(Holder, Amount)> = Vec::new();
        let mut i: usize = lo;
        while i < hi
            invariant
                lo <= i <= hi <= n,
                n == self.balances.entries@.len(),
                out@ == self.balances.entries@.subrange(lo as int, i as int),
            decreases hi - i,
        {
            out.push(self.balances.entries[i]);
            proof {
                assert(self.balances.entries@.subrange(lo as int, i + 1) =~= self.balances.entries@.subrange(
                    lo as int,
                    i as int,
                ).push(self.balances.entries@[i as int]));
            }
            i = i + 1;
        }
        out
    }

    pub fn get_allowance_size(&self) -> (r: usize)
        ensures
            r == self.allowances.entries@.len(),
    {
        self.allowances.size()
    }

    pub fn get_user_approvals(&self, who: Holder) -> (r: Vec<(Holder, Amount)>)
        ensures
            r@ == crate::allowances::spec_approvals(self.allowances.entries@, who),
    {
        self.allowances.user_approvals(who)
    }

    pub fn is_test_token(&self) -> (r: bool)
        ensures
            r == self.stats.is_test_token,
    {
        self.stats.is_test_token
    }

    /// Switches test mode on or off and returns the new setting. Only the
    /// owner may.
    pub fn toggle_test(&mut self, caller: Holder) -> (r: Result<bool, TxError>)
        ensures
            caller != old(self).stats.owner ==> r == Err::<bool, TxError>((TxError::Unauthorized { owner: old(self).stats.owner, caller }))
                && *final(self) == *old(self),
            caller == old(self).stats.owner ==> r == Ok::<bool, TxError>(!old(self).stats.is_test_token)
                && final(self).same_but_stats(old(self)) && final(self).stats == (StatsData {
                is_test_token: !old(self).stats.is_test_token,
                ..old(self).stats
            }),
    {
        if caller != self.stats.owner {
            return Err(TxError::Unauthorized { owner: self.stats.owner, caller });
        }
        self.stats.is_test_token = !self.stats.is_test_token;
        Ok(self.stats.is_test_token)
    }

    pub fn name(&self) -> (r: String)
        ensures
            r == self.stats.name,
    {
        self.stats.name.clone()
    }

    pub fn symbol(&self) -> (r: String)
        ensures
            r == self.stats.symbol,
    {
        self.stats.symbol.clone()
    }

    pub fn logo(&self) -> (r: String)
        ensures
            r == self.stats.logo,
    {
        self.stats.logo.clone()
    }

    pub fn decimals(&self) -> (r: u8)
        ensures
            r == self.stats.decimals,
    {
        self.stats.decimals
    }

    /// The supply in circulation: what was minted less what was burned,
    /// which is what the holders have between them.
    pub fn total_supply(&self) -> (r: Amount)
        requires
            self.wf(),
        ensures
            r == self.spec_total_supply(),
            r == self.balances.total(),
    {
        self.minted - self.burned
    }

    pub fn balance_of(&self, holder: Holder) -> (r: Amount)
        requires
            self.wf(),
        ensures
            r == self.balances@[holder],
    {
        self.balances.balance_of(holder)
    }

    pub fn allowance(&self, owner: Holder, spender: Holder) -> (r: Amount)
        requires
            self.wf(),
        ensures
            r == self.allowances@[(owner, spender)],
    {
        self.allowances.allowance(owner, spender)
    }

    pub fn history_size(&self) -> (r: u64)
        requires
            self.wf(),
        ensures
            r == self.ledger@.len(),
    {
        self.ledger.len()
    }

    pub fn owner(&self) -> (r: Holder)
        ensures
            r == self.stats.owner,
    {
        self.stats.owner
    }

    /// The record with this id, which must exist.
    pub fn get_transaction(&self, id: u64) -> (r: TransactionRecord)
        requires
            self.wf(),
            id < self.ledger@.len(),
        ensures
            r == self.ledger@[id as int],
    {
        let n: usize = self.ledger.records.len();
        self.ledger.records[id as usize]
    }

    /// The records with an id in `[start, start + limit)`, the limit capped
    /// at the most that one query may ask for.
    pub fn get_transactions(&self, start: u64, limit: u64) -> (r: Vec<TransactionRecord>)
        requires
            self.wf(),
        ensures
            r@ == spec_range(self.ledger@, start as nat, spec_capped(limit) as nat),
            r@.len() <= MAX_TRANSACTION_QUERY_LEN,
    {
        self.ledger.get_range(start, capped(limit))
    }

    /// Of the records with an id in `[start, start + limit)`, the limit
    /// capped as for `get_transactions`, those that `who` takes part in.
    pub fn get_user_transactions(&self, who: Holder, start: u64, limit: u64) -> (r: Vec<TransactionRecord>)
        requires
            self.wf(),
        ensures
            r@ == spec_by_participant(spec_range(self.ledger@, start as nat, spec_capped(limit) as nat), who),
    {
        let window = self.ledger.get_range(start, capped(limit));
        records_of(&window, who)
    }

    /// How many records `who` takes part in.
    pub fn get_user_transaction_count(&self, who: Holder) -> (r: u64)
        requires
            self.wf(),
        ensures
            r == spec_by_participant(self.ledger@, who).len(),
    {
        let ghost pred = |t: TransactionRecord| t.spec_involves(who);
        let mut count: u64 = 0;
        let mut i: usize = 0;
        while i < self.ledger.records.len()
            invariant
                i <= self.ledger@.len(),
                self.ledger@.len() <= u64::MAX,
                pred == (|t: TransactionRecord| t.spec_involves(who)),
                count == self.ledger@.take(i as int).filter(pred).len(),
                count <= i,
            decreases self.ledger@.len() - i,
        {
            let t = self.ledger.records[i];
            proof {
                self.ledger@.take(i as int).lemma_filter_push(t, pred);
                assert(self.ledger@.take(i + 1) =~= self.ledger@.take(i as int).push(t));
            }
            if t.involves(who) {
                count = count + 1;
            }
            i = i + 1;
        }
        proof {
            assert(self.ledger@.take(i as int) =~= self.ledger@);
        }
        count
    }

    pub fn set_name(&mut self, caller: Holder, name: String) -> (r: Result<(), TxError>)
        ensures
            caller != old(self).stats.owner ==> r == Err::<(), TxError>((TxError::Unauthorized { owner: old(self).stats.owner, caller })) && *final(self)
                == *old(self),
            caller == old(self).stats.owner ==> r.is_ok() && final(self).same_but_stats(old(self))
                && final(self).stats == (StatsData { name, ..old(self).stats }),
    {
        if caller != self.stats.owner {
            return Err(TxError::Unauthorized { owner: self.stats.owner, caller });
        }
        self.stats.name = name;
        Ok(())
    }

    pub fn set_logo(&mut self, caller: Holder, logo: String) -> (r: Result<(), TxError>)
        ensures
            caller != old(self).stats.owner ==> r == Err::<(), TxError>((TxError::Unauthorized { owner: old(self).stats.owner, caller })) && *final(self)
                == *old(self),
            caller == old(self).stats.owner ==> r.is_ok() && final(self).same_but_stats(old(self))
                && final(self).stats == (StatsData { logo, ..old(self).stats }),
    {
        if caller != self.stats.owner {
            return Err(TxError::Unauthorized { owner: self.stats.owner, caller });
        }
        self.stats.logo = logo;
        Ok(())
    }

    pub fn set_fee(&mut self, caller: Holder, fee: Amount) -> (r: Result<(), TxError>)
        ensures
            caller != old(self).stats.owner ==> r == Err::<(), TxError>((TxError::Unauthorized { owner: old(self).stats.owner, caller })) && *final(self)
                == *old(self),
            caller == old(self).stats.owner ==> r.is_ok() && final(self).same_but_stats(old(self))
                && final(self).stats == (StatsData { fee, ..old(self).stats }),
    {
        if caller != self.stats.owner {
            return Err(TxError::Unauthorized { owner: self.stats.owner, caller });
        }
        self.stats.fee = fee;
        Ok(())
    }

    pub fn set_fee_to(&mut self, caller: Holder, fee_to: Holder) -> (r: Result<(), TxError>)
        ensures
            caller != old(self).stats.owner ==> r == Err::<(), TxError>((TxError::Unauthorized { owner: old(self).stats.owner, caller })) && *final(self)
                == *old(self),
            caller == old(self).stats.owner ==> r.is_ok() && final(self).same_but_stats(old(self))
                && final(self).stats == (StatsData { fee_to, ..old(self).stats }),
    {
        if caller != self.stats.owner {
            return Err(TxError::Unauthorized { owner: self.stats.owner, caller });
        }
        self.stats.fee_to = fee_to;
        Ok(())
    }

    pub fn set_owner(&mut self, caller: Holder, owner: Holder) -> (r: Result<(), TxError>)
        ensures
            caller != old(self).stats.owner ==> r == Err::<(), TxError>((TxError::Unauthorized { owner: old(self).stats.owner, caller })) && *final(self)
                == *old(self),
            caller == old(self).stats.owner ==> r.is_ok() && final(self).same_but_stats(old(self))
                && final(self).stats == (StatsData { owner, ..old(self).stats }),
    {
        if caller != self.stats.owner {
            return Err(TxError::Unauthorized { owner: self.stats.owner, caller });
        }
        self.stats.owner = owner;
        Ok(())
    }

    pub fn get_min_cycles(&self) -> (r: u64)
        ensures
            r == self.stats.min_cycles,
    {
        self.stats.min_cycles
    }

    /// Sets the resource level at or under which every fee goes to the
    /// auction. Only the owner may.
    pub fn set_min_cycles(&mut self, caller: Holder, min_cycles: u64) -> (r: Result<(), TxError>)
        ensures
            caller != old(self).stats.owner ==> r == Err::<(), TxError>((TxError::Unauthorized { owner: old(self).stats.owner, caller })) && *final(self)
                == *old(self),
            caller == old(self).stats.owner ==> r.is_ok() && final(self).same_but_stats(old(self))
                && final(self).stats == (StatsData { min_cycles, ..old(self).stats }),
    {
        if caller != self.stats.owner {
            return Err(TxError::Unauthorized { owner: self.stats.owner, caller });
        }
        self.stats.min_cycles = min_cycles;
        Ok(())
    }

    /// Sets the time between two auctions, given in seconds. Only the owner
    /// may. A period that does not fit the clock is refused with `Overflow`.
    pub fn set_auction_period(&mut self, caller: Holder, period_sec: u64) -> (r: Result<(), TxError>)
        ensures
            caller != old(self).stats.owner ==> r == Err::<(), TxError>((TxError::Unauthorized { owner: old(self).stats.owner, caller })) && *final(self)
                == *old(self),
            caller == old(self).stats.owner && period_sec * 1_000_000 > u64::MAX ==> r == Err::<
                (),
                TxError,
            >(TxError::Overflow) && *final(self) == *old(self),
            caller == old(self).stats.owner && period_sec * 1_000_000 <= u64::MAX ==> r.is_ok()
                && final(self).bidding.auction_period == period_sec * 1_000_000
                && final(self).bidding.fee_ratio == old(self).bidding.fee_ratio
                && final(self).bidding.last_auction == old(self).bidding.last_auction
                && final(self).bidding.cycles_since_auction == old(self).bidding.cycles_since_auction
                && final(self).bidding.bids == old(self).bidding.bids
                && final(self).stats == old(self).stats
                && final(self).balances == old(self).balances
                && final(self).allowances == old(self).allowances
                && final(self).ledger == old(self).ledger
                && final(self).minted == old(self).minted
                && final(self).burned == old(self).burned
                && final(self).auctions == old(self).auctions
                && final(self).in_flight == old(self).in_flight,
    {
        if caller != self.stats.owner {
            return Err(TxError::Unauthorized { owner: self.stats.owner, caller });
        }
        match period_sec.checked_mul(1_000_000) {
            Some(period) => {
                self.bidding.auction_period = period;
                Ok(())
            },
            None => Err(TxError::Overflow),
        }
    }
}

} // verus!
