use vstd::prelude::*;
use vstd::arithmetic::div_mod::{lemma_div_is_ordered_by_denominator, lemma_div_multiples_vanish};
use crate::types::{Amount, AuctionError, Holder, Timestamp, TransactionRecord, TxKind};
use crate::balances::{Balances, PPM, credited, moved, credit_entries, move_entries};
use crate::arith::{mul_div, spec_mul_div, lemma_mul_div_bounded};
use crate::table::{absent, total, lemma_lookup_le_total};
use crate::token::TokenCanister;

verus! {

/// The smallest bid that is accepted.
pub const MIN_BIDDING_AMOUNT: u64 = 1_000_000;

/// The fee ratio, in parts per million, for the period after an auction that
/// left `cycles` of resource: everything while the resource is at or under
/// the minimum, and `min_cycles / cycles` of everything above it.
pub open spec fn spec_fee_ratio(cycles: nat, min_cycles: nat) -> nat {
    if cycles <= min_cycles {
        PPM as nat
    } else {
        spec_mul_div(PPM as nat, min_cycles, cycles)
    }
}

/// Whether an auction at `now` comes before the period is over.
pub open spec fn too_early(last: Timestamp, period: Timestamp, now: Timestamp) -> bool {
    now < last || now - last < period
}

/// What a bid gets of `pool` when the bids still to be served come to
/// `open_bids`: its proportional part, rounded down.
pub open spec fn spec_share(pool: nat, bid: nat, open_bids: nat) -> nat {
    if open_bids == 0 {
        0
    } else {
        spec_mul_div(pool, bid, open_bids)
    }
}

/// The balances after `pool` was paid out to `bids`. The last bid is served
/// first; each bid gets its part of what is left of the pool, in proportion
/// to the bids not yet served, so what rounding holds back from one bidder
/// goes on to those served after it.
pub open spec fn spec_settle(m: Map<Holder, nat>, bids: Seq<(Holder, Amount)>, pool: nat) -> Map<
    Holder,
    nat,
>
    decreases bids.len(),
{
    if bids.len() == 0 {
        m
    } else {
        let share = spec_share(pool, bids.last().1 as nat, total(bids));
        spec_settle(
            moved(m, Holder::spec_auction_pool(), bids.last().0, share),
            bids.drop_last(),
            (pool - share) as nat,
        )
    }
}

/// The entries of the balances after `pool` was paid out to `bids`, served
/// as in `spec_settle`.
pub open spec fn spec_settle_entries(s: Seq<(Holder, Amount)>, bids: Seq<(Holder, Amount)>, pool: nat) -> Seq<
    (Holder, Amount),
>
    decreases bids.len(),
{
    if bids.len() == 0 {
        s
    } else {
        let share = spec_share(pool, bids.last().1 as nat, total(bids));
        spec_settle_entries(
            move_entries(s, Holder::spec_auction_pool(), bids.last().0, share),
            bids.drop_last(),
            (pool - share) as nat,
        )
    }
}

/// The log after `pool` was paid out to `bids`: one record for each payment.
pub open spec fn spec_settle_log(
    log: Seq<TransactionRecord>,
    bids: Seq<(Holder, Amount)>,
    pool: nat,
    now: Timestamp,
) -> Seq<TransactionRecord>
    decreases bids.len(),
{
    if bids.len() == 0 {
        log
    } else {
        let share = spec_share(pool, bids.last().1 as nat, total(bids));
        spec_settle_log(
            log.push(
                (TransactionRecord {
                    id: log.len() as u64,
                    kind: TxKind::AuctionSettlement,
                    caller: Holder::spec_auction_pool(),
                    from: Holder::spec_auction_pool(),
                    to: bids.last().0,
                    amount: share as u128,
                    fee: 0,
                    timestamp: now,
                    notified: false,
                }),
            ),
            bids.drop_last(),
            (pool - share) as nat,
            now,
        )
    }
}

/// What is paid out of `pool` to `bids` in all.
pub open spec fn spec_distributed(bids: Seq<(Holder, Amount)>, pool: nat) -> nat
    decreases bids.len(),
{
    if bids.len() == 0 {
        0
    } else {
        let share = spec_share(pool, bids.last().1 as nat, total(bids));
        share + spec_distributed(bids.drop_last(), (pool - share) as nat)
    }
}

/// The ratio is never more than the whole.
pub proof fn lemma_fee_ratio_bounded(cycles: nat, min_cycles: nat)
    ensures
        spec_fee_ratio(cycles, min_cycles) <= PPM,
{
    if cycles > min_cycles {
        lemma_mul_div_bounded(PPM as nat, min_cycles, cycles);
    }
}

/// While the resource is at or under the minimum, every fee goes to the
/// auction.
pub proof fn lemma_fee_ratio_full(cycles: nat, min_cycles: nat)
    requires
        cycles <= min_cycles,
    ensures
        spec_fee_ratio(cycles, min_cycles) == PPM,
{
}

/// More resource never gives a higher ratio.
pub proof fn lemma_fee_ratio_monotone(less: nat, more: nat, min_cycles: nat)
    requires
        less <= more,
    ensures
        spec_fee_ratio(more, min_cycles) <= spec_fee_ratio(less, min_cycles),
{
    lemma_fee_ratio_bounded(more, min_cycles);
    if less > min_cycles {
        lemma_div_is_ordered_by_denominator((PPM * min_cycles) as int, less as int, more as int);
    }
}

/// What is paid out is never more than the pool.
pub proof fn lemma_distributed_bounded(bids: Seq<(Holder, Amount)>, pool: nat)
    ensures
        spec_distributed(bids, pool) <= pool,
    decreases bids.len(),
{
    if bids.len() > 0 {
        let share = spec_share(pool, bids.last().1 as nat, total(bids));
        if total(bids) > 0 {
            lemma_mul_div_bounded(pool, bids.last().1 as nat, total(bids));
        }
        lemma_distributed_bounded(bids.drop_last(), (pool - share) as nat);
    }
}

/// A settlement touches no balance but those of the bidders and of the
/// pool.
pub proof fn lemma_settle_leaves_others(
    m: Map<Holder, nat>,
    bids: Seq<(Holder, Amount)>,
    pool: nat,
    h: Holder,
)
    requires
        h != Holder::spec_auction_pool(),
        absent(bids, h),
    ensures
        spec_settle(m, bids, pool)[h] == m[h],
    decreases bids.len(),
{
    if bids.len() > 0 {
        let share = spec_share(pool, bids.last().1 as nat, total(bids));
        let next = moved(m, Holder::spec_auction_pool(), bids.last().0, share);
        assert(bids[bids.len() - 1].0 != h);
        assert(next[h] == m[h]);
        assert forall|i: int| 0 <= i < bids.drop_last().len() implies bids.drop_last()[i].0 != h by {
            assert(bids.drop_last()[i] == bids[i]);
        }
        lemma_settle_leaves_others(next, bids.drop_last(), (pool - share) as nat, h);
    }
}

/// Every bid is more than nothing.
pub open spec fn all_positive(bids: Seq<(Holder, Amount)>) -> bool {
    forall|i: int| 0 <= i < bids.len() ==> (#[trigger] bids[i]).1 > 0
}

/// Where there are bids, the whole pool is paid out: what rounding holds
/// back from one bidder goes to the next, and the bidder served last gets
/// all that is left.
pub proof fn lemma_distributed_whole(bids: Seq<(Holder, Amount)>, pool: nat)
    requires
        bids.len() > 0,
        all_positive(bids),
    ensures
        spec_distributed(bids, pool) == pool,
    decreases bids.len(),
{
    let bid = bids.last().1 as nat;
    let share = spec_share(pool, bid, total(bids));
    assert(bids[bids.len() - 1].1 > 0);
    lemma_mul_div_bounded(pool, bid, total(bids));
    if bids.len() == 1 {
        assert(total(bids.drop_last()) == 0);
        assert(pool * bid == bid * pool) by (nonlinear_arith);
        lemma_div_multiples_vanish(pool as int, bid as int);
        assert(spec_distributed(bids.drop_last(), (pool - share) as nat) == 0);
    } else {
        assert forall|i: int| 0 <= i < bids.drop_last().len() implies (#[trigger] bids.drop_last()[i]).1
            > 0 by {
            assert(bids.drop_last()[i] == bids[i]);
        }
        lemma_distributed_whole(bids.drop_last(), (pool - share) as nat);
    }
}

/// The fee ratio for the period after an auction.
pub fn fee_ratio_for(cycles: u64, min_cycles: u64) -> (r: u64)
    ensures
        r == spec_fee_ratio(cycles as nat, min_cycles as nat),
        r <= PPM,
{
    if cycles <= min_cycles {
        PPM
    } else {
        let part: u128 = mul_div(PPM as u128, min_cycles, cycles);
        part as u64
    }
}

/// A copy of a list of entries.
pub fn copy_entries(v: &Vec<(Holder, Amount)>) -> (r: Vec<(Holder, Amount)>)
    ensures
        r@ == v@,
{
    let mut out: Vec<(Holder, Amount)> = Vec::new();
    let mut i: usize = 0;
    while i < v.len()
        invariant
            i <= v@.len(),
            out@ == v@.take(i as int),
        decreases v@.len() - i,
    {
        out.push(v[i]);
        proof {
            assert(v@.take(i + 1) =~= v@.take(i as int).push(v@[i as int]));
        }
        i = i + 1;
    }
    proof {
        assert(v@.take(i as int) =~= v@);
    }
    out
}

/// Bids of the running period and the ratio at which fees are set aside.
pub struct BiddingState {
    /// Part of each fee that goes to the auction pool, in parts per million.
    pub fee_ratio: u64,
    pub auction_period: Timestamp,
    pub last_auction: Timestamp,
    /// Sum of the open bids.
    pub cycles_since_auction: u64,
    /// What each bidder has pledged since the last auction.
    pub bids: Balances,
}

impl BiddingState {
    pub open spec fn wf(&self) -> bool {
        &&& self.fee_ratio <= PPM
        &&& self.bids.wf()
        &&& self.bids.total() == self.cycles_since_auction
    }

    pub fn new(auction_period: Timestamp, now: Timestamp) -> (r: Self)
        ensures
            r.wf(),
            r.fee_ratio == 0,
            r.auction_period == auction_period,
            r.last_auction == now,
            r.cycles_since_auction == 0,
            r.bids.entries@.len() == 0,
    {
        BiddingState {
            fee_ratio: 0,
            auction_period,
            last_auction: now,
            cycles_since_auction: 0,
            bids: Balances::new(),
        }
    }

    /// Why a bid of `cycles` is refused, if it is.
    pub open spec fn bid_refusal(&self, cycles: u64) -> Option<AuctionError> {
        if cycles < MIN_BIDDING_AMOUNT {
            Some(AuctionError::BidTooSmall)
        } else if self.cycles_since_auction + cycles > u64::MAX {
            Some(AuctionError::Overflow)
        } else {
            None
        }
    }

    /// Adds `cycles` to what `bidder` has pledged in this period and returns
    /// the amount accepted. A first bid goes behind all others; a further
    /// bid keeps the bidder's place. A refused bid changes nothing.
    pub fn bid(&mut self, bidder: Holder, cycles: u64) -> (r: Result<u64, AuctionError>)
        requires
            old(self).wf(),
        ensures
            match old(self).bid_refusal(cycles) {
                Some(e) => r == Err::<u64, AuctionError>(e) && *final(self) == *old(self),
                None => {
                    &&& r == Ok::<u64, AuctionError>(cycles)
                    &&& final(self).wf()
                    &&& final(self).bids@ == credited(old(self).bids@, bidder, cycles as nat)
                    &&& final(self).bids.entries@ == credit_entries(old(self).bids.entries@, bidder, cycles as nat)
                    &&& final(self).cycles_since_auction == old(self).cycles_since_auction + cycles
                    &&& final(self).fee_ratio == old(self).fee_ratio
                    &&& final(self).auction_period == old(self).auction_period
                    &&& final(self).last_auction == old(self).last_auction
                },
            },
    {
        if cycles < MIN_BIDDING_AMOUNT {
            return Err(AuctionError::BidTooSmall);
        }
        let sum: u64 = match self.cycles_since_auction.checked_add(cycles) {
            Some(s) => s,
            None => {
                return Err(AuctionError::Overflow);
            },
        };
        proof {
            lemma_lookup_le_total(self.bids.entries@, bidder);
        }
        let pledged = self.bids.credit(bidder, cycles as u128);
        self.cycles_since_auction = sum;
        Ok(cycles)
    }

    /// Whether an auction at `now` would come too early.
    pub fn is_too_early(&self, now: Timestamp) -> (r: bool)
        ensures
            r == too_early(self.last_auction, self.auction_period, now),
    {
        now < self.last_auction || now - self.last_auction < self.auction_period
    }
}

/// What one settled auction did.
#[derive(Debug)]
pub struct AuctionRecord {
    pub id: u64,
    pub timestamp: Timestamp,
    pub fee_pool_distributed: Amount,
    /// The fee ratio set for the period after this auction.
    pub fee_ratio_after: u64,
    /// The bids that took part, as they stood at settlement.
    pub bids: Vec<(Holder, Amount)>,
}

/// The auction at position `i` has id `i`.
pub open spec fn auctions_in_order(s: Seq<AuctionRecord>) -> bool {
    &&& s.len() <= u64::MAX
    &&& forall|i: int| 0 <= i < s.len() ==> (#[trigger] s[i]).id == i
}

impl AuctionRecord {
    /// Whether this record says what `other` says.
    pub open spec fn same_as(&self, other: &AuctionRecord) -> bool {
        &&& self.id == other.id
        &&& self.timestamp == other.timestamp
        &&& self.fee_pool_distributed == other.fee_pool_distributed
        &&& self.fee_ratio_after == other.fee_ratio_after
        &&& self.bids@ == other.bids@
    }

    /// Whether this record holds exactly these values.
    pub open spec fn holds(
        &self,
        id: nat,
        timestamp: Timestamp,
        distributed: nat,
        ratio: nat,
        bids: Seq<(Holder, Amount)>,
    ) -> bool {
        &&& self.id == id
        &&& self.timestamp == timestamp
        &&& self.fee_pool_distributed == distributed
        &&& self.fee_ratio_after == ratio
        &&& self.bids@ == bids
    }
}

/// A snapshot of the bidding state.
#[derive(Debug)]
pub struct BiddingInfo {
    pub fee_ratio: u64,
    pub auction_period: Timestamp,
    pub last_auction: Timestamp,
    pub total_cycles: u64,
    pub bids: Vec<(Holder, Amount)>,
}

impl TokenCanister {
    /// Records a bid of `cycles` by `bidder` for the next auction.
    pub fn bid_cycles(&mut self, bidder: Holder, cycles: u64) -> (r: Result<u64, AuctionError>)
        requires
            old(self).wf(),
        ensures
            match old(self).bidding.bid_refusal(cycles) {
                Some(e) => r == Err::<u64, AuctionError>(e) && *final(self) == *old(self),
                None => {
                    &&& r == Ok::<u64, AuctionError>(cycles)
                    &&& final(self).wf()
                    &&& final(self).bidding.bids@ == credited(old(self).bidding.bids@, bidder, cycles as nat)
                    &&& final(self).bidding.bids.entries@ == credit_entries(
                        old(self).bidding.bids.entries@,
                        bidder,
                        cycles as nat,
                    )
                    &&& final(self).bidding.cycles_since_auction == old(self).bidding.cycles_since_auction
                        + cycles
                    &&& final(self).bidding.fee_ratio == old(self).bidding.fee_ratio
                    &&& final(self).bidding.auction_period == old(self).bidding.auction_period
                    &&& final(self).bidding.last_auction == old(self).bidding.last_auction
                    &&& final(self).balances == old(self).balances
                    &&& final(self).allowances == old(self).allowances
                    &&& final(self).ledger == old(self).ledger
                    &&& final(self).stats == old(self).stats
                    &&& final(self).minted == old(self).minted
                    &&& final(self).burned == old(self).burned
                    &&& final(self).auctions == old(self).auctions
                    &&& final(self).in_flight == old(self).in_flight
                },
            },
    {
        self.bidding.bid(bidder, cycles)
    }

    /// The bidding state as it stands.
    pub fn bidding_info(&self) -> (r: BiddingInfo)
        ensures
            r.fee_ratio == self.bidding.fee_ratio,
            r.auction_period == self.bidding.auction_period,
            r.last_auction == self.bidding.last_auction,
            r.total_cycles == self.bidding.cycles_since_auction,
            r.bids@ == self.bidding.bids.entries@,
    {
        BiddingInfo {
            fee_ratio: self.bidding.fee_ratio,
            auction_period: self.bidding.auction_period,
            last_auction: self.bidding.last_auction,
            total_cycles: self.bidding.cycles_since_auction,
            bids: copy_entries(&self.bidding.bids.entries),
        }
    }

    /// The record of auction `id`; `NotFound` exactly when there is none.
    pub fn auction_info(&self, id: u64) -> (r: Result<AuctionRecord, AuctionError>)
        ensures
            id >= self.auctions@.len() ==> r == Err::<AuctionRecord, AuctionError>(AuctionError::NotFound),
            id < self.auctions@.len() ==> r.is_ok() && r.unwrap().same_as(&self.auctions@[id as int]),
    {
        if id >= self.auctions.len() as u64 {
            return Err(AuctionError::NotFound);
        }
        let a = &self.auctions[id as usize];
        Ok(
            AuctionRecord {
                id: a.id,
                timestamp: a.timestamp,
                fee_pool_distributed: a.fee_pool_distributed,
                fee_ratio_after: a.fee_ratio_after,
                bids: copy_entries(&a.bids),
            },
        )
    }

    /// Why an auction at `now` is refused, if it is.
    pub open spec fn auction_refusal(&self, now: Timestamp) -> Option<AuctionError> {
        if too_early(self.bidding.last_auction, self.bidding.auction_period, now) {
            Some(AuctionError::TooEarly)
        } else {
            None
        }
    }

    /// An auction goes through exactly when the period is over.
    pub proof fn lemma_auction_after_period(&self, now: Timestamp)
        ensures
            self.auction_refusal(now).is_none() <==> now >= self.bidding.last_auction && now
                - self.bidding.last_auction >= self.bidding.auction_period,
    {
    }

    /// After an auction at `first`, one at `second` in the same period is
    /// refused as too early.
    pub proof fn lemma_one_auction_per_period(&self, first: Timestamp, second: Timestamp)
        requires
            self.bidding.last_auction == first,
            first <= second,
            second - first < self.bidding.auction_period,
        ensures
            self.auction_refusal(second) == Some(AuctionError::TooEarly),
    {
    }

    /// Settles the auction of the period that ends at `now`: pays the auction
    /// pool out to the bidders in proportion to their bids, sets the fee ratio
    /// for the next period from `cycles`, the resource that is at hand,
    /// clears the bids and records the auction. Test and update are one step:
    /// a second auction in the same period is refused. A refused auction
    /// changes nothing.
    pub fn run_auction(&mut self, now: Timestamp, cycles: u64) -> (r: Result<AuctionRecord, AuctionError>)
        requires
            old(self).wf(),
        ensures
            match old(self).auction_refusal(now) {
                Some(e) => r == Err::<AuctionRecord, AuctionError>(e) && *final(self) == *old(self),
                None => {
                    let bids = old(self).bidding.bids.entries@;
                    let pool = old(self).balances@[Holder::spec_auction_pool()];
                    let ratio = spec_fee_ratio(cycles as nat, old(self).stats.min_cycles as nat);
                    &&& r.is_ok()
                    &&& r.unwrap().holds(
                        old(self).auctions@.len(),
                        now,
                        spec_distributed(bids, pool),
                        ratio,
                        bids,
                    )
                    &&& final(self).wf()
                    &&& final(self).balances@ == spec_settle(old(self).balances@, bids, pool)
                    &&& final(self).balances.entries@ == spec_settle_entries(
                        old(self).balances.entries@,
                        bids,
                        pool,
                    )
                    &&& final(self).ledger@ == spec_settle_log(old(self).ledger@, bids, pool, now)
                    &&& final(self).bidding.bids.entries@.len() == 0
                    &&& final(self).bidding.cycles_since_auction == 0
                    &&& final(self).bidding.last_auction == now
                    &&& final(self).bidding.fee_ratio == ratio
                    &&& final(self).bidding.auction_period == old(self).bidding.auction_period
                    &&& final(self).auctions@.len() == old(self).auctions@.len() + 1
                    &&& final(self).auctions@.drop_last() == old(self).auctions@
                    &&& final(self).auctions@.last().same_as(&r.unwrap())
                    &&& final(self).allowances == old(self).allowances
                    &&& final(self).stats == old(self).stats
                    &&& final(self).minted == old(self).minted
                    &&& final(self).burned == old(self).burned
                    &&& final(self).in_flight == old(self).in_flight
                },
            },
    {
        if self.bidding.is_too_early(now) {
            return Err(AuctionError::TooEarly);
        }
        let n: usize = self.bidding.bids.entries.len();
        let pool_account = Holder::auction_pool();
        let pool: Amount = self.balances.balance_of(pool_account);
        let ghost bids = self.bidding.bids.entries@;
        let ghost balances_before = self.balances@;
        let ghost entries_before = self.balances.entries@;
        let ghost log_before = self.ledger@;
        let ghost total_before = self.balances.total();
        let mut remaining: Amount = pool;
        let mut open_bids: u64 = self.bidding.cycles_since_auction;
        let mut i: usize = n;
        proof {
            assert(bids.take(n as int) =~= bids);
        }
        while i > 0
            invariant
                i <= n,
                n == bids.len(),
                self.bidding == old(self).bidding,
                self.allowances == old(self).allowances,
                self.stats == old(self).stats,
                self.minted == old(self).minted,
                self.burned == old(self).burned,
                self.auctions == old(self).auctions,
                self.in_flight == old(self).in_flight,
                bids == self.bidding.bids.entries@,
                self.balances.wf(),
                self.ledger.wf(),
                self.balances.total() == total_before,
                total_before <= u128::MAX,
                self.balances@[Holder::spec_auction_pool()] >= remaining,
                pool_account == Holder::spec_auction_pool(),
                remaining <= pool,
                open_bids == total(bids.take(i as int)),
                self.ledger@.len() >= log_before.len(),
                spec_settle(self.balances@, bids.take(i as int), remaining as nat) == spec_settle(
                    balances_before,
                    bids,
                    pool as nat,
                ),
                spec_settle_entries(self.balances.entries@, bids.take(i as int), remaining as nat)
                    == spec_settle_entries(entries_before, bids, pool as nat),
                spec_settle_log(self.ledger@, bids.take(i as int), remaining as nat, now)
                    == spec_settle_log(log_before, bids, pool as nat, now),
                (pool - remaining) + spec_distributed(bids.take(i as int), remaining as nat)
                    == spec_distributed(bids, pool as nat),
            decreases i,
        {
            let entry = self.bidding.bids.entries[i - 1];
            proof {
                assert(bids.take(i as int).drop_last() =~= bids.take(i - 1));
                assert(bids.take(i as int).last() == entry);
                if open_bids > 0 {
                    lemma_mul_div_bounded(remaining as nat, entry.1 as nat, open_bids as nat);
                }
            }
            let bid: u64 = entry.1 as u64;
            let share: Amount = if open_bids == 0 {
                0
            } else {
                mul_div(remaining, bid, open_bids)
            };
            self.balances.move_amount(pool_account, entry.0, share);
            let id: u64 = self.ledger.append(
                TxKind::AuctionSettlement,
                pool_account,
                pool_account,
                entry.0,
                share,
                0,
                now,
            );
            remaining = remaining - share;
            open_bids = open_bids - bid;
            i = i - 1;
        }
        let ratio: u64 = fee_ratio_for(cycles, self.stats.min_cycles);
        let distributed: Amount = pool - remaining;
        let id: u64 = self.auctions.len() as u64;
        let stored = AuctionRecord {
            id,
            timestamp: now,
            fee_pool_distributed: distributed,
            fee_ratio_after: ratio,
            bids: copy_entries(&self.bidding.bids.entries),
        };
        let handed = AuctionRecord {
            id,
            timestamp: now,
            fee_pool_distributed: distributed,
            fee_ratio_after: ratio,
            bids: copy_entries(&self.bidding.bids.entries),
        };
        let ghost auctions_before = self.auctions@;
        self.auctions.push(stored);
        // The length of a vector fits the id type.
        let held: usize = self.auctions.len();
        proof {
            assert(self.auctions@.drop_last() =~= auctions_before);
        }
        self.bidding.bids = Balances::new();
        self.bidding.cycles_since_auction = 0;
        self.bidding.last_auction = now;
        self.bidding.fee_ratio = ratio;
        Ok(handed)
    }
}

} // verus!
