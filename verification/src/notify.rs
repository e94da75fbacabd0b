use vstd::prelude::*;
use crate::types::{Amount, Holder, Timestamp, TransactionRecord, TxError, TxKind};
use crate::balances::{moved, fee_paid, move_entries, fee_entries};
use crate::ledger::spec_marked;
use crate::token::TokenCanister;

verus! {

/// How long a notification may stay under way before its marker lapses and
/// the transaction can be notified again: five minutes.
pub const NOTIFY_TIMEOUT: Timestamp = 300_000_000;

/// Whether a marker set at `started` still holds at `now`.
pub open spec fn marker_live(started: Timestamp, now: Timestamp) -> bool {
    now < started || now - started < NOTIFY_TIMEOUT
}

/// Whether a notification of `id` is under way at `now`.
pub open spec fn in_flight_at(markers: Seq<(u64, Timestamp)>, id: u64, now: Timestamp) -> bool {
    exists|i: int| 0 <= i < markers.len() && (#[trigger] markers[i]).0 == id && marker_live(markers[i].1, now)
}

/// Every marker is for a transaction that exists.
pub open spec fn markers_in_range(markers: Seq<(u64, Timestamp)>, len: nat) -> bool {
    forall|i: int| 0 <= i < markers.len() ==> (#[trigger] markers[i]).0 < len
}

/// The markers but those of `id`.
pub open spec fn without_id(markers: Seq<(u64, Timestamp)>, id: u64) -> Seq<(u64, Timestamp)>
    decreases markers.len(),
{
    if markers.len() == 0 {
        Seq::empty()
    } else if markers.last().0 == id {
        without_id(markers.drop_last(), id)
    } else {
        without_id(markers.drop_last(), id).push(markers.last())
    }
}

/// Why a notification of `id` may not start at `now`, if it may not: the
/// transaction is unknown, was notified, or is being notified right now.
pub open spec fn notify_refusal(
    log: Seq<TransactionRecord>,
    markers: Seq<(u64, Timestamp)>,
    id: u64,
    now: Timestamp,
) -> Option<TxError> {
    if id >= log.len() {
        Some(TxError::NotFound)
    } else if log[id as int].notified {
        Some(TxError::AlreadyNotified)
    } else if in_flight_at(markers, id, now) {
        Some(TxError::AlreadyNotified)
    } else {
        None
    }
}

/// Once a notification of `id` was delivered, none can start again, whatever
/// the markers and the time.
pub proof fn lemma_notified_at_most_once(
    log: Seq<TransactionRecord>,
    markers: Seq<(u64, Timestamp)>,
    id: u64,
    now: Timestamp,
)
    requires
        id < log.len(),
    ensures
        notify_refusal(spec_marked(log, id as int), markers, id, now) == Some(TxError::AlreadyNotified),
{
}

/// While a notification of `id` that started at `started` is under way, a
/// second one cannot start.
pub proof fn lemma_in_flight_blocks(
    log: Seq<TransactionRecord>,
    markers: Seq<(u64, Timestamp)>,
    id: u64,
    started: Timestamp,
    now: Timestamp,
)
    requires
        marker_live(started, now),
    ensures
        notify_refusal(log, without_id(markers, id).push((id, started)), id, now).is_some(),
{
    let after = without_id(markers, id).push((id, started));
    assert(after[after.len() - 1] == (id, started));
}

/// Removes the markers of `id`.
pub fn drop_markers(markers: &Vec<(u64, Timestamp)>, id: u64) -> (r: Vec<(u64, Timestamp)>)
    ensures
        r@ == without_id(markers@, id),
{
    let mut out: Vec<(u64, Timestamp)> = Vec::new();
    let mut i: usize = 0;
    while i < markers.len()
        invariant
            i <= markers@.len(),
            out@ == without_id(markers@.take(i as int), id),
        decreases markers@.len() - i,
    {
        let m = markers[i];
        proof {
            assert(markers@.take(i + 1).drop_last() =~= markers@.take(i as int));
        }
        if m.0 != id {
            out.push(m);
        }
        i = i + 1;
    }
    proof {
        assert(markers@.take(i as int) =~= markers@);
    }
    out
}

/// Whether a notification of `id` is under way at `now`.
pub fn is_in_flight(markers: &Vec<(u64, Timestamp)>, id: u64, now: Timestamp) -> (r: bool)
    ensures
        r == in_flight_at(markers@, id, now),
{
    let mut i: usize = 0;
    while i < markers.len()
        invariant
            i <= markers@.len(),
            forall|j: int| 0 <= j < i ==> !((#[trigger] markers@[j]).0 == id && marker_live(markers@[j].1, now)),
        decreases markers@.len() - i,
    {
        let m = markers[i];
        if m.0 == id && (now < m.1 || now - m.1 < NOTIFY_TIMEOUT) {
            return true;
        }
        i = i + 1;
    }
    false
}

proof fn lemma_without_id_in_range(markers: Seq<(u64, Timestamp)>, id: u64, len: nat)
    requires
        markers_in_range(markers, len),
    ensures
        markers_in_range(without_id(markers, id), len),
    decreases markers.len(),
{
    if markers.len() > 0 {
        lemma_without_id_in_range(markers.drop_last(), id, len);
    }
}

impl TokenCanister {
    /// Starts the notification of transaction `id`: tests that it may be
    /// sent and sets the marker that keeps a second one from starting while
    /// the first is under way. Returns the record to send. The `notified`
    /// flag is not touched before the delivery is confirmed. A refusal
    /// changes nothing.
    pub fn begin_notify(&mut self, id: u64, now: Timestamp) -> (r: Result<TransactionRecord, TxError>)
        requires
            old(self).wf(),
        ensures
            match notify_refusal(old(self).ledger@, old(self).in_flight@, id, now) {
                Some(e) => r == Err::<TransactionRecord, TxError>(e) && *final(self) == *old(self),
                None => {
                    &&& r == Ok::<TransactionRecord, TxError>(old(self).ledger@[id as int])
                    &&& final(self).wf()
                    &&& final(self).in_flight@ == without_id(old(self).in_flight@, id).push((id, now))
                    &&& final(self).balances == old(self).balances
                    &&& final(self).allowances == old(self).allowances
                    &&& final(self).ledger == old(self).ledger
                    &&& final(self).stats == old(self).stats
                    &&& final(self).minted == old(self).minted
                    &&& final(self).burned == old(self).burned
                    &&& final(self).bidding == old(self).bidding
                    &&& final(self).auctions == old(self).auctions
                },
            },
    {
        let record = match self.ledger.get(id) {
            Some(t) => t,
            None => {
                return Err(TxError::NotFound);
            },
        };
        if record.notified {
            return Err(TxError::AlreadyNotified);
        }
        if is_in_flight(&self.in_flight, id, now) {
            return Err(TxError::AlreadyNotified);
        }
        proof {
            lemma_without_id_in_range(self.in_flight@, id, self.ledger@.len());
        }
        let mut markers = drop_markers(&self.in_flight, id);
        markers.push((id, now));
        self.in_flight = markers;
        Ok(record)
    }

    /// Ends the notification of transaction `id` and clears its marker.
    /// Delivered: the transaction is flagged as notified, for good. Not
    /// delivered: the caller gets `NotificationFailed` and the transaction
    /// stays open for another try. Balances and the rest of the log are never
    /// touched: a failed notification reverts nothing.
    pub fn finish_notify(&mut self, id: u64, delivered: bool) -> (r: Result<u64, TxError>)
        requires
            old(self).wf(),
        ensures
            final(self).wf(),
            final(self).in_flight@ == without_id(old(self).in_flight@, id),
            final(self).balances == old(self).balances,
            final(self).allowances == old(self).allowances,
            final(self).stats == old(self).stats,
            final(self).minted == old(self).minted,
            final(self).burned == old(self).burned,
            final(self).bidding == old(self).bidding,
            final(self).auctions == old(self).auctions,
            !delivered ==> r == Err::<u64, TxError>(TxError::NotificationFailed) && final(self).ledger
                == old(self).ledger,
            delivered && id >= old(self).ledger@.len() ==> r == Err::<u64, TxError>(TxError::NotFound)
                && final(self).ledger == old(self).ledger,
            delivered && id < old(self).ledger@.len() ==> r == Ok::<u64, TxError>(id)
                && final(self).ledger@ == spec_marked(old(self).ledger@, id as int),
    {
        proof {
            lemma_without_id_in_range(self.in_flight@, id, self.ledger@.len());
        }
        self.in_flight = drop_markers(&self.in_flight, id);
        if !delivered {
            return Err(TxError::NotificationFailed);
        }
        match self.ledger.mark_notified(id) {
            Ok(()) => Ok(id),
            Err(e) => Err(e),
        }
    }

    /// A transfer as `transfer` makes it, followed by the start of its
    /// notification. A refused transfer changes nothing; after a transfer
    /// that was made the notification always starts, and the record to send
    /// is returned. Whether it is delivered or not, the transfer stands.
    pub fn transfer_and_notify(
        &mut self,
        caller: Holder,
        to: Holder,
        value: Amount,
        fee_limit: Option<Amount>,
        now: Timestamp,
    ) -> (r: Result<TransactionRecord, TxError>)
        requires
            old(self).wf(),
        ensures
            match old(self).transfer_refusal(caller, value, fee_limit) {
                Some(e) => r == Err::<TransactionRecord, TxError>(e) && *final(self) == *old(self),
                None => {
                    let record = TransactionRecord {
                        id: old(self).ledger@.len() as u64,
                        kind: TxKind::Transfer,
                        caller,
                        from: caller,
                        to,
                        amount: value,
                        fee: old(self).stats.fee,
                        timestamp: now,
                        notified: false,
                    };
                    &&& r == Ok::<TransactionRecord, TxError>(record)
                    &&& final(self).wf()
                    &&& final(self).balances@ == moved(
                        fee_paid(
                            old(self).balances@,
                            caller,
                            old(self).stats.fee as nat,
                            old(self).stats.fee_to,
                            old(self).bidding.fee_ratio as nat,
                        ),
                        caller,
                        to,
                        value as nat,
                    )
                    &&& final(self).balances.entries@ == move_entries(
                        fee_entries(
                            old(self).balances.entries@,
                            caller,
                            old(self).stats.fee as nat,
                            old(self).stats.fee_to,
                            old(self).bidding.fee_ratio as nat,
                        ),
                        caller,
                        to,
                        value as nat,
                    )
                    &&& final(self).ledger@ == old(self).ledger@.push(record)
                    &&& final(self).in_flight@ == without_id(old(self).in_flight@, record.id).push(
                        (record.id, now),
                    )
                    &&& final(self).allowances == old(self).allowances
                    &&& final(self).stats == old(self).stats
                    &&& final(self).minted == old(self).minted
                    &&& final(self).burned == old(self).burned
                    &&& final(self).bidding == old(self).bidding
                    &&& final(self).auctions == old(self).auctions
                },
            },
    {
        let id: u64 = match self.transfer(caller, to, value, fee_limit, now) {
            Ok(id) => id,
            Err(e) => {
                return Err(e);
            },
        };
        proof {
            assert forall|i: int| 0 <= i < self.in_flight@.len() implies !((#[trigger] self.in_flight@[i]).0
                == id) by {}
        }
        self.begin_notify(id, now)
    }
}

} // verus!
