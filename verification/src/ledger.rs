use vstd::prelude::*;
use crate::types::{Amount, Holder, Timestamp, TransactionRecord, TxError, TxKind};

verus! {

/// First index of the window `[start, start + limit)` clipped to `len` records.
pub open spec fn range_lo(len: nat, start: nat) -> nat {
    if start < len {
        start
    } else {
        len
    }
}

/// End of the window `[start, start + limit)` clipped to `len` records.
pub open spec fn range_hi(len: nat, start: nat, limit: nat) -> nat {
    if start + limit < len {
        start + limit
    } else {
        len
    }
}

/// The records with an id in `[start, start + limit)`, in order.
pub open spec fn spec_range(s: Seq<TransactionRecord>, start: nat, limit: nat) -> Seq<
    TransactionRecord,
> {
    s.subrange(range_lo(s.len(), start) as int, range_hi(s.len(), start, limit) as int)
}

/// The records that `who` takes part in, in order.
pub open spec fn spec_by_participant(s: Seq<TransactionRecord>, who: Holder) -> Seq<
    TransactionRecord,
> {
    s.filter(|t: TransactionRecord| t.spec_involves(who))
}

/// Ids count up from zero without a gap: the record at position `i` has id `i`.
pub open spec fn ids_in_order(s: Seq<TransactionRecord>) -> bool {
    forall|i: int| 0 <= i < s.len() ==> (#[trigger] s[i]).id == i
}

/// The records of `records` that `who` takes part in, in order.
pub fn records_of(records: &Vec<TransactionRecord>, who: Holder) -> (r: Vec<TransactionRecord>)
    ensures
        r@ == spec_by_participant(records@, who),
{
    let ghost pred = |t: TransactionRecord| t.spec_involves(who);
    let mut out: Vec<TransactionRecord> = Vec::new();
    let mut i: usize = 0;
    while i < records.len()
        invariant
            i <= records@.len(),
            pred == (|t: TransactionRecord| t.spec_involves(who)),
            out@ == records@.take(i as int).filter(pred),
        decreases records@.len() - i,
    {
        let t = records[i];
        proof {
            records@.take(i as int).lemma_filter_push(t, pred);
            assert(records@.take(i + 1) =~= records@.take(i as int).push(t));
        }
        if t.involves(who) {
            out.push(t);
        }
        i = i + 1;
    }
    proof {
        assert(records@.take(i as int) =~= records@);
    }
    out
}

/// The append-only transaction log.
pub struct Ledger {
    pub records: Vec<TransactionRecord>,
}

impl View for Ledger {
    type V = Seq<TransactionRecord>;

    open spec fn view(&self) -> Seq<TransactionRecord> {
        self.records@
    }
}

impl Ledger {
    pub open spec fn wf(&self) -> bool {
        ids_in_order(self@) && self@.len() <= u64::MAX
    }

    pub fn new() -> (r: Self)
        ensures
            r.wf(),
            r@.len() == 0,
    {
        Ledger { records: Vec::new() }
    }

    pub fn len(&self) -> (r: u64)
        requires
            self.wf(),
        ensures
            r == self@.len(),
    {
        self.records.len() as u64
    }

    /// Appends a record under the next id and returns that id.
    pub fn append(
        &mut self,
        kind: TxKind,
        caller: Holder,
        from: Holder,
        to: Holder,
        amount: Amount,
        fee: Amount,
        timestamp: Timestamp,
    ) -> (id: u64)
        requires
            old(self).wf(),
        ensures
            final(self).wf(),
            id == old(self)@.len(),
            final(self)@ == old(self)@.push(
                (TransactionRecord { id, kind, caller, from, to, amount, fee, timestamp, notified: false }),
            ),
    {
        let id: u64 = self.records.len() as u64;
        self.records.push(
            TransactionRecord { id, kind, caller, from, to, amount, fee, timestamp, notified: false },
        );
        // The length of a vector fits the id type.
        let held: usize = self.records.len();
        id
    }

    pub fn get(&self, id: u64) -> (r: Option<TransactionRecord>)
        requires
            self.wf(),
        ensures
            id < self@.len() ==> r == Some(self@[id as int]),
            id >= self@.len() ==> r.is_none(),
    {
        if id < self.records.len() as u64 {
            Some(self.records[id as usize])
        } else {
            None
        }
    }

    /// The records with an id in `[start, start + limit)`. A window that lies
    /// beyond the last record gives an empty result.
    pub fn get_range(&self, start: u64, limit: u64) -> (r: Vec<TransactionRecord>)
        requires
            self.wf(),
        ensures
            r@ == spec_range(self@, start as nat, limit as nat),
    {
        let n: u64 = self.records.len() as u64;
        let lo: u64 = if start < n { start } else { n };
        let hi: u64 = if limit < n - lo { lo + limit } else { n };
        let mut out: Vec<TransactionRecord> = Vec::new();
        let mut i: u64 = lo;
        while i < hi
            invariant
                lo <= i <= hi <= n,
                n == self@.len(),
                self@.len() <= usize::MAX,
                out@ == self@.subrange(lo as int, i as int),
            decreases hi - i,
        {
            out.push(self.records[i as usize]);
            proof {
                assert(self@.subrange(lo as int, i + 1) =~= self@.subrange(lo as int, i as int).push(
                    self@[i as int],
                ));
            }
            i = i + 1;
        }
        out
    }

    /// The records that `who` takes part in as caller, source or destination.
    pub fn iter_by_participant(&self, who: Holder) -> (r: Vec<TransactionRecord>)
        ensures
            r@ == spec_by_participant(self@, who),
    {
        records_of(&self.records, who)
    }

    /// Sets the `notified` flag of record `id`. Fails with `NotFound`,
    /// changing nothing, exactly when there is no such record.
    pub fn mark_notified(&mut self, id: u64) -> (r: Result<(), TxError>)
        requires
            old(self).wf(),
        ensures
            id >= old(self)@.len() ==> r == Err::<(), TxError>(TxError::NotFound) && *final(self)
                == *old(self),
            id < old(self)@.len() ==> r.is_ok() && final(self).wf() && final(self)@ == spec_marked(
                old(self)@,
                id as int,
            ),
    {
        if id >= self.records.len() as u64 {
            return Err(TxError::NotFound);
        }
        let mut t = self.records[id as usize];
        t.notified = true;
        self.records.set(id as usize, t);
        Ok(())
    }
}

/// The log `s` with record `id` flagged as notified and nothing else changed.
pub open spec fn spec_marked(s: Seq<TransactionRecord>, id: int) -> Seq<TransactionRecord> {
    s.update(id, (TransactionRecord { notified: true, ..s[id] }))
}

/// The ids of a window are exactly the existing ids in `[start, start + limit)`:
/// every record of the result has such an id, the ids count up by one, and
/// every record of the log with such an id is in the result.
pub proof fn lemma_range_exact(s: Seq<TransactionRecord>, start: nat, limit: nat)
    requires
        ids_in_order(s),
    ensures
        forall|j: int|
            0 <= j < spec_range(s, start, limit).len() ==> {
                &&& (#[trigger] spec_range(s, start, limit)[j]).id == start + j
                &&& start + j < start + limit
                &&& start + j < s.len()
            },
        forall|id: int|
            start <= id < start + limit && id < s.len() ==> {
                &&& id - start < spec_range(s, start, limit).len()
                &&& spec_range(s, start, limit)[id - start] == #[trigger] s[id]
            },
        start >= s.len() ==> spec_range(s, start, limit).len() == 0,
{
}

/// Appending keeps every earlier record, with its id, and gives the new
/// record the next id: ids are never reused and have no gaps.
pub proof fn lemma_append_keeps_ids(s: Seq<TransactionRecord>, t: TransactionRecord)
    requires
        ids_in_order(s),
        t.id == s.len(),
    ensures
        ids_in_order(s.push(t)),
        forall|i: int| 0 <= i < s.len() ==> s.push(t)[i] == s[i],
        forall|i: int, j: int| 0 <= i < j < s.push(t).len() ==> s.push(t)[i].id < s.push(t)[j].id,
{
}

} // verus!
