use vstd::prelude::*;
use crate::types::{Amount, Holder, TxError};
use crate::table::{position, with_amount, lemma_position_absent, lemma_position_at, distinct_keys, absent, as_map, lemma_lookup_absent, lemma_lookup_at, lemma_update, lemma_push};

verus! {

/// What each spender may still move out of each owner's balance.
/// A pair without an entry has allowance zero.
pub struct Allowances {
    pub entries: Vec<((Holder, Holder), Amount)>,
}

impl View for Allowances {
    type V = Map<(Holder, Holder), nat>;

    open spec fn view(&self) -> Map<(Holder, Holder), nat> {
        as_map(self.entries@)
    }
}

impl Allowances {
    /// Each pair of owner and spender has at most one entry.
    pub open spec fn wf(&self) -> bool {
        distinct_keys(self.entries@)
    }

    pub fn new() -> (r: Self)
        ensures
            r.wf(),
            r.entries@.len() == 0,
            forall|k: (Holder, Holder)| r@[k] == 0,
    {
        Allowances { entries: Vec::new() }
    }

    /// Index of the entry of the pair, if it has one.
    pub fn find(&self, owner: Holder, spender: Holder) -> (r: Option<usize>)
        requires
            self.wf(),
        ensures
            match r {
                Some(i) => i < self.entries@.len() && self.entries@[i as int].0 == (owner, spender)
                    && position(self.entries@, (owner, spender)) == i,
                None => absent(self.entries@, (owner, spender)) && position(
                    self.entries@,
                    (owner, spender),
                ) == -1,
            },
    {
        let mut i: usize = 0;
        while i < self.entries.len()
            invariant
                i <= self.entries@.len(),
                self.wf(),
                forall|j: int| 0 <= j < i ==> self.entries@[j].0 != (owner, spender),
            decreases self.entries@.len() - i,
        {
            let key = self.entries[i].0;
            if key.0 == owner && key.1 == spender {
                proof {
                    lemma_position_at(self.entries@, i as int);
                }
                return Some(i);
            }
            i = i + 1;
        }
        proof {
            lemma_position_absent(self.entries@, (owner, spender));
        }
        None
    }

    /// Number of pairs that were ever given an allowance.
    pub fn size(&self) -> (r: usize)
        ensures
            r == self.entries@.len(),
    {
        self.entries.len()
    }

    pub fn allowance(&self, owner: Holder, spender: Holder) -> (r: Amount)
        requires
            self.wf(),
        ensures
            r == self@[(owner, spender)],
    {
        match self.find(owner, spender) {
            Some(i) => {
                proof {
                    lemma_lookup_at(self.entries@, i as int);
                }
                self.entries[i].1
            },
            None => {
                proof {
                    lemma_lookup_absent(self.entries@, (owner, spender));
                }
                0
            },
        }
    }

    /// Replaces the allowance of the pair by `amount`.
    pub fn set_allowance(&mut self, owner: Holder, spender: Holder, amount: Amount)
        requires
            old(self).wf(),
        ensures
            final(self).wf(),
            final(self)@ == old(self)@.insert((owner, spender), amount as nat),
            final(self).entries@ == with_amount(old(self).entries@, (owner, spender), amount),
    {
        match self.find(owner, spender) {
            Some(i) => {
                proof {
                    lemma_update(self.entries@, i as int, amount);
                }
                self.entries.set(i, ((owner, spender), amount));
            },
            None => {
                proof {
                    lemma_push(self.entries@, (owner, spender), amount);
                }
                self.entries.push(((owner, spender), amount));
            },
        }
    }

    /// Spends `amount` of the allowance of the pair. Fails with
    /// `InsufficientAllowance`, changing nothing, exactly when less than
    /// `amount` remains; an allowance therefore never goes below zero.
    pub fn consume_allowance(&mut self, owner: Holder, spender: Holder, amount: Amount) -> (r:
        Result<(), TxError>)
        requires
            old(self).wf(),
        ensures
            old(self)@[(owner, spender)] < amount ==> r == Err::<(), TxError>(
                TxError::InsufficientAllowance,
            ) && *final(self) == *old(self),
            old(self)@[(owner, spender)] >= amount ==> r.is_ok() && final(self).wf()
                && final(self)@ == old(self)@.insert(
                (owner, spender),
                (old(self)@[(owner, spender)] - amount) as nat,
            ) && final(self).entries@ == with_amount(
                old(self).entries@,
                (owner, spender),
                (old(self)@[(owner, spender)] - amount) as u128,
            ),
    {
        let cur: Amount = self.allowance(owner, spender);
        if cur < amount {
            return Err(TxError::InsufficientAllowance);
        }
        let next: Amount = cur - amount;
        self.set_allowance(owner, spender, next);
        Ok(())
    }

    /// The spenders that `who` gave an allowance to, each with what remains,
    /// in the order in which they were first approved.
    pub fn user_approvals(&self, who: Holder) -> (r: Vec<(Holder, Amount)>)
        ensures
            r@ == spec_approvals(self.entries@, who),
    {
        let mut out: Vec<(Holder, Amount)> = Vec::new();
        let mut i: usize = 0;
        while i < self.entries.len()
            invariant
                i <= self.entries@.len(),
                out@ == spec_approvals(self.entries@.take(i as int), who),
            decreases self.entries@.len() - i,
        {
            let e = self.entries[i];
            proof {
                assert(self.entries@.take(i + 1).drop_last() =~= self.entries@.take(i as int));
            }
            if (e.0).0 == who {
                out.push(((e.0).1, e.1));
            }
            i = i + 1;
        }
        proof {
            assert(self.entries@.take(i as int) =~= self.entries@);
        }
        out
    }
}

/// The entries whose owner is `who`, each as spender and amount, in order.
pub open spec fn spec_approvals(s: Seq<((Holder, Holder), Amount)>, who: Holder) -> Seq<
    (Holder, Amount),
>
    decreases s.len(),
{
    if s.len() == 0 {
        Seq::empty()
    } else if s.last().0.0 == who {
        spec_approvals(s.drop_last(), who).push((s.last().0.1, s.last().1))
    } else {
        spec_approvals(s.drop_last(), who)
    }
}

} // verus!
