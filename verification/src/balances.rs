use vstd::prelude::*;
use crate::types::{Amount, Holder, TxError};
use crate::table::{total, lookup, position, with_amount, lemma_position_absent, lemma_position_at, distinct_keys, absent, as_map, lemma_lookup_absent, lemma_lookup_at, lemma_lookup_le_total, lemma_update, lemma_push};
use crate::arith::{mul_div, spec_mul_div, lemma_mul_div_bounded};

verus! {

/// The balances `m` after `a` was added to that of `h`.
pub open spec fn credited(m: Map<Holder, nat>, h: Holder, a: nat) -> Map<Holder, nat> {
    m.insert(h, m[h] + a)
}

/// The balances `m` after `a` was taken from that of `h`.
pub open spec fn debited(m: Map<Holder, nat>, h: Holder, a: nat) -> Map<Holder, nat> {
    m.insert(h, (m[h] - a) as nat)
}

/// The entries after `a` was added to the amount of `h`: in place where `h`
/// has an entry, else in a new entry behind all others.
pub open spec fn credit_entries(s: Seq<(Holder, Amount)>, h: Holder, a: nat) -> Seq<(Holder, Amount)> {
    with_amount(s, h, (lookup(s, h) + a) as u128)
}

/// The entries after `a` was taken from the amount of `h`, in place.
pub open spec fn debit_entries(s: Seq<(Holder, Amount)>, h: Holder, a: nat) -> Seq<(Holder, Amount)> {
    if position(s, h) < 0 {
        s
    } else {
        with_amount(s, h, (lookup(s, h) - a) as u128)
    }
}

/// The entries after `value` went from `from` to `to`.
pub open spec fn move_entries(s: Seq<(Holder, Amount)>, from: Holder, to: Holder, value: nat) -> Seq<
    (Holder, Amount),
> {
    credit_entries(debit_entries(s, from, value), to, value)
}

/// The entries after `payer` paid `fee`, split at `ratio`.
pub open spec fn fee_entries(
    s: Seq<(Holder, Amount)>,
    payer: Holder,
    fee: nat,
    fee_to: Holder,
    ratio: nat,
) -> Seq<(Holder, Amount)> {
    credit_entries(
        credit_entries(debit_entries(s, payer, fee), fee_to, (fee - pool_part(fee, ratio)) as nat),
        Holder::spec_auction_pool(),
        pool_part(fee, ratio),
    )
}

/// Parts per million: the unit in which the fee ratio is held.
pub const PPM: u64 = 1_000_000;

/// The balances `m` after `value` went from `from` to `to`.
pub open spec fn moved(m: Map<Holder, nat>, from: Holder, to: Holder, value: nat) -> Map<
    Holder,
    nat,
> {
    credited(debited(m, from, value), to, value)
}

/// The part of `fee` that is set aside for the auction at ratio `ratio`
/// (in parts per million), rounded down.
pub open spec fn pool_part(fee: nat, ratio: nat) -> nat {
    spec_mul_div(fee, ratio, PPM as nat)
}

/// The auction's part is never more than the fee, so the two parts make up
/// the fee; it is nothing at ratio zero and the whole fee at the full ratio.
pub proof fn lemma_fee_split(fee: nat, ratio: nat)
    requires
        ratio <= PPM,
    ensures
        pool_part(fee, ratio) <= fee,
        pool_part(fee, ratio) + (fee - pool_part(fee, ratio)) == fee,
        ratio == 0 ==> pool_part(fee, ratio) == 0,
        ratio == PPM ==> pool_part(fee, ratio) == fee,
{
    lemma_mul_div_bounded(fee, ratio, PPM as nat);
    if ratio == 0 {
        assert(fee * 0 == 0) by (nonlinear_arith);
    }
    if ratio == PPM {
        assert(fee * (PPM as nat) == (PPM as int) * (fee as int)) by (nonlinear_arith);
        vstd::arithmetic::div_mod::lemma_div_multiples_vanish(fee as int, PPM as int);
    }
}

/// The balances `m` after `payer` paid `fee`: the auction's part goes to the
/// auction pool, the rest to `fee_to`.
pub open spec fn fee_paid(m: Map<Holder, nat>, payer: Holder, fee: nat, fee_to: Holder, ratio: nat) -> Map<
    Holder,
    nat,
> {
    credited(
        credited(debited(m, payer, fee), fee_to, (fee - pool_part(fee, ratio)) as nat),
        Holder::spec_auction_pool(),
        pool_part(fee, ratio),
    )
}

/// Per-holder balances. A holder without an entry has balance zero.
pub struct Balances {
    pub entries: Vec<(Holder, Amount)>,
}

impl View for Balances {
    type V = Map<Holder, nat>;

    open spec fn view(&self) -> Map<Holder, nat> {
        as_map(self.entries@)
    }
}

impl Balances {
    /// Each holder has at most one entry.
    pub open spec fn wf(&self) -> bool {
        distinct_keys(self.entries@)
    }

    /// Sum of all balances.
    pub open spec fn total(&self) -> nat {
        total(self.entries@)
    }

    pub fn new() -> (r: Self)
        ensures
            r.wf(),
            r.total() == 0,
            r.entries@.len() == 0,
            forall|h: Holder| r@[h] == 0,
    {
        Balances { entries: Vec::new() }
    }

    /// Index of the entry of `h`, if it has one.
    pub fn find(&self, h: Holder) -> (r: Option<usize>)
        requires
            self.wf(),
        ensures
            match r {
                Some(i) => i < self.entries@.len() && self.entries@[i as int].0 == h && position(
                    self.entries@,
                    h,
                ) == i,
                None => absent(self.entries@, h) && position(self.entries@, h) == -1,
            },
    {
        let mut i: usize = 0;
        while i < self.entries.len()
            invariant
                i <= self.entries@.len(),
                self.wf(),
                forall|j: int| 0 <= j < i ==> self.entries@[j].0 != h,
            decreases self.entries@.len() - i,
        {
            if self.entries[i].0 == h {
                proof {
                    lemma_position_at(self.entries@, i as int);
                }
                return Some(i);
            }
            i = i + 1;
        }
        proof {
            lemma_position_absent(self.entries@, h);
        }
        None
    }

    pub fn balance_of(&self, h: Holder) -> (r: Amount)
        requires
            self.wf(),
        ensures
            r == self@[h],
    {
        match self.find(h) {
            Some(i) => {
                proof {
                    lemma_lookup_at(self.entries@, i as int);
                }
                self.entries[i].1
            },
            None => {
                proof {
                    lemma_lookup_absent(self.entries@, h);
                }
                0
            },
        }
    }

    /// Adds `amount` to the balance of `h`: in place where `h` has an entry,
    /// else in a new entry behind all others. Fails with `Overflow`, changing
    /// nothing, exactly when the new balance would not fit.
    pub fn credit(&mut self, h: Holder, amount: Amount) -> (r: Result<(), TxError>)
        requires
            old(self).wf(),
        ensures
            old(self)@[h] + amount > u128::MAX ==> r == Err::<(), TxError>(TxError::Overflow)
                && *final(self) == *old(self),
            old(self)@[h] + amount <= u128::MAX ==> r.is_ok() && final(self).wf()
                && final(self)@ == credited(old(self)@, h, amount as nat)
                && final(self).entries@ == credit_entries(old(self).entries@, h, amount as nat)
                && final(self).total() == old(self).total() + amount,
    {
        match self.find(h) {
            Some(i) => {
                proof {
                    lemma_lookup_at(self.entries@, i as int);
                }
                let cur: Amount = self.entries[i].1;
                match cur.checked_add(amount) {
                    Some(next) => {
                        proof {
                            lemma_update(self.entries@, i as int, next);
                        }
                        self.entries.set(i, (h, next));
                        Ok(())
                    },
                    None => Err(TxError::Overflow),
                }
            },
            None => {
                proof {
                    lemma_lookup_absent(self.entries@, h);
                    lemma_push(self.entries@, h, amount);
                }
                self.entries.push((h, amount));
                Ok(())
            },
        }
    }

    /// Takes `amount` from the balance of `h`. Fails with
    /// `InsufficientBalance`, changing nothing, exactly when the balance is
    /// smaller than `amount`; a balance therefore never goes below zero.
    pub fn debit(&mut self, h: Holder, amount: Amount) -> (r: Result<(), TxError>)
        requires
            old(self).wf(),
        ensures
            old(self)@[h] < amount ==> r == Err::<(), TxError>(TxError::InsufficientBalance)
                && *final(self) == *old(self),
            old(self)@[h] >= amount ==> r.is_ok() && final(self).wf()
                && final(self)@ == debited(old(self)@, h, amount as nat)
                && final(self).entries@ == debit_entries(old(self).entries@, h, amount as nat)
                && final(self).total() == old(self).total() - amount,
    {
        match self.find(h) {
            Some(i) => {
                proof {
                    lemma_lookup_at(self.entries@, i as int);
                }
                let cur: Amount = self.entries[i].1;
                if cur < amount {
                    return Err(TxError::InsufficientBalance);
                }
                let next: Amount = cur - amount;
                proof {
                    lemma_update(self.entries@, i as int, next);
                }
                self.entries.set(i, (h, next));
                Ok(())
            },
            None => {
                proof {
                    lemma_lookup_absent(self.entries@, h);
                }
                if amount > 0 {
                    return Err(TxError::InsufficientBalance);
                }
                proof {
                    assert(self@ =~= self@.insert(h, 0nat));
                }
                Ok(())
            },
        }
    }

    /// Moves `value` from `from` to `to`; the total stays what it was.
    pub fn move_amount(&mut self, from: Holder, to: Holder, value: Amount)
        requires
            old(self).wf(),
            old(self)@[from] >= value,
            old(self).total() <= u128::MAX,
        ensures
            final(self).wf(),
            final(self)@ == moved(old(self)@, from, to, value as nat),
            final(self).entries@ == move_entries(old(self).entries@, from, to, value as nat),
            final(self).total() == old(self).total(),
    {
        let taken = self.debit(from, value);
        proof {
            lemma_lookup_le_total(self.entries@, to);
        }
        let given = self.credit(to, value);
        assert(taken.is_ok() && given.is_ok());
    }

    /// Takes `fee` from `payer` and splits it at `ratio` parts per million
    /// between the auction pool and `fee_to`; the total stays what it was.
    pub fn pay_fee(&mut self, payer: Holder, fee: Amount, fee_to: Holder, ratio: u64)
        requires
            old(self).wf(),
            old(self)@[payer] >= fee,
            old(self).total() <= u128::MAX,
            ratio <= PPM,
        ensures
            final(self).wf(),
            final(self)@ == fee_paid(old(self)@, payer, fee as nat, fee_to, ratio as nat),
            final(self).entries@ == fee_entries(old(self).entries@, payer, fee as nat, fee_to, ratio as nat),
            final(self).total() == old(self).total(),
    {
        let part: Amount = mul_div(fee, ratio, PPM);
        let rest: Amount = fee - part;
        let taken = self.debit(payer, fee);
        proof {
            lemma_lookup_le_total(self.entries@, fee_to);
        }
        let given = self.credit(fee_to, rest);
        proof {
            lemma_lookup_le_total(self.entries@, Holder::spec_auction_pool());
        }
        let pooled = self.credit(Holder::auction_pool(), part);
        assert(taken.is_ok() && given.is_ok() && pooled.is_ok());
    }
}

} // verus!
