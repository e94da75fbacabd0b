use vstd::prelude::*;

verus! {

/// Sum of the amounts of a list of entries.
pub open spec fn total<K>(s: Seq<(K, u128)>) -> nat
    decreases s.len(),
{
    if s.len() == 0 {
        0
    } else {
        total(s.drop_last()) + s.last().1 as nat
    }
}

/// Amount stored under `k`, zero where no entry has that key.
pub open spec fn lookup<K>(s: Seq<(K, u128)>, k: K) -> nat
    decreases s.len(),
{
    if s.len() == 0 {
        0
    } else if s.last().0 == k {
        s.last().1 as nat
    } else {
        lookup(s.drop_last(), k)
    }
}

/// No key occurs in two entries.
pub open spec fn distinct_keys<K>(s: Seq<(K, u128)>) -> bool {
    forall|i: int, j: int| 0 <= i < j < s.len() ==> s[i].0 != s[j].0
}

/// No entry has key `k`.
pub open spec fn absent<K>(s: Seq<(K, u128)>, k: K) -> bool {
    forall|i: int| 0 <= i < s.len() ==> s[i].0 != k
}

/// Position of the entry with key `k`, or -1 where there is none.
pub open spec fn position<K>(s: Seq<(K, u128)>, k: K) -> int
    decreases s.len(),
{
    if s.len() == 0 {
        -1
    } else if s.last().0 == k {
        s.len() - 1
    } else {
        position(s.drop_last(), k)
    }
}

/// The entries with `v` stored under `k`: in place where `k` has an entry,
/// else in a new entry at the end.
pub open spec fn with_amount<K>(s: Seq<(K, u128)>, k: K, v: u128) -> Seq<(K, u128)> {
    if position(s, k) < 0 {
        s.push((k, v))
    } else {
        s.update(position(s, k), (k, v))
    }
}

pub proof fn lemma_position_absent<K>(s: Seq<(K, u128)>, k: K)
    requires
        absent(s, k),
    ensures
        position(s, k) == -1,
    decreases s.len(),
{
    if s.len() > 0 {
        lemma_position_absent(s.drop_last(), k);
    }
}

pub proof fn lemma_position_at<K>(s: Seq<(K, u128)>, i: int)
    requires
        distinct_keys(s),
        0 <= i < s.len(),
    ensures
        position(s, s[i].0) == i,
    decreases s.len(),
{
    if i < s.len() - 1 {
        lemma_position_at(s.drop_last(), i);
    }
}

/// The entries read as a map that is zero wherever nothing is stored.
pub open spec fn as_map<K>(s: Seq<(K, u128)>) -> Map<K, nat> {
    Map::new(|k: K| true, |k: K| lookup(s, k))
}

pub proof fn lemma_lookup_absent<K>(s: Seq<(K, u128)>, k: K)
    requires
        absent(s, k),
    ensures
        lookup(s, k) == 0,
    decreases s.len(),
{
    if s.len() > 0 {
        lemma_lookup_absent(s.drop_last(), k);
    }
}

pub proof fn lemma_lookup_at<K>(s: Seq<(K, u128)>, i: int)
    requires
        distinct_keys(s),
        0 <= i < s.len(),
    ensures
        lookup(s, s[i].0) == s[i].1,
    decreases s.len(),
{
    if i < s.len() - 1 {
        lemma_lookup_at(s.drop_last(), i);
    }
}

/// No single amount is more than the total.
pub proof fn lemma_lookup_le_total<K>(s: Seq<(K, u128)>, k: K)
    ensures
        lookup(s, k) <= total(s),
    decreases s.len(),
{
    if s.len() > 0 {
        lemma_lookup_le_total(s.drop_last(), k);
    }
}

proof fn lemma_update_lookup<K>(s: Seq<(K, u128)>, i: int, v: u128, k: K)
    requires
        distinct_keys(s),
        0 <= i < s.len(),
    ensures
        lookup(s.update(i, (s[i].0, v)), k) == if k == s[i].0 {
            v as nat
        } else {
            lookup(s, k)
        },
    decreases s.len(),
{
    let t = s.update(i, (s[i].0, v));
    if i < s.len() - 1 {
        assert(t.drop_last() =~= s.drop_last().update(i, (s[i].0, v)));
        lemma_update_lookup(s.drop_last(), i, v, k);
    } else {
        assert(t.drop_last() =~= s.drop_last());
    }
}

proof fn lemma_update_total<K>(s: Seq<(K, u128)>, i: int, v: u128)
    requires
        0 <= i < s.len(),
    ensures
        total(s.update(i, (s[i].0, v))) == total(s) - s[i].1 + v,
    decreases s.len(),
{
    let t = s.update(i, (s[i].0, v));
    if i < s.len() - 1 {
        assert(t.drop_last() =~= s.drop_last().update(i, (s[i].0, v)));
        lemma_update_total(s.drop_last(), i, v);
    } else {
        assert(t.drop_last() =~= s.drop_last());
    }
}

/// Replacing the amount of entry `i` changes the map at that key alone, and
/// the total by the difference.
pub proof fn lemma_update<K>(s: Seq<(K, u128)>, i: int, v: u128)
    requires
        distinct_keys(s),
        0 <= i < s.len(),
    ensures
        distinct_keys(s.update(i, (s[i].0, v))),
        total(s.update(i, (s[i].0, v))) == total(s) - s[i].1 + v,
        as_map(s.update(i, (s[i].0, v))) == as_map(s).insert(s[i].0, v as nat),
{
    let t = s.update(i, (s[i].0, v));
    lemma_update_total(s, i, v);
    assert forall|k: K| lookup(t, k) == as_map(s).insert(s[i].0, v as nat)[k] by {
        lemma_update_lookup(s, i, v, k);
    }
    assert(as_map(t) =~= as_map(s).insert(s[i].0, v as nat));
}

/// Adding an entry under a new key changes the map at that key alone, and the
/// total by the new amount.
pub proof fn lemma_push<K>(s: Seq<(K, u128)>, k: K, v: u128)
    requires
        distinct_keys(s),
        absent(s, k),
    ensures
        distinct_keys(s.push((k, v))),
        total(s.push((k, v))) == total(s) + v,
        as_map(s.push((k, v))) == as_map(s).insert(k, v as nat),
{
    let t = s.push((k, v));
    assert(t.drop_last() =~= s);
    assert(as_map(t) =~= as_map(s).insert(k, v as nat));
}

} // verus!
