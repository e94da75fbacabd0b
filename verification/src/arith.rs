use vstd::prelude::*;
use vstd::arithmetic::div_mod::{lemma_fundamental_div_mod, lemma_hoist_over_denominator, lemma_div_is_ordered, lemma_div_multiples_vanish};
use vstd::arithmetic::mul::lemma_mul_inequality;

verus! {

/// The share `a * b / d`, rounded down.
pub open spec fn spec_mul_div(a: nat, b: nat, d: nat) -> nat {
    (a * b) / d
}

/// A share is never more than the whole it is taken from.
pub proof fn lemma_mul_div_bounded(a: nat, b: nat, d: nat)
    requires
        0 < d,
        b <= d,
    ensures
        spec_mul_div(a, b, d) <= a,
{
    lemma_mul_inequality(b as int, d as int, a as int);
    assert(a * b == b * a) by (nonlinear_arith);
    assert(d * a == a * d) by (nonlinear_arith);
    lemma_div_is_ordered((a * b) as int, (d * a) as int, d as int);
    lemma_div_multiples_vanish(a as int, d as int);
}

/// Computes `a * b / d` without forming the product `a * b`, which may not fit.
pub fn mul_div(a: u128, b: u64, d: u64) -> (r: u128)
    requires
        0 < d,
        b <= d,
    ensures
        r == spec_mul_div(a as nat, b as nat, d as nat),
        r <= a,
{
    let dd: u128 = d as u128;
    let bb: u128 = b as u128;
    let q: u128 = a / dd;
    let rem: u128 = a % dd;
    proof {
        lemma_fundamental_div_mod(a as int, dd as int);
        lemma_mul_inequality(bb as int, dd as int, q as int);
        assert(q * bb == bb * q) by (nonlinear_arith);
        assert(dd * q == q * dd) by (nonlinear_arith);
        assert(rem * bb <= 0xffff_ffff_ffff_ffff * 0xffff_ffff_ffff_ffff) by (nonlinear_arith)
            requires
                rem <= 0xffff_ffff_ffff_ffff,
                bb <= 0xffff_ffff_ffff_ffff,
        ;
        lemma_hoist_over_denominator((rem * bb) as int, (q * bb) as int, dd as nat);
        assert(rem * bb + (q * bb) * dd == a * bb) by (nonlinear_arith)
            requires
                a == dd * q + rem,
        ;
        lemma_mul_div_bounded(a as nat, b as nat, d as nat);
    }
    let x: u128 = q * bb;
    let y: u128 = rem * bb / dd;
    x + y
}

} // verus!
