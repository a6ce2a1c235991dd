//! Rounding of byte sizes to a device alignment.

use vstd::prelude::*;

verus! {

/// `v` rounded up to a multiple of `a`: `((v + a - 1) / a) * a`.
///
/// Meaningful for `a > 0` only.
pub open spec fn spec_round_up(v: nat, a: nat) -> nat {
    (((v + a - 1) / (a as int)) * a) as nat
}

/// Whether `m` is a multiple of `a`.
pub open spec fn is_multiple_of(m: nat, a: nat) -> bool {
    m % a == 0
}

/// For a positive alignment, `spec_round_up(v, a)` is the least multiple of
/// `a` that is not below `v`: it is a multiple of `a`, it is at least `v`,
/// and every multiple of `a` that is at least `v` is at least as large.
pub proof fn lemma_round_up_is_least_multiple(v: nat, a: nat)
    requires
        a > 0,
    ensures
        spec_round_up(v, a) >= v,
        spec_round_up(v, a) < v + a,
        is_multiple_of(spec_round_up(v, a), a),
        forall|m: nat| m >= v && is_multiple_of(m, a) ==> spec_round_up(v, a) <= m,
{
    let q = (v + a - 1) / (a as int);
    let r = spec_round_up(v, a);
    assert(q >= 0 && q * a <= v + a - 1 && v <= q * a && (q * a) % (a as int) == 0)
        by (nonlinear_arith)
        requires
            a > 0,
            q == (v + a - 1) / (a as int),
    ;
    assert forall|m: nat| m >= v && is_multiple_of(m, a) implies r <= m by {
        let k = m / a;
        assert(m == k * a) by (nonlinear_arith)
            requires
                a > 0,
                k == m / a,
                m % a == 0,
        ;
        assert(q * a <= k * a) by (nonlinear_arith)
            requires
                a > 0,
                k * a >= v,
                q * a < v + a,
        ;
    }
}

/// Rounds `v` up to the next multiple of `a`.
pub fn round_up(v: u64, a: u64) -> (r: u64)
    requires
        a > 0,
        v + a - 1 <= u64::MAX,
    ensures
        r == spec_round_up(v as nat, a as nat),
        v <= r < v + a,
        is_multiple_of(r as nat, a as nat),
{
    proof {
        lemma_round_up_is_least_multiple(v as nat, a as nat);
    }
    let q: u64 = (v + (a - 1)) / a;
    q * a
}

} // verus!
