//! The two coset shifts of the permutation argument.
//!
//! Candidates are the integers 2, 3, 4, ... lifted into the field. The first
//! shift is the first candidate outside the domain's subgroup; the second is
//! the first later candidate whose coset meets neither the subgroup nor the
//! coset of the first. An element lies in the subgroup of order `n` exactly
//! when its `n`-th power is one, and two elements whose `n`-th powers differ
//! lie in different cosets, so every test is a comparison of `n`-th powers.

use vstd::prelude::*;
use crate::cosets::{lemma_sampled_shifts_disjoint, shifts_separate};
use crate::domain::EvaluationDomain;
use crate::error::IndexError;
use crate::field::{field_pow, lemma_value_injective, pow_mod, FieldElem};

verus! {

/// Candidates run from 2 up to, and not including, this bound.
pub const SHIFT_CANDIDATES: u64 = 1024;

/// The shifts `r` and `o`.
#[derive(Clone, Copy, Debug, PartialEq, Eq, Structural)]
pub struct CamlPlonkVerificationShifts {
    pub r: FieldElem,
    pub o: FieldElem,
}

/// The `n`-th power of the candidate `k`.
pub open spec fn nth_power(k: u64, n: u64) -> nat {
    pow_mod(k as nat, n as int)
}

/// The candidate `k` lies outside the subgroup of order `n`.
pub open spec fn outside_subgroup(k: u64, n: u64) -> bool {
    nth_power(k, n) != 1
}

/// The subgroup of order `n` and its cosets by `r` and by `o` are pairwise
/// disjoint.
pub open spec fn disjoint_cosets(r: u64, o: u64, n: u64) -> bool {
    &&& nth_power(r, n) != 1
    &&& nth_power(o, n) != 1
    &&& nth_power(r, n) != nth_power(o, n)
}

/// `r` is the first candidate outside the subgroup.
pub open spec fn is_first_shift(r: u64, n: u64) -> bool {
    &&& 2 <= r < SHIFT_CANDIDATES
    &&& outside_subgroup(r, n)
    &&& forall|j: u64| 2 <= j < r ==> !#[trigger] outside_subgroup(j, n)
}

/// `o` is the first candidate after `r` that completes a disjoint triple.
pub open spec fn is_second_shift(r: u64, o: u64, n: u64) -> bool {
    &&& r < o < SHIFT_CANDIDATES
    &&& disjoint_cosets(r, o, n)
    &&& forall|j: u64| r < j < o ==> !#[trigger] disjoint_cosets(r, j, n)
}

/// `(r, o)` is the pair that sampling yields for a domain of order `n`.
pub open spec fn is_sampled(r: u64, o: u64, n: u64) -> bool {
    is_first_shift(r, n) && is_second_shift(r, o, n)
}

/// `s` holds the pair that sampling yields for a domain of order `n`.
pub open spec fn is_sampled_pair(s: CamlPlonkVerificationShifts, n: u64) -> bool {
    &&& s.r == FieldElem::spec_from_u64(s.r.l0)
    &&& s.o == FieldElem::spec_from_u64(s.o.l0)
    &&& is_sampled(s.r.l0, s.o.l0, n)
}

/// No pair of candidates is the sampled pair for a domain of order `n`.
pub open spec fn is_exhausted(n: u64) -> bool {
    forall|r: u64, o: u64| !#[trigger] is_sampled(r, o, n)
}

/// Sampling is deterministic: a domain order has at most one sampled pair.
pub proof fn lemma_sampled_unique(r1: u64, o1: u64, r2: u64, o2: u64, n: u64)
    requires
        is_sampled(r1, o1, n),
        is_sampled(r2, o2, n),
    ensures
        r1 == r2,
        o1 == o2,
{
    if r1 < r2 {
        assert(!outside_subgroup(r1, n));
    }
    if r2 < r1 {
        assert(!outside_subgroup(r2, n));
    }
    if o1 < o2 {
        assert(!disjoint_cosets(r2, o1, n));
    }
    if o2 < o1 {
        assert(!disjoint_cosets(r1, o2, n));
    }
}

/// Samples the shifts for `domain`. Succeeds with the sampled pair whenever
/// one exists among the candidates, and reports exhaustion otherwise.
pub fn sample_shifts(domain: &EvaluationDomain) -> (res: Result<
    CamlPlonkVerificationShifts,
    IndexError,
>)
    ensures
        match res {
            Ok(s) => is_sampled_pair(s, domain.size) && (domain.wf() ==> shifts_separate(*domain, s)),
            Err(e) => e == IndexError::ShiftSamplingExhausted && is_exhausted(domain.size),
        },
{
    let n: u64 = domain.size;
    let one = FieldElem::one();
    let n_elem = FieldElem::from_u64(n);
    let mut r: u64 = 2;
    let mut r_pow = field_pow(&FieldElem::from_u64(r), &n_elem);
    while r < SHIFT_CANDIDATES - 1 && r_pow == one
        invariant
            2 <= r < SHIFT_CANDIDATES,
            n == domain.size,
            n_elem.value() == n,
            one == FieldElem::spec_from_u64(1),
            r_pow.is_canonical(),
            r_pow.value() == nth_power(r, n),
            forall|j: u64| 2 <= j < r ==> !#[trigger] outside_subgroup(j, n),
        decreases SHIFT_CANDIDATES - r,
    {
        r = r + 1;
        r_pow = field_pow(&FieldElem::from_u64(r), &n_elem);
    }
    if r_pow == one {
        proof {
            assert forall|a: u64, b: u64| !is_sampled(a, b, n) by {
                if is_sampled(a, b, n) {
                    assert(!outside_subgroup(a, n));
                }
            }
        }
        return Err(IndexError::ShiftSamplingExhausted);
    }
    proof {
        lemma_value_injective(r_pow, one);
    }
    let mut o: u64 = r + 1;
    while o < SHIFT_CANDIDATES
        invariant
            2 <= r < o <= SHIFT_CANDIDATES,
            n == domain.size,
            n_elem.value() == n,
            one == FieldElem::spec_from_u64(1),
            r_pow.is_canonical(),
            r_pow.value() == nth_power(r, n),
            is_first_shift(r, n),
            forall|j: u64| r < j < o ==> !#[trigger] disjoint_cosets(r, j, n),
        decreases SHIFT_CANDIDATES - o,
    {
        let o_pow = field_pow(&FieldElem::from_u64(o), &n_elem);
        proof {
            lemma_value_injective(o_pow, one);
            lemma_value_injective(o_pow, r_pow);
        }
        if o_pow != one && o_pow != r_pow {
            let s = CamlPlonkVerificationShifts { r: FieldElem::from_u64(r), o: FieldElem::from_u64(o) };
            proof {
                if domain.wf() {
                    lemma_sampled_shifts_disjoint(*domain, s);
                }
            }
            return Ok(s);
        }
        o = o + 1;
    }
    proof {
        assert forall|a: u64, b: u64| !is_sampled(a, b, n) by {
            if is_sampled(a, b, n) {
                lemma_sampled_first_unique(a, r, n);
                assert(!disjoint_cosets(r, b, n));
            }
        }
    }
    Err(IndexError::ShiftSamplingExhausted)
}

/// At most one candidate is the first shift.
pub proof fn lemma_sampled_first_unique(r1: u64, r2: u64, n: u64)
    requires
        is_first_shift(r1, n),
        is_first_shift(r2, n),
    ensures
        r1 == r2,
{
    if r1 < r2 {
        assert(!outside_subgroup(r1, n));
    }
    if r2 < r1 {
        assert(!outside_subgroup(r2, n));
    }
}

} // verus!
