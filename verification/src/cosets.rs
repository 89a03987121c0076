//! Why comparing powers is enough: if the `n`-th powers of two elements
//! differ, their cosets by the subgroup of order `n` share no element.

use vstd::prelude::*;
use vstd::arithmetic::div_mod::{lemma_mod_bound, lemma_mul_mod_noop_general, lemma_small_mod};
use crate::domain::{lemma_pow2_increases, EvaluationDomain};
use crate::field::{modulus, pow_mod};
use crate::shifts::{is_sampled_pair, CamlPlonkVerificationShifts};

verus! {

/// The element `k * g^i` of the coset of the subgroup generated by `g`
/// that `k` lies in.
pub open spec fn coset_member(k: nat, g: nat, i: int) -> nat {
    (k * pow_mod(g, i)) % modulus()
}

/// The cosets of `a` and of `b` share no element.
pub open spec fn cosets_disjoint(a: nat, b: nat, g: nat) -> bool {
    forall|i: int, j: int| #![trigger coset_member(a, g, i), coset_member(b, g, j)] coset_member(a, g, i) != coset_member(b, g, j)
}

/// Powers are reduced.
pub proof fn lemma_pow_mod_bound(x: nat, n: int)
    ensures
        pow_mod(x, n) < modulus(),
{
    if n > 0 {
        lemma_mod_bound((x * pow_mod(x, n - 1)) as int, modulus() as int);
    }
}

/// Every power of one is one.
pub proof fn lemma_pow_mod_one(n: int)
    ensures
        pow_mod(1, n) == 1,
    decreases n,
{
    if n > 0 {
        lemma_pow_mod_one(n - 1);
        lemma_small_mod(1, modulus());
    }
}

/// A power depends on its base only up to the modulus.
pub proof fn lemma_pow_mod_reduce(x: nat, n: int)
    ensures
        pow_mod(x % modulus(), n) == pow_mod(x, n),
    decreases n,
{
    if n > 0 {
        lemma_pow_mod_reduce(x, n - 1);
        lemma_mul_mod_noop_general(x as int, pow_mod(x, n - 1) as int, modulus() as int);
    }
}

/// The power of a product is the product of the powers.
pub proof fn lemma_pow_mod_product(x: nat, y: nat, n: int)
    ensures
        pow_mod(x * y, n) == (pow_mod(x, n) * pow_mod(y, n)) % modulus(),
    decreases n,
{
    let q = modulus() as int;
    if n <= 0 {
        lemma_small_mod(1, modulus());
    } else {
        lemma_pow_mod_product(x, y, n - 1);
        let px = pow_mod(x, n - 1) as int;
        let py = pow_mod(y, n - 1) as int;
        let xi = x as int;
        let yi = y as int;
        let pxy = pow_mod(x * y, n - 1) as int;
        assert(pxy == (px * py) % q);
        assert(pow_mod(x * y, n) == ((xi * yi) * pxy) % q);
        assert(pow_mod(x, n) == (xi * px) % q);
        assert(pow_mod(y, n) == (yi * py) % q);
        lemma_mul_mod_noop_general(xi * yi, px * py, q);
        assert(((xi * yi) * pxy) % q == ((xi * yi) * (px * py)) % q);
        lemma_mul_mod_noop_general(xi * px, yi * py, q);
        assert((((xi * px) % q) * ((yi * py) % q)) % q == ((xi * px) * (yi * py)) % q);
        assert((xi * yi) * (px * py) == (xi * px) * (yi * py)) by (nonlinear_arith);
    }
}

/// Powers of powers commute.
pub proof fn lemma_pow_mod_swap(g: nat, i: int, n: int)
    ensures
        pow_mod(pow_mod(g, i), n) == pow_mod(pow_mod(g, n), i),
    decreases i,
{
    if i <= 0 {
        lemma_pow_mod_one(n);
    } else {
        let below = pow_mod(g, i - 1);
        lemma_pow_mod_reduce(g * below, n);
        lemma_pow_mod_product(g, below, n);
        lemma_pow_mod_swap(g, i - 1, n);
    }
}

/// Every member of the coset of `k` has the `n`-th power of `k`, where the
/// subgroup has order `n`.
pub proof fn lemma_member_power(k: nat, g: nat, i: int, n: int)
    requires
        n >= 1,
        pow_mod(g, n) == 1,
    ensures
        pow_mod(coset_member(k, g, i), n) == pow_mod(k, n),
{
    let gi = pow_mod(g, i);
    lemma_pow_mod_reduce(k * gi, n);
    lemma_pow_mod_product(k, gi, n);
    lemma_pow_mod_swap(g, i, n);
    lemma_pow_mod_one(i);
    lemma_pow_mod_bound(k, n);
    lemma_small_mod(pow_mod(k, n), modulus());
}

/// Elements whose `n`-th powers differ lie in disjoint cosets of the
/// subgroup of order `n`.
pub proof fn lemma_powers_separate_cosets(a: nat, b: nat, g: nat, n: int)
    requires
        n >= 1,
        pow_mod(g, n) == 1,
        pow_mod(a, n) != pow_mod(b, n),
    ensures
        cosets_disjoint(a, b, g),
{
    assert forall|i: int, j: int| #![trigger coset_member(a, g, i), coset_member(b, g, j)] coset_member(a, g, i) != coset_member(b, g, j) by {
        lemma_member_power(a, g, i, n);
        lemma_member_power(b, g, j, n);
    }
}

/// The subgroup of the domain, its coset by `r` and its coset by `o` are
/// pairwise disjoint.
pub open spec fn shifts_separate(domain: EvaluationDomain, s: CamlPlonkVerificationShifts) -> bool {
    &&& cosets_disjoint(1, s.r.value(), domain.generator.value())
    &&& cosets_disjoint(1, s.o.value(), domain.generator.value())
    &&& cosets_disjoint(s.r.value(), s.o.value(), domain.generator.value())
}

/// The sampled shifts keep the cosets of a well-formed domain apart.
pub proof fn lemma_sampled_shifts_disjoint(domain: EvaluationDomain, s: CamlPlonkVerificationShifts)
    requires
        domain.wf(),
        is_sampled_pair(s, domain.size),
    ensures
        shifts_separate(domain, s),
{
    let g = domain.generator.value();
    let n = domain.size as int;
    lemma_pow2_increases(0, domain.log_size as nat);
    lemma_pow_mod_one(n);
    lemma_powers_separate_cosets(1, s.r.value(), g, n);
    lemma_powers_separate_cosets(1, s.o.value(), g, n);
    lemma_powers_separate_cosets(s.r.value(), s.o.value(), g, n);
}

} // verus!
