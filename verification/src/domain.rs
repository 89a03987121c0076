//! Radix-2 evaluation domains: a power-of-two size and the generator of the
//! multiplicative subgroup of that order.

use vstd::prelude::*;
use ark_ff::PrimeField;
use ark_pallas::Fr;
use ark_poly::{EvaluationDomain as ArkDomain, Radix2EvaluationDomain};
use crate::error::IndexError;
use crate::field::{pow_mod, FieldElem};

verus! {

/// The largest `k` for which the field has a subgroup of order `2^k`.
pub const TWO_ADICITY: u32 = 32;

/// Two to the power `k`.
pub open spec fn pow2(k: nat) -> nat
    decreases k,
{
    if k == 0 {
        1
    } else {
        2 * pow2((k - 1) as nat)
    }
}

/// The generator that ark-poly picks for the subgroup of order `size`.
pub uninterp spec fn subgroup_generator(size: u64) -> FieldElem;

/// `g` has multiplicative order exactly `size`, for `size` a power of two.
pub open spec fn has_order(g: FieldElem, size: u64) -> bool {
    &&& pow_mod(g.value(), size as int) == 1
    &&& size > 1 ==> pow_mod(g.value(), size as int / 2) != 1
}

/// A multiplicative subgroup of power-of-two order.
#[derive(Clone, Copy, Debug, PartialEq, Eq, Structural)]
pub struct EvaluationDomain {
    pub size: u64,
    pub log_size: u32,
    pub generator: FieldElem,
}

impl FieldElem {
    /// `self` is the canonical generator of the subgroup of order `size`.
    pub open spec fn wf_generator(self, size: u64) -> bool {
        &&& self.is_canonical()
        &&& self == subgroup_generator(size)
        &&& has_order(self, size)
    }
}

impl EvaluationDomain {
    /// The size is `2^log_size`, within the field's two-adicity, and the
    /// generator is the canonical one of exactly that order.
    pub open spec fn wf(self) -> bool {
        &&& self.log_size <= TWO_ADICITY
        &&& self.size == pow2(self.log_size as nat)
        &&& self.generator.wf_generator(self.size)
    }
}

/// `size` is a power of two that the field supports.
pub open spec fn valid_domain_size(size: u64) -> bool {
    exists|k: nat| k <= TWO_ADICITY && size == #[trigger] pow2(k)
}

/// Calls `Radix2EvaluationDomain::new` of ark-poly on the Pallas scalar field
/// and hands out the generator it chose. The contract claims that for a
/// supported power of two the call succeeds, and that the generator is a
/// canonical field element of multiplicative order exactly `size`.
#[verifier::external_body]
fn radix2_generator(size: u64) -> (r: Option<FieldElem>)
    requires
        valid_domain_size(size),
    ensures
        r is Some,
        r.unwrap().is_canonical(),
        r.unwrap() == subgroup_generator(size),
        has_order(r.unwrap(), size),
{
    let d = Radix2EvaluationDomain::<Fr>::new(size as usize)?;
    let g = d.group_gen.into_bigint().0;
    Some(FieldElem { l0: g[0], l1: g[1], l2: g[2], l3: g[3] })
}

/// `pow2` is positive and grows strictly.
pub proof fn lemma_pow2_increases(a: nat, b: nat)
    requires
        a <= b,
    ensures
        1 <= pow2(a) <= pow2(b),
        a < b ==> pow2(a) < pow2(b),
    decreases b,
{
    if a < b {
        lemma_pow2_increases(a, (b - 1) as nat);
    } else if a > 0 {
        lemma_pow2_increases((a - 1) as nat, (a - 1) as nat);
    }
}

/// The two largest powers of two that the search for a size reaches.
pub proof fn lemma_pow2_values()
    ensures
        pow2(32) == 0x1_0000_0000,
        pow2(33) == 0x2_0000_0000,
{
    assert(pow2(0) == 1);
    assert(pow2(1) == 2);
    assert(pow2(2) == 4);
    assert(pow2(3) == 8);
    assert(pow2(4) == 16);
    assert(pow2(5) == 32);
    assert(pow2(6) == 64);
    assert(pow2(7) == 128);
    assert(pow2(8) == 256);
    assert(pow2(9) == 512);
    assert(pow2(10) == 1024);
    assert(pow2(11) == 2048);
    assert(pow2(12) == 4096);
    assert(pow2(13) == 8192);
    assert(pow2(14) == 16384);
    assert(pow2(15) == 32768);
    assert(pow2(16) == 65536);
    assert(pow2(17) == 131072);
    assert(pow2(18) == 262144);
    assert(pow2(19) == 524288);
    assert(pow2(20) == 1048576);
    assert(pow2(21) == 2097152);
    assert(pow2(22) == 4194304);
    assert(pow2(23) == 8388608);
    assert(pow2(24) == 16777216);
    assert(pow2(25) == 33554432);
    assert(pow2(26) == 67108864);
    assert(pow2(27) == 134217728);
    assert(pow2(28) == 268435456);
    assert(pow2(29) == 536870912);
    assert(pow2(30) == 1073741824);
    assert(pow2(31) == 2147483648);
    assert(pow2(32) == 4294967296);
    assert(pow2(33) == 8589934592);
}

/// The domain whose size is `2^log_size`.
pub fn domain_of_log_size(log_size: u32) -> (res: Result<EvaluationDomain, IndexError>)
    ensures
        match res {
            Ok(d) => d.wf() && d.log_size == log_size,
            Err(e) => e == IndexError::InvalidDomainSize && log_size > TWO_ADICITY,
        },
{
    if log_size > TWO_ADICITY {
        return Err(IndexError::InvalidDomainSize);
    }
    let mut size: u64 = 1;
    let mut k: u32 = 0;
    while k < log_size
        invariant
            k <= log_size <= TWO_ADICITY,
            size == pow2(k as nat),
            size <= 0x1_0000_0000,
        decreases log_size - k,
    {
        proof {
            lemma_pow2_increases((k + 1) as nat, 32);
            lemma_pow2_values();
        }
        size = size * 2;
        k = k + 1;
    }
    match radix2_generator(size) {
        Some(generator) => Ok(EvaluationDomain { size, log_size, generator }),
        None => Err(IndexError::InvalidDomainSize),
    }
}

/// The domain of the given size. Fails exactly when `size` is not a power
/// of two or exceeds the largest subgroup order of the field.
pub fn make_domain(size: u64) -> (res: Result<EvaluationDomain, IndexError>)
    ensures
        match res {
            Ok(d) => d.wf() && d.size == size,
            Err(e) => e == IndexError::InvalidDomainSize && !valid_domain_size(size),
        },
{
    let mut p: u64 = 1;
    let mut k: u32 = 0;
    while k <= TWO_ADICITY
        invariant
            k <= TWO_ADICITY + 1,
            p == pow2(k as nat),
            p <= 0x2_0000_0000,
            forall|j: nat| j < k ==> size != #[trigger] pow2(j),
        decreases TWO_ADICITY + 1 - k,
    {
        if p == size {
            return domain_of_log_size(k);
        }
        proof {
            lemma_pow2_increases((k + 1) as nat, 33);
            lemma_pow2_values();
        }
        p = p * 2;
        k = k + 1;
    }
    Err(IndexError::InvalidDomainSize)
}

} // verus!
