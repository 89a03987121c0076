//! Elements of the Pallas scalar field, held as four 64-bit limbs.

use vstd::prelude::*;
use ark_ff::{BigInt, Field, PrimeField};
use ark_pallas::Fr;

verus! {

/// The field's modulus as a natural number.
pub open spec fn modulus() -> nat {
    (0x8c46eb2100000001 + 0x1_0000_0000_0000_0000 * (0x224698fc0994a8dd
        + 0x1_0000_0000_0000_0000 * (0x1_0000_0000_0000_0000 * 0x4000000000000000))) as nat
}

/// `base` raised to `exp` in the field; `exp` at or below zero gives one.
pub open spec fn pow_mod(base: nat, exp: int) -> nat
    decreases exp,
{
    if exp <= 0 {
        1
    } else {
        (base * pow_mod(base, exp - 1)) % modulus()
    }
}

/// A field element in its canonical integer form, least significant limb
/// first.
#[derive(Clone, Copy, Debug, PartialEq, Eq, Structural)]
pub struct FieldElem {
    pub l0: u64,
    pub l1: u64,
    pub l2: u64,
    pub l3: u64,
}

impl FieldElem {
    /// The integer that the limbs spell.
    pub open spec fn value(self) -> nat {
        (self.l0 + 0x1_0000_0000_0000_0000 * (self.l1 + 0x1_0000_0000_0000_0000 * (self.l2
            + 0x1_0000_0000_0000_0000 * self.l3))) as nat
    }

    /// The limbs spell an integer below the modulus.
    pub open spec fn is_canonical(self) -> bool {
        self.value() < modulus()
    }

    /// The element that a 64-bit integer stands for.
    pub open spec fn spec_from_u64(k: u64) -> FieldElem {
        FieldElem { l0: k, l1: 0, l2: 0, l3: 0 }
    }

    /// Lifts a 64-bit integer into the field.
    pub fn from_u64(k: u64) -> (r: FieldElem)
        ensures
            r == Self::spec_from_u64(k),
            r.is_canonical(),
            r.value() == k,
    {
        FieldElem { l0: k, l1: 0, l2: 0, l3: 0 }
    }

    /// The multiplicative identity.
    pub fn one() -> (r: FieldElem)
        ensures
            r == Self::spec_from_u64(1),
            r.value() == 1,
    {
        FieldElem { l0: 1, l1: 0, l2: 0, l3: 0 }
    }

    /// `self` raised to the power `exp`.
    pub fn pow(&self, exp: u64) -> (r: FieldElem)
        requires
            self.is_canonical(),
        ensures
            r.is_canonical(),
            r.value() == pow_mod(self.value(), exp as int),
    {
        field_pow(self, &FieldElem::from_u64(exp))
    }

    /// Says whether the limbs spell an integer below the modulus.
    pub fn check_canonical(&self) -> (b: bool)
        ensures
            b == self.is_canonical(),
    {
        if self.l3 != 0x4000000000000000 {
            self.l3 < 0x4000000000000000
        } else if self.l2 != 0 {
            false
        } else if self.l1 != 0x224698fc0994a8dd {
            self.l1 < 0x224698fc0994a8dd
        } else {
            self.l0 < 0x8c46eb2100000001
        }
    }
}

/// Elements with the same value have the same limbs.
pub proof fn lemma_value_injective(a: FieldElem, b: FieldElem)
    ensures
        a.value() == b.value() <==> a == b,
{
}

/// Calls `Field::pow` of ark-ff on the Pallas scalar field; the exponent is
/// the integer that the limbs of `exp` spell, below the modulus or not. The
/// contract claims that the result is the canonical form of `base`
/// multiplied that many times with itself, reduced by the modulus.
#[verifier::external_body]
pub(crate) fn field_pow(base: &FieldElem, exp: &FieldElem) -> (r: FieldElem)
    requires
        base.is_canonical(),
    ensures
        r.is_canonical(),
        r.value() == pow_mod(base.value(), exp.value() as int),
{
    let b = Fr::from_bigint(BigInt::new([base.l0, base.l1, base.l2, base.l3])).unwrap();
    let p = b.pow([exp.l0, exp.l1, exp.l2, exp.l3]).into_bigint().0;
    FieldElem { l0: p[0], l1: p[1], l2: p[2], l3: p[3] }
}

/// The field's multiplicative generator.
pub const GENERATOR: u64 = 5;

/// A third of the order of the multiplicative group.
pub open spec fn endo_exponent() -> nat {
    ((modulus() - 1) / 3) as nat
}

/// The endomorphism coefficient: the generator raised to a third of the
/// group order, a primitive cube root of unity.
pub fn endo_coefficient() -> (r: FieldElem)
    ensures
        r.is_canonical(),
        r.value() == pow_mod(GENERATOR as nat, endo_exponent() as int),
{
    let exp = FieldElem {
        l0: 0xd96cf90b00000000,
        l1: 0x60c232feaddc3849,
        l2: 0x5555555555555555,
        l3: 0x1555555555555555,
    };
    field_pow(&FieldElem::from_u64(GENERATOR), &exp)
}

} // verus!
