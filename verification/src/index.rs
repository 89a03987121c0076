//! The verifier index in its two shapes, and the builders that move between
//! them.
//!
//! The flat shape names every commitment and is what callers hand in and
//! get back. The raw shape is what a verifier works on: it groups the
//! commitments, and carries the values that are derived from the domain
//! alone, which are always recomputed and never taken from a caller.

use vstd::prelude::*;
use crate::domain::{domain_of_log_size, EvaluationDomain, TWO_ADICITY};
use crate::error::IndexError;
use crate::field::{
    endo_coefficient, endo_exponent, field_pow, lemma_value_injective, pow_mod, FieldElem, GENERATOR,
};
use crate::shifts::CamlPlonkVerificationShifts;
use crate::urs::CamlPastaFqUrs;

verus! {

/// A polynomial commitment, held as the commitment scheme's canonical bytes.
#[derive(Clone, Debug, PartialEq, Eq)]
pub struct CamlPastaPallasPolyComm {
    pub encoding: Vec<u8>,
}

impl CamlPastaPallasPolyComm {
    pub open spec fn view(&self) -> Seq<u8> {
        self.encoding@
    }

    /// A commitment with the same bytes.
    pub fn copy(&self) -> (c: CamlPastaPallasPolyComm)
        ensures
            c@ == self@,
    {
        let mut encoding: Vec<u8> = Vec::new();
        let mut i: usize = 0;
        while i < self.encoding.len()
            invariant
                i <= self.encoding.len(),
                encoding@ == self.encoding@.subrange(0, i as int),
            decreases self.encoding.len() - i,
        {
            encoding.push(self.encoding[i]);
            i = i + 1;
            assert(encoding@ =~= self.encoding@.subrange(0, i as int));
        }
        assert(encoding@ =~= self.encoding@);
        CamlPastaPallasPolyComm { encoding }
    }
}

/// Three commitments that an index holds as a group.
#[derive(Clone, Debug, PartialEq, Eq)]
pub struct PolyCommTriple(
    pub CamlPastaPallasPolyComm,
    pub CamlPastaPallasPolyComm,
    pub CamlPastaPallasPolyComm,
);

/// The named commitments of an index, in the order in which they are written.
#[derive(Clone, Debug, PartialEq, Eq)]
pub struct CamlPlonkVerificationEvals {
    pub sigma_comm0: CamlPastaPallasPolyComm,
    pub sigma_comm1: CamlPastaPallasPolyComm,
    pub sigma_comm2: CamlPastaPallasPolyComm,
    pub ql_comm: CamlPastaPallasPolyComm,
    pub qr_comm: CamlPastaPallasPolyComm,
    pub qo_comm: CamlPastaPallasPolyComm,
    pub qm_comm: CamlPastaPallasPolyComm,
    pub qc_comm: CamlPastaPallasPolyComm,
    pub rcm_comm0: CamlPastaPallasPolyComm,
    pub rcm_comm1: CamlPastaPallasPolyComm,
    pub rcm_comm2: CamlPastaPallasPolyComm,
    pub psm_comm: CamlPastaPallasPolyComm,
    pub add_comm: CamlPastaPallasPolyComm,
    pub mul1_comm: CamlPastaPallasPolyComm,
    pub mul2_comm: CamlPastaPallasPolyComm,
    pub emul1_comm: CamlPastaPallasPolyComm,
    pub emul2_comm: CamlPastaPallasPolyComm,
    pub emul3_comm: CamlPastaPallasPolyComm,
}

impl CamlPlonkVerificationEvals {
    /// The commitments' bytes in wire order.
    pub open spec fn view(&self) -> Seq<Seq<u8>> {
        seq![
            self.sigma_comm0@, self.sigma_comm1@, self.sigma_comm2@,
            self.ql_comm@, self.qr_comm@, self.qo_comm@, self.qm_comm@, self.qc_comm@,
            self.rcm_comm0@, self.rcm_comm1@, self.rcm_comm2@,
            self.psm_comm@, self.add_comm@, self.mul1_comm@, self.mul2_comm@,
            self.emul1_comm@, self.emul2_comm@, self.emul3_comm@,
        ]
    }
}

/// The domain as the flat index holds it.
#[derive(Clone, Copy, Debug, PartialEq, Eq, Structural)]
pub struct CamlPlonkDomain {
    pub log_size_of_group: u32,
    pub group_gen: FieldElem,
}

/// The flat index.
#[derive(Clone, Debug, PartialEq, Eq)]
pub struct CamlPlonkVerifierIndex {
    pub domain: CamlPlonkDomain,
    pub max_poly_size: usize,
    pub max_quot_size: usize,
    pub urs: CamlPastaFqUrs,
    pub evals: CamlPlonkVerificationEvals,
    pub shifts: CamlPlonkVerificationShifts,
}

/// A sponge's fixed parameters.
#[derive(Clone, Debug, PartialEq, Eq)]
pub struct SpongeParams {
    pub round_constants: Vec<FieldElem>,
    pub mds: Vec<FieldElem>,
}

/// What a sponge's parameters hold.
pub struct SpongeView {
    pub round_constants: Seq<FieldElem>,
    pub mds: Seq<FieldElem>,
}

impl SpongeParams {
    pub open spec fn view(&self) -> SpongeView {
        SpongeView { round_constants: self.round_constants@, mds: self.mds@ }
    }
}

/// The polynomial that vanishes on the last three points of the domain,
/// held by its roots.
#[derive(Clone, Copy, Debug, PartialEq, Eq, Structural)]
pub struct ZkPolynomial {
    pub root0: FieldElem,
    pub root1: FieldElem,
    pub root2: FieldElem,
}

/// The raw index.
#[derive(Clone, Debug, PartialEq, Eq)]
pub struct DlogVerifierIndex {
    pub domain: EvaluationDomain,
    pub w: FieldElem,
    pub zkpm: ZkPolynomial,
    pub max_poly_size: usize,
    pub max_quot_size: usize,
    pub srs: CamlPastaFqUrs,
    pub sigma_comm: PolyCommTriple,
    pub ql_comm: CamlPastaPallasPolyComm,
    pub qr_comm: CamlPastaPallasPolyComm,
    pub qo_comm: CamlPastaPallasPolyComm,
    pub qm_comm: CamlPastaPallasPolyComm,
    pub qc_comm: CamlPastaPallasPolyComm,
    pub rcm_comm: PolyCommTriple,
    pub psm_comm: CamlPastaPallasPolyComm,
    pub add_comm: CamlPastaPallasPolyComm,
    pub mul1_comm: CamlPastaPallasPolyComm,
    pub mul2_comm: CamlPastaPallasPolyComm,
    pub emul1_comm: CamlPastaPallasPolyComm,
    pub emul2_comm: CamlPastaPallasPolyComm,
    pub emul3_comm: CamlPastaPallasPolyComm,
    pub r: FieldElem,
    pub o: FieldElem,
    pub fr_sponge_params: SpongeParams,
    pub fq_sponge_params: SpongeParams,
    pub endo: FieldElem,
}

/// What an index holds that a caller supplies.
pub struct IndexParts {
    pub max_poly_size: usize,
    pub max_quot_size: usize,
    pub log_size_of_group: u32,
    pub urs: CamlPastaFqUrs,
    pub commitments: Seq<Seq<u8>>,
    pub shifts: CamlPlonkVerificationShifts,
}

/// What an index holds that is derived from the domain and the field.
#[derive(Clone, Copy, Debug, PartialEq, Eq, Structural)]
pub struct IndexDerived {
    pub domain: EvaluationDomain,
    pub w: FieldElem,
    pub zkpm: ZkPolynomial,
    pub endo: FieldElem,
}

/// The exponent `size - back`, taken modulo two to the 64: the generator's
/// order divides that modulus, so the power is the one `back` steps before
/// the end of the domain.
pub open spec fn zk_exponent(size: u64, back: u64) -> u64 {
    if size >= back {
        (size - back) as u64
    } else {
        (u64::MAX - back + size + 1) as u64
    }
}

/// `x` is the canonical form of the generator's power `back` steps before
/// the end of the domain.
pub open spec fn is_zk_power(x: FieldElem, domain: EvaluationDomain, back: u64) -> bool {
    x.is_canonical() && x.value() == pow_mod(domain.generator.value(), zk_exponent(domain.size, back) as int)
}

/// `d` holds the values derived for a domain of the given logarithmic size.
pub open spec fn is_derived(d: IndexDerived, log_size_of_group: u32) -> bool {
    &&& d.domain.wf()
    &&& d.domain.log_size == log_size_of_group
    &&& is_zk_power(d.w, d.domain, 3)
    &&& is_zk_power(d.zkpm.root0, d.domain, 3)
    &&& is_zk_power(d.zkpm.root1, d.domain, 2)
    &&& is_zk_power(d.zkpm.root2, d.domain, 1)
    &&& d.endo.is_canonical()
    &&& d.endo.value() == pow_mod(GENERATOR as nat, endo_exponent() as int)
}

impl DlogVerifierIndex {
    /// The commitments' bytes in wire order.
    pub open spec fn commitments(&self) -> Seq<Seq<u8>> {
        seq![
            self.sigma_comm.0@, self.sigma_comm.1@, self.sigma_comm.2@,
            self.ql_comm@, self.qr_comm@, self.qo_comm@, self.qm_comm@, self.qc_comm@,
            self.rcm_comm.0@, self.rcm_comm.1@, self.rcm_comm.2@,
            self.psm_comm@, self.add_comm@, self.mul1_comm@, self.mul2_comm@,
            self.emul1_comm@, self.emul2_comm@, self.emul3_comm@,
        ]
    }

    /// The supplied part of the index.
    pub open spec fn parts(&self) -> IndexParts {
        IndexParts {
            max_poly_size: self.max_poly_size,
            max_quot_size: self.max_quot_size,
            log_size_of_group: self.domain.log_size,
            urs: self.srs,
            commitments: self.commitments(),
            shifts: CamlPlonkVerificationShifts { r: self.r, o: self.o },
        }
    }

    /// The derived part of the index.
    pub open spec fn derived(&self) -> IndexDerived {
        IndexDerived { domain: self.domain, w: self.w, zkpm: self.zkpm, endo: self.endo }
    }

    /// The sponge parameters of the index, the scalar field's first.
    pub open spec fn sponges(&self) -> (SpongeView, SpongeView) {
        (self.fr_sponge_params@, self.fq_sponge_params@)
    }

    /// The derived values are those of the index's own domain size.
    pub open spec fn wf(&self) -> bool {
        is_derived(self.derived(), self.domain.log_size)
    }
}

impl CamlPlonkVerifierIndex {
    /// The supplied part of the index.
    pub open spec fn parts(&self) -> IndexParts {
        IndexParts {
            max_poly_size: self.max_poly_size,
            max_quot_size: self.max_quot_size,
            log_size_of_group: self.domain.log_size_of_group,
            urs: self.urs,
            commitments: self.evals@,
            shifts: self.shifts,
        }
    }
}

/// A raw index next to the strong reference that keeps its reference string
/// alive.
#[derive(Clone, Debug, PartialEq, Eq)]
pub struct CamlPastaFqPlonkVerifierIndexRaw(pub DlogVerifierIndex, pub CamlPastaFqUrs);

/// A prover's index, as far as a verifier index is derived from it: the
/// verifier-facing values and the prover's own reference to the string.
#[derive(Clone, Debug, PartialEq, Eq)]
pub struct CamlPastaFqPlonkIndex(pub DlogVerifierIndex, pub CamlPastaFqUrs);

/// Derived values are a function of the domain size: two sets derived for
/// the same size are equal.
pub proof fn lemma_derived_unique(a: IndexDerived, b: IndexDerived, log_size_of_group: u32)
    requires
        is_derived(a, log_size_of_group),
        is_derived(b, log_size_of_group),
    ensures
        a == b,
{
    lemma_value_injective(a.w, b.w);
    lemma_value_injective(a.zkpm.root0, b.zkpm.root0);
    lemma_value_injective(a.zkpm.root1, b.zkpm.root1);
    lemma_value_injective(a.zkpm.root2, b.zkpm.root2);
    lemma_value_injective(a.endo, b.endo);
}

/// The generator's power `back` steps before the end of the domain.
pub fn zk_power(domain: &EvaluationDomain, back: u64) -> (x: FieldElem)
    requires
        domain.generator.is_canonical(),
        1 <= back <= 3,
    ensures
        is_zk_power(x, *domain, back),
{
    let e: u64 = if domain.size >= back {
        domain.size - back
    } else {
        u64::MAX - back + domain.size + 1
    };
    field_pow(&domain.generator, &FieldElem::from_u64(e))
}

/// Computes the values that depend on the domain size and the field alone.
/// Fails exactly when the field has no subgroup of that size.
pub fn derive_for(log_size_of_group: u32) -> (res: Result<IndexDerived, IndexError>)
    ensures
        match res {
            Ok(d) => is_derived(d, log_size_of_group),
            Err(e) => e == IndexError::InvalidDomainSize && log_size_of_group > TWO_ADICITY,
        },
{
    let domain = domain_of_log_size(log_size_of_group)?;
    let w = zk_power(&domain, 3);
    let zkpm = ZkPolynomial { root0: w, root1: zk_power(&domain, 2), root2: zk_power(&domain, 1) };
    Ok(IndexDerived { domain, w, zkpm, endo: endo_coefficient() })
}

} // verus!
