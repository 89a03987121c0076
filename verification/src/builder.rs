//! Building an index: from a prover's index, from supplied parts, and from
//! one shape into the other. Every index that is built takes one strong
//! reference to its reference string and stores the handle next to it.

use vstd::prelude::*;
use crate::domain::{domain_of_log_size, pow2, TWO_ADICITY};
use crate::error::IndexError;
use crate::field::FieldElem;
use crate::index::{
    derive_for, lemma_derived_unique, CamlPastaFqPlonkIndex, CamlPastaFqPlonkVerifierIndexRaw,
    CamlPlonkDomain, CamlPlonkVerificationEvals, CamlPlonkVerifierIndex, DlogVerifierIndex,
    IndexDerived, IndexParts, PolyCommTriple, SpongeParams, SpongeView,
};
use crate::shifts::{is_exhausted, is_sampled_pair, sample_shifts, CamlPlonkVerificationShifts};
use crate::urs::{spec_drop, spec_live, spec_share, CamlPastaFqUrs, UrsRegistry, UrsSlot};

verus! {

/// One more reference to slot `id` can be taken.
pub open spec fn can_share(slots: Seq<UrsSlot>, id: int) -> bool {
    spec_live(slots, id) && slots[id].strong < usize::MAX
}

/// `parts` with another handle.
pub open spec fn with_urs(parts: IndexParts, urs: CamlPastaFqUrs) -> IndexParts {
    IndexParts { urs, ..parts }
}

/// A copy of a list of field elements.
pub fn copy_elems(v: &Vec<FieldElem>) -> (c: Vec<FieldElem>)
    ensures
        c@ == v@,
{
    let mut c: Vec<FieldElem> = Vec::new();
    let mut i: usize = 0;
    while i < v.len()
        invariant
            i <= v.len(),
            c@ == v@.subrange(0, i as int),
        decreases v.len() - i,
    {
        c.push(v[i]);
        i = i + 1;
        assert(c@ =~= v@.subrange(0, i as int));
    }
    assert(c@ =~= v@);
    c
}

/// The commitments of a raw index under their names, copied.
pub fn named_commitments(vi: &DlogVerifierIndex) -> (e: CamlPlonkVerificationEvals)
    ensures
        e@ == vi.commitments(),
{
    CamlPlonkVerificationEvals {
        sigma_comm0: vi.sigma_comm.0.copy(),
        sigma_comm1: vi.sigma_comm.1.copy(),
        sigma_comm2: vi.sigma_comm.2.copy(),
        ql_comm: vi.ql_comm.copy(),
        qr_comm: vi.qr_comm.copy(),
        qo_comm: vi.qo_comm.copy(),
        qm_comm: vi.qm_comm.copy(),
        qc_comm: vi.qc_comm.copy(),
        rcm_comm0: vi.rcm_comm.0.copy(),
        rcm_comm1: vi.rcm_comm.1.copy(),
        rcm_comm2: vi.rcm_comm.2.copy(),
        psm_comm: vi.psm_comm.copy(),
        add_comm: vi.add_comm.copy(),
        mul1_comm: vi.mul1_comm.copy(),
        mul2_comm: vi.mul2_comm.copy(),
        emul1_comm: vi.emul1_comm.copy(),
        emul2_comm: vi.emul2_comm.copy(),
        emul3_comm: vi.emul3_comm.copy(),
    }
}

/// A raw index in the flat shape, under the handle `urs`.
pub fn flatten(urs: CamlPastaFqUrs, vi: DlogVerifierIndex) -> (c: CamlPlonkVerifierIndex)
    ensures
        c.parts() == with_urs(vi.parts(), urs),
        c.domain.group_gen == vi.domain.generator,
{
    let PolyCommTriple(sigma_comm0, sigma_comm1, sigma_comm2) = vi.sigma_comm;
    let PolyCommTriple(rcm_comm0, rcm_comm1, rcm_comm2) = vi.rcm_comm;
    CamlPlonkVerifierIndex {
        domain: CamlPlonkDomain {
            log_size_of_group: vi.domain.log_size,
            group_gen: vi.domain.generator,
        },
        max_poly_size: vi.max_poly_size,
        max_quot_size: vi.max_quot_size,
        urs,
        evals: CamlPlonkVerificationEvals {
            sigma_comm0,
            sigma_comm1,
            sigma_comm2,
            ql_comm: vi.ql_comm,
            qr_comm: vi.qr_comm,
            qo_comm: vi.qo_comm,
            qm_comm: vi.qm_comm,
            qc_comm: vi.qc_comm,
            rcm_comm0,
            rcm_comm1,
            rcm_comm2,
            psm_comm: vi.psm_comm,
            add_comm: vi.add_comm,
            mul1_comm: vi.mul1_comm,
            mul2_comm: vi.mul2_comm,
            emul1_comm: vi.emul1_comm,
            emul2_comm: vi.emul2_comm,
            emul3_comm: vi.emul3_comm,
        },
        shifts: CamlPlonkVerificationShifts { r: vi.r, o: vi.o },
    }
}

/// Turns a raw index into the flat shape, taking one more reference to the
/// string behind `urs` for it. Fails, and leaves the registry as it was,
/// exactly when that reference cannot be taken.
pub fn to_ocaml(
    registry: &mut UrsRegistry,
    urs: &CamlPastaFqUrs,
    vi: DlogVerifierIndex,
) -> (res: Result<CamlPlonkVerifierIndex, IndexError>)
    requires
        old(registry).wf(),
    ensures
        final(registry).wf(),
        final(registry)@ == spec_share(old(registry)@, urs.id as int),
        match res {
            Ok(c) => can_share(old(registry)@, urs.id as int)
                && c.parts() == with_urs(vi.parts(), *urs)
                && c.domain.group_gen == vi.domain.generator,
            Err(e) => e == IndexError::UrsNotLive && !can_share(old(registry)@, urs.id as int),
        },
{
    match registry.share_ref(*urs) {
        Some(shared) => Ok(flatten(shared, vi)),
        None => Err(IndexError::UrsNotLive),
    }
}

/// As `to_ocaml`, but leaves the raw index with its owner and copies the
/// commitments.
pub fn to_ocaml_copy(
    registry: &mut UrsRegistry,
    urs: &CamlPastaFqUrs,
    vi: &DlogVerifierIndex,
) -> (res: Result<CamlPlonkVerifierIndex, IndexError>)
    requires
        old(registry).wf(),
    ensures
        final(registry).wf(),
        final(registry)@ == spec_share(old(registry)@, urs.id as int),
        match res {
            Ok(c) => can_share(old(registry)@, urs.id as int)
                && c.parts() == with_urs(vi.parts(), *urs)
                && c.domain.group_gen == vi.domain.generator,
            Err(e) => e == IndexError::UrsNotLive && !can_share(old(registry)@, urs.id as int),
        },
{
    let shared = match registry.share_ref(*urs) {
        Some(h) => h,
        None => {
            return Err(IndexError::UrsNotLive);
        },
    };
    Ok(CamlPlonkVerifierIndex {
        domain: CamlPlonkDomain {
            log_size_of_group: vi.domain.log_size,
            group_gen: vi.domain.generator,
        },
        max_poly_size: vi.max_poly_size,
        max_quot_size: vi.max_quot_size,
        urs: shared,
        evals: named_commitments(vi),
        shifts: CamlPlonkVerificationShifts { r: vi.r, o: vi.o },
    })
}

/// A raw index of derived values and supplied ones.
pub fn assemble(
    derived: IndexDerived,
    fr_sponge_params: SpongeParams,
    fq_sponge_params: SpongeParams,
    max_poly_size: usize,
    max_quot_size: usize,
    srs: CamlPastaFqUrs,
    evals: CamlPlonkVerificationEvals,
    shifts: CamlPlonkVerificationShifts,
) -> (index: DlogVerifierIndex)
    ensures
        index.derived() == derived,
        index.sponges() == (fr_sponge_params@, fq_sponge_params@),
        index.parts()
            == (IndexParts { max_poly_size, max_quot_size, log_size_of_group: derived.domain.log_size, urs: srs, commitments: evals@, shifts }),
{
    DlogVerifierIndex {
        domain: derived.domain,
        w: derived.w,
        zkpm: derived.zkpm,
        max_poly_size,
        max_quot_size,
        srs,
        sigma_comm: PolyCommTriple(evals.sigma_comm0, evals.sigma_comm1, evals.sigma_comm2),
        ql_comm: evals.ql_comm,
        qr_comm: evals.qr_comm,
        qo_comm: evals.qo_comm,
        qm_comm: evals.qm_comm,
        qc_comm: evals.qc_comm,
        rcm_comm: PolyCommTriple(evals.rcm_comm0, evals.rcm_comm1, evals.rcm_comm2),
        psm_comm: evals.psm_comm,
        add_comm: evals.add_comm,
        mul1_comm: evals.mul1_comm,
        mul2_comm: evals.mul2_comm,
        emul1_comm: evals.emul1_comm,
        emul2_comm: evals.emul2_comm,
        emul3_comm: evals.emul3_comm,
        r: shifts.r,
        o: shifts.o,
        fr_sponge_params,
        fq_sponge_params,
        endo: derived.endo,
    }
}

/// What `of_ocaml` hands back for the given arguments, on a registry whose
/// slots were `before` and are `after`.
pub open spec fn built_from_parts(
    res: Result<CamlPastaFqPlonkVerifierIndexRaw, IndexError>,
    before: Seq<UrsSlot>,
    after: Seq<UrsSlot>,
    sponges: (SpongeView, SpongeView),
    parts: IndexParts,
) -> bool {
    match res {
        Ok(raw) => {
            &&& parts.log_size_of_group <= TWO_ADICITY
            &&& can_share(before, parts.urs.id as int)
            &&& after == spec_share(before, parts.urs.id as int)
            &&& raw.1 == parts.urs
            &&& raw.0.parts() == parts
            &&& raw.0.wf()
            &&& raw.0.sponges() == sponges
        },
        Err(e) => {
            &&& after == before
            &&& if parts.log_size_of_group > TWO_ADICITY {
                e == IndexError::InvalidDomainSize
            } else {
                e == IndexError::UrsNotLive && !can_share(before, parts.urs.id as int)
            }
        },
    }
}

/// Builds a raw index from supplied parts. The domain, the values derived
/// from it and the endomorphism coefficient are computed here; the sponge
/// parameters are handed in. The index takes one reference to the string
/// behind `urs`. Fails, and leaves the registry as it was, when the field
/// has no subgroup of the given size, or else when the reference cannot be
/// taken.
pub fn of_ocaml(
    registry: &mut UrsRegistry,
    fr_sponge_params: SpongeParams,
    fq_sponge_params: SpongeParams,
    max_poly_size: usize,
    max_quot_size: usize,
    log_size_of_group: u32,
    urs: CamlPastaFqUrs,
    evals: CamlPlonkVerificationEvals,
    shifts: CamlPlonkVerificationShifts,
) -> (res: Result<CamlPastaFqPlonkVerifierIndexRaw, IndexError>)
    requires
        old(registry).wf(),
    ensures
        final(registry).wf(),
        built_from_parts(res, old(registry)@, final(registry)@, (fr_sponge_params@, fq_sponge_params@), (IndexParts { max_poly_size, max_quot_size, log_size_of_group, urs, commitments: evals@, shifts })),
{
    let derived = derive_for(log_size_of_group)?;
    let srs = match registry.share_ref(urs) {
        Some(h) => h,
        None => {
            return Err(IndexError::UrsNotLive);
        },
    };
    let index = assemble(
        derived,
        fr_sponge_params,
        fq_sponge_params,
        max_poly_size,
        max_quot_size,
        srs,
        evals,
        shifts,
    );
    Ok(CamlPastaFqPlonkVerifierIndexRaw(index, srs))
}

/// Builds a raw index from supplied parts: `of_ocaml` under the name by
/// which callers outside reach it.
pub fn caml_pasta_fq_plonk_verifier_index_raw_of_parts(
    registry: &mut UrsRegistry,
    fr_sponge_params: SpongeParams,
    fq_sponge_params: SpongeParams,
    max_poly_size: usize,
    max_quot_size: usize,
    log_size_of_group: u32,
    urs: CamlPastaFqUrs,
    evals: CamlPlonkVerificationEvals,
    shifts: CamlPlonkVerificationShifts,
) -> (res: Result<CamlPastaFqPlonkVerifierIndexRaw, IndexError>)
    requires
        old(registry).wf(),
    ensures
        final(registry).wf(),
        built_from_parts(res, old(registry)@, final(registry)@, (fr_sponge_params@, fq_sponge_params@), (IndexParts { max_poly_size, max_quot_size, log_size_of_group, urs, commitments: evals@, shifts })),
{
    of_ocaml(
        registry,
        fr_sponge_params,
        fq_sponge_params,
        max_poly_size,
        max_quot_size,
        log_size_of_group,
        urs,
        evals,
        shifts,
    )
}

/// Builds the raw index of a flat one. The generator that the flat index
/// carries is not trusted: the domain is derived anew from its size.
pub fn caml_pasta_fq_plonk_verifier_index_raw_of_ocaml(
    registry: &mut UrsRegistry,
    fr_sponge_params: SpongeParams,
    fq_sponge_params: SpongeParams,
    index: CamlPlonkVerifierIndex,
) -> (res: Result<CamlPastaFqPlonkVerifierIndexRaw, IndexError>)
    requires
        old(registry).wf(),
    ensures
        final(registry).wf(),
        built_from_parts(res, old(registry)@, final(registry)@, (fr_sponge_params@, fq_sponge_params@), index.parts()),
{
    of_ocaml(
        registry,
        fr_sponge_params,
        fq_sponge_params,
        index.max_poly_size,
        index.max_quot_size,
        index.domain.log_size_of_group,
        index.urs,
        index.evals,
        index.shifts,
    )
}

/// The flat shape of a raw index, which stays with its owner.
pub fn caml_pasta_fq_plonk_verifier_index_ocaml_of_raw(
    registry: &mut UrsRegistry,
    index: &CamlPastaFqPlonkVerifierIndexRaw,
) -> (res: Result<CamlPlonkVerifierIndex, IndexError>)
    requires
        old(registry).wf(),
    ensures
        final(registry).wf(),
        final(registry)@ == spec_share(old(registry)@, index.1.id as int),
        match res {
            Ok(c) => can_share(old(registry)@, index.1.id as int)
                && c.parts() == with_urs(index.0.parts(), index.1)
                && c.domain.group_gen == index.0.domain.generator,
            Err(e) => e == IndexError::UrsNotLive && !can_share(old(registry)@, index.1.id as int),
        },
{
    to_ocaml_copy(registry, &index.1, &index.0)
}

/// The verifier-facing values of a prover's index, copied, under the
/// prover's handle.
pub fn verifier_index(index: &CamlPastaFqPlonkIndex) -> (vi: DlogVerifierIndex)
    ensures
        vi.parts() == with_urs(index.0.parts(), index.1),
        vi.derived() == index.0.derived(),
        vi.sponges() == index.0.sponges(),
{
    let p = &index.0;
    let evals = named_commitments(p);
    DlogVerifierIndex {
        domain: p.domain,
        w: p.w,
        zkpm: p.zkpm,
        max_poly_size: p.max_poly_size,
        max_quot_size: p.max_quot_size,
        srs: index.1,
        sigma_comm: PolyCommTriple(evals.sigma_comm0, evals.sigma_comm1, evals.sigma_comm2),
        ql_comm: evals.ql_comm,
        qr_comm: evals.qr_comm,
        qo_comm: evals.qo_comm,
        qm_comm: evals.qm_comm,
        qc_comm: evals.qc_comm,
        rcm_comm: PolyCommTriple(evals.rcm_comm0, evals.rcm_comm1, evals.rcm_comm2),
        psm_comm: evals.psm_comm,
        add_comm: evals.add_comm,
        mul1_comm: evals.mul1_comm,
        mul2_comm: evals.mul2_comm,
        emul1_comm: evals.emul1_comm,
        emul2_comm: evals.emul2_comm,
        emul3_comm: evals.emul3_comm,
        r: p.r,
        o: p.o,
        fr_sponge_params: SpongeParams {
            round_constants: copy_elems(&p.fr_sponge_params.round_constants),
            mds: copy_elems(&p.fr_sponge_params.mds),
        },
        fq_sponge_params: SpongeParams {
            round_constants: copy_elems(&p.fq_sponge_params.round_constants),
            mds: copy_elems(&p.fq_sponge_params.mds),
        },
        endo: p.endo,
    }
}

/// Builds the raw verifier index of a prover's index: the prover's own
/// values, and one more reference to the prover's string. Fails, and leaves
/// the registry as it was, exactly when that reference cannot be taken.
pub fn caml_pasta_fq_plonk_verifier_index_raw_create(
    registry: &mut UrsRegistry,
    index: &CamlPastaFqPlonkIndex,
) -> (res: Result<CamlPastaFqPlonkVerifierIndexRaw, IndexError>)
    requires
        old(registry).wf(),
    ensures
        final(registry).wf(),
        final(registry)@ == spec_share(old(registry)@, index.1.id as int),
        match res {
            Ok(raw) => {
                &&& can_share(old(registry)@, index.1.id as int)
                &&& raw.1 == index.1
                &&& raw.0.parts() == with_urs(index.0.parts(), index.1)
                &&& raw.0.derived() == index.0.derived()
                &&& raw.0.sponges() == index.0.sponges()
            },
            Err(e) => e == IndexError::UrsNotLive && !can_share(old(registry)@, index.1.id as int),
        },
{
    match registry.share_ref(index.1) {
        Some(h) => Ok(CamlPastaFqPlonkVerifierIndexRaw(verifier_index(index), h)),
        None => Err(IndexError::UrsNotLive),
    }
}

/// Builds the flat verifier index of a prover's index, under the same
/// conditions as the raw one.
pub fn caml_pasta_fq_plonk_verifier_index_create(
    registry: &mut UrsRegistry,
    index: &CamlPastaFqPlonkIndex,
) -> (res: Result<CamlPlonkVerifierIndex, IndexError>)
    requires
        old(registry).wf(),
    ensures
        final(registry).wf(),
        final(registry)@ == spec_share(old(registry)@, index.1.id as int),
        match res {
            Ok(c) => can_share(old(registry)@, index.1.id as int)
                && c.parts() == with_urs(index.0.parts(), index.1)
                && c.domain.group_gen == index.0.domain.generator,
            Err(e) => e == IndexError::UrsNotLive && !can_share(old(registry)@, index.1.id as int),
        },
{
    to_ocaml(registry, &index.1, verifier_index(index))
}

/// Ends the life of a raw index: its reference to its string is given up.
/// Returns `true` exactly when this was the string's last reference, so
/// that the string is released now.
pub fn caml_pasta_fq_plonk_verifier_index_raw_finalize(
    registry: &mut UrsRegistry,
    v: CamlPastaFqPlonkVerifierIndexRaw,
) -> (released: bool)
    requires
        old(registry).wf(),
    ensures
        final(registry).wf(),
        final(registry)@ == spec_drop(old(registry)@, v.1.id as int),
        released <==> spec_live(old(registry)@, v.1.id as int) && old(registry)@[v.1.id as int].strong == 1,
{
    registry.drop_ref(v.1)
}

/// Samples the shifts for the domain of the given logarithmic size. Fails
/// when the field has no subgroup of that size, or else when no pair is
/// found among the candidates.
pub fn caml_pasta_fq_plonk_verifier_index_shifts(
    log2_size: u32,
) -> (res: Result<CamlPlonkVerificationShifts, IndexError>)
    ensures
        match res {
            Ok(s) => log2_size <= TWO_ADICITY && is_sampled_pair(s, pow2(log2_size as nat) as u64),
            Err(e) => if log2_size > TWO_ADICITY {
                e == IndexError::InvalidDomainSize
            } else {
                e == IndexError::ShiftSamplingExhausted && is_exhausted(pow2(log2_size as nat) as u64)
            },
        },
{
    let domain = domain_of_log_size(log2_size)?;
    sample_shifts(&domain)
}

/// Builder equivalence: a raw index built from the supplied parts of
/// another well-formed index, with the same sponge parameters, agrees with
/// it in every field.
pub proof fn lemma_builders_agree(built: DlogVerifierIndex, derived: DlogVerifierIndex)
    requires
        built.wf(),
        derived.wf(),
        built.parts() == derived.parts(),
        built.sponges() == derived.sponges(),
    ensures
        built.derived() == derived.derived(),
        built.domain == derived.domain,
        built.w == derived.w,
        built.zkpm == derived.zkpm,
        built.endo == derived.endo,
{
    lemma_derived_unique(built.derived(), derived.derived(), built.domain.log_size);
}

} // verus!
