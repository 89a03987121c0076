//! The binary form of an index.
//!
//! A stream is a header of 88 bytes followed by eighteen frames and nothing
//! more. The header holds the logarithmic domain size and the two size
//! bounds, each as eight bytes, least significant first, and then the two
//! shifts, each as its four limbs in the same way. A frame is a length as
//! eight bytes and then that many bytes: one commitment in the commitment
//! scheme's own encoding. The reference string is never written: the reader
//! is handed a reference to it.

use vstd::prelude::*;
use vstd::bytes::{spec_u64_from_le_bytes, spec_u64_to_le_bytes, u64_from_le_bytes, u64_to_le_bytes};
use vstd::slice::slice_subrange;
use vstd::bytes::lemma_auto_spec_u64_to_from_le_bytes;
use crate::builder::{assemble, built_from_parts, can_share, flatten, of_ocaml};
use crate::domain::{pow2, TWO_ADICITY};
use crate::error::IndexError;
use crate::field::FieldElem;
use crate::index::{
    derive_for, CamlPastaFqPlonkVerifierIndexRaw, CamlPastaPallasPolyComm, CamlPlonkVerificationEvals,
    CamlPlonkVerifierIndex, DlogVerifierIndex, IndexParts, SpongeParams,
};
use crate::shifts::CamlPlonkVerificationShifts;
use crate::urs::{spec_share, CamlPastaFqUrs, UrsRegistry};

verus! {

/// The length of the header.
pub const HEADER_LEN: usize = 88;

/// The number of frames.
pub const FRAME_COUNT: usize = 18;

/// A field element's limbs as bytes.
pub open spec fn field_bytes(x: FieldElem) -> Seq<u8> {
    spec_u64_to_le_bytes(x.l0) + spec_u64_to_le_bytes(x.l1) + spec_u64_to_le_bytes(x.l2)
        + spec_u64_to_le_bytes(x.l3)
}

/// The header of an index.
pub open spec fn header_bytes(p: IndexParts) -> Seq<u8> {
    spec_u64_to_le_bytes(p.log_size_of_group as u64) + spec_u64_to_le_bytes(p.max_poly_size as u64)
        + spec_u64_to_le_bytes(p.max_quot_size as u64) + field_bytes(p.shifts.r)
        + field_bytes(p.shifts.o)
}

/// One commitment behind its length.
pub open spec fn frame(c: Seq<u8>) -> Seq<u8> {
    spec_u64_to_le_bytes(c.len() as u64) + c
}

/// The frames of a list of commitments, one after the other.
pub open spec fn frames(cs: Seq<Seq<u8>>) -> Seq<u8>
    decreases cs.len(),
{
    if cs.len() == 0 {
        Seq::<u8>::empty()
    } else {
        frame(cs[0]) + frames(cs.skip(1))
    }
}

/// The stream that stands for an index.
pub open spec fn encode(p: IndexParts) -> Seq<u8> {
    header_bytes(p) + frames(p.commitments)
}

/// The integer at `pos`.
pub open spec fn u64_at(bytes: Seq<u8>, pos: int) -> u64 {
    spec_u64_from_le_bytes(bytes.subrange(pos, pos + 8))
}

/// The field element at `pos`.
pub open spec fn field_at(bytes: Seq<u8>, pos: int) -> FieldElem {
    FieldElem {
        l0: u64_at(bytes, pos),
        l1: u64_at(bytes, pos + 8),
        l2: u64_at(bytes, pos + 16),
        l3: u64_at(bytes, pos + 24),
    }
}

/// The stream begins with a header whose domain size the field supports,
/// whose bounds fit this machine and whose shifts are canonical.
pub open spec fn header_ok(bytes: Seq<u8>) -> bool {
    &&& bytes.len() >= HEADER_LEN
    &&& u64_at(bytes, 0) <= TWO_ADICITY
    &&& u64_at(bytes, 8) <= usize::MAX
    &&& u64_at(bytes, 16) <= usize::MAX
    &&& field_at(bytes, 24).is_canonical()
    &&& field_at(bytes, 56).is_canonical()
}

/// A whole frame begins at `pos`.
pub open spec fn frame_fits(bytes: Seq<u8>, pos: int) -> bool {
    0 <= pos && pos + 8 <= bytes.len() && pos + 8 + u64_at(bytes, pos) <= bytes.len()
}

/// Where `count` frames that begin at `pos` end, if the stream holds them.
pub open spec fn end_of_frames(bytes: Seq<u8>, pos: int, count: nat) -> Option<int>
    decreases count,
{
    if count == 0 {
        Some(pos)
    } else if !frame_fits(bytes, pos) {
        None
    } else {
        end_of_frames(bytes, pos + 8 + u64_at(bytes, pos), (count - 1) as nat)
    }
}

/// What `count` frames that begin at `pos` hold, as far as the stream holds
/// them.
pub open spec fn frames_at(bytes: Seq<u8>, pos: int, count: nat) -> Seq<Seq<u8>>
    decreases count,
{
    if count == 0 || !frame_fits(bytes, pos) {
        Seq::<Seq<u8>>::empty()
    } else {
        seq![bytes.subrange(pos + 8, pos + 8 + u64_at(bytes, pos))]
            + frames_at(bytes, pos + 8 + u64_at(bytes, pos), (count - 1) as nat)
    }
}

/// The stream is a valid header, then exactly eighteen frames.
pub open spec fn well_framed(bytes: Seq<u8>) -> bool {
    header_ok(bytes)
        && end_of_frames(bytes, HEADER_LEN as int, FRAME_COUNT as nat) == Some(bytes.len() as int)
}

/// What a well-framed stream holds, with the handle that the reader was
/// given.
pub open spec fn decoded(bytes: Seq<u8>, urs: CamlPastaFqUrs) -> IndexParts {
    IndexParts {
        max_poly_size: u64_at(bytes, 8) as usize,
        max_quot_size: u64_at(bytes, 16) as usize,
        log_size_of_group: u64_at(bytes, 0) as u32,
        urs,
        commitments: frames_at(bytes, HEADER_LEN as int, FRAME_COUNT as nat),
        shifts: CamlPlonkVerificationShifts { r: field_at(bytes, 24), o: field_at(bytes, 56) },
    }
}

/// What was read from a stream, before a reference string is attached.
#[derive(Clone, Debug, PartialEq, Eq)]
pub struct DecodedIndex {
    pub max_poly_size: usize,
    pub max_quot_size: usize,
    pub log_size_of_group: u32,
    pub evals: CamlPlonkVerificationEvals,
    pub shifts: CamlPlonkVerificationShifts,
}

impl DecodedIndex {
    /// The values are those that the stream holds.
    pub open spec fn holds(&self, bytes: Seq<u8>) -> bool {
        &&& self.log_size_of_group == u64_at(bytes, 0)
        &&& self.max_poly_size == u64_at(bytes, 8)
        &&& self.max_quot_size == u64_at(bytes, 16)
        &&& self.shifts.r == field_at(bytes, 24)
        &&& self.shifts.o == field_at(bytes, 56)
        &&& self.evals@ == frames_at(bytes, HEADER_LEN as int, FRAME_COUNT as nat)
    }

    /// The decoded values with a handle.
    pub open spec fn parts(&self, urs: CamlPastaFqUrs) -> IndexParts {
        IndexParts {
            max_poly_size: self.max_poly_size,
            max_quot_size: self.max_quot_size,
            log_size_of_group: self.log_size_of_group,
            urs,
            commitments: self.evals@,
            shifts: self.shifts,
        }
    }
}

fn push_u64(out: &mut Vec<u8>, x: u64)
    ensures
        final(out)@ == old(out)@ + spec_u64_to_le_bytes(x),
{
    let mut b = u64_to_le_bytes(x);
    out.append(&mut b);
}

fn push_field(out: &mut Vec<u8>, x: &FieldElem)
    ensures
        final(out)@ == old(out)@ + field_bytes(*x),
{
    let ghost before = out@;
    push_u64(out, x.l0);
    push_u64(out, x.l1);
    push_u64(out, x.l2);
    push_u64(out, x.l3);
    assert(out@ =~= before + field_bytes(*x));
}

/// `frames` of a list with one more commitment at its end.
pub proof fn lemma_frames_push(cs: Seq<Seq<u8>>, c: Seq<u8>)
    ensures
        frames(cs.push(c)) == frames(cs) + frame(c),
    decreases cs.len(),
{
    if cs.len() == 0 {
        assert(cs.push(c).skip(1) =~= Seq::<Seq<u8>>::empty());
        assert(frames(Seq::<Seq<u8>>::empty()) =~= Seq::<u8>::empty());
        assert(frames(cs) =~= Seq::<u8>::empty());
        assert(frames(cs.push(c)) =~= frame(c) + Seq::<u8>::empty());
        assert(frames(cs) + frame(c) =~= frame(c));
    } else {
        lemma_frames_push(cs.skip(1), c);
        assert(cs.push(c).skip(1) =~= cs.skip(1).push(c));
        assert(frames(cs.push(c)) =~= frames(cs) + frame(c));
    }
}

fn push_frame(out: &mut Vec<u8>, c: &CamlPastaPallasPolyComm, Ghost(head): Ghost<Seq<u8>>, Ghost(done): Ghost<Seq<Seq<u8>>>)
    requires
        old(out)@ == head + frames(done),
    ensures
        final(out)@ == head + frames(done.push(c@)),
{
    push_u64(out, c.encoding.len() as u64);
    let mut i: usize = 0;
    while i < c.encoding.len()
        invariant
            i <= c.encoding.len(),
            out@ == head + frames(done) + spec_u64_to_le_bytes(c@.len() as u64) + c@.subrange(0, i as int),
        decreases c.encoding.len() - i,
    {
        out.push(c.encoding[i]);
        i = i + 1;
        assert(out@ =~= head + frames(done) + spec_u64_to_le_bytes(c@.len() as u64)
            + c@.subrange(0, i as int));
    }
    proof {
        lemma_frames_push(done, c@);
        assert(c@.subrange(0, i as int) =~= c@);
        assert(out@ =~= head + frames(done.push(c@)));
    }
}

/// Writes an index as a stream.
pub fn write_raw(index: &DlogVerifierIndex) -> (out: Vec<u8>)
    ensures
        out@ == encode(index.parts()),
{
    let mut out: Vec<u8> = Vec::new();
    push_u64(&mut out, index.domain.log_size as u64);
    push_u64(&mut out, index.max_poly_size as u64);
    push_u64(&mut out, index.max_quot_size as u64);
    push_field(&mut out, &index.r);
    push_field(&mut out, &index.o);
    let ghost head = out@;
    let ghost mut done = Seq::<Seq<u8>>::empty();
    assert(head =~= header_bytes(index.parts()));
    assert(out@ =~= head + frames(done));
    push_frame(&mut out, &index.sigma_comm.0, Ghost(head), Ghost(done));
    proof { done = done.push(index.sigma_comm.0@); }
    push_frame(&mut out, &index.sigma_comm.1, Ghost(head), Ghost(done));
    proof { done = done.push(index.sigma_comm.1@); }
    push_frame(&mut out, &index.sigma_comm.2, Ghost(head), Ghost(done));
    proof { done = done.push(index.sigma_comm.2@); }
    push_frame(&mut out, &index.ql_comm, Ghost(head), Ghost(done));
    proof { done = done.push(index.ql_comm@); }
    push_frame(&mut out, &index.qr_comm, Ghost(head), Ghost(done));
    proof { done = done.push(index.qr_comm@); }
    push_frame(&mut out, &index.qo_comm, Ghost(head), Ghost(done));
    proof { done = done.push(index.qo_comm@); }
    push_frame(&mut out, &index.qm_comm, Ghost(head), Ghost(done));
    proof { done = done.push(index.qm_comm@); }
    push_frame(&mut out, &index.qc_comm, Ghost(head), Ghost(done));
    proof { done = done.push(index.qc_comm@); }
    push_frame(&mut out, &index.rcm_comm.0, Ghost(head), Ghost(done));
    proof { done = done.push(index.rcm_comm.0@); }
    push_frame(&mut out, &index.rcm_comm.1, Ghost(head), Ghost(done));
    proof { done = done.push(index.rcm_comm.1@); }
    push_frame(&mut out, &index.rcm_comm.2, Ghost(head), Ghost(done));
    proof { done = done.push(index.rcm_comm.2@); }
    push_frame(&mut out, &index.psm_comm, Ghost(head), Ghost(done));
    proof { done = done.push(index.psm_comm@); }
    push_frame(&mut out, &index.add_comm, Ghost(head), Ghost(done));
    proof { done = done.push(index.add_comm@); }
    push_frame(&mut out, &index.mul1_comm, Ghost(head), Ghost(done));
    proof { done = done.push(index.mul1_comm@); }
    push_frame(&mut out, &index.mul2_comm, Ghost(head), Ghost(done));
    proof { done = done.push(index.mul2_comm@); }
    push_frame(&mut out, &index.emul1_comm, Ghost(head), Ghost(done));
    proof { done = done.push(index.emul1_comm@); }
    push_frame(&mut out, &index.emul2_comm, Ghost(head), Ghost(done));
    proof { done = done.push(index.emul2_comm@); }
    push_frame(&mut out, &index.emul3_comm, Ghost(head), Ghost(done));
    proof {
        done = done.push(index.emul3_comm@);
        assert(done =~= index.commitments());
    }
    out
}

fn read_u64(bytes: &[u8], pos: usize) -> (x: u64)
    requires
        pos + 8 <= bytes@.len(),
    ensures
        x == u64_at(bytes@, pos as int),
{
    let total: usize = bytes.len();
    u64_from_le_bytes(slice_subrange(bytes, pos, pos + 8))
}

fn read_field(bytes: &[u8], pos: usize) -> (x: FieldElem)
    requires
        pos + 32 <= bytes@.len(),
    ensures
        x == field_at(bytes@, pos as int),
{
    let total: usize = bytes.len();
    FieldElem {
        l0: read_u64(bytes, pos),
        l1: read_u64(bytes, pos + 8),
        l2: read_u64(bytes, pos + 16),
        l3: read_u64(bytes, pos + 24),
    }
}

fn read_bytes(bytes: &[u8], start: usize, end: usize) -> (c: CamlPastaPallasPolyComm)
    requires
        start <= end <= bytes@.len(),
    ensures
        c@ == bytes@.subrange(start as int, end as int),
{
    let mut encoding: Vec<u8> = Vec::new();
    let mut i: usize = start;
    while i < end
        invariant
            start <= i <= end <= bytes@.len(),
            encoding@ == bytes@.subrange(start as int, i as int),
        decreases end - i,
    {
        encoding.push(bytes[i]);
        i = i + 1;
        assert(encoding@ =~= bytes@.subrange(start as int, i as int));
    }
    CamlPastaPallasPolyComm { encoding }
}

/// The views of a list of commitments.
pub open spec fn views(cs: Seq<CamlPastaPallasPolyComm>) -> Seq<Seq<u8>> {
    Seq::new(cs.len(), |i: int| cs[i]@)
}

fn take_last(cs: &mut Vec<CamlPastaPallasPolyComm>) -> (c: CamlPastaPallasPolyComm)
    requires
        old(cs)@.len() > 0,
    ensures
        final(cs)@ == old(cs)@.drop_last(),
        c == old(cs)@.last(),
{
    match cs.pop() {
        Some(c) => c,
        None => CamlPastaPallasPolyComm { encoding: Vec::new() },
    }
}

fn name_commitments(cs: Vec<CamlPastaPallasPolyComm>) -> (e: CamlPlonkVerificationEvals)
    requires
        cs@.len() == FRAME_COUNT,
    ensures
        e@ == views(cs@),
{
    let mut cs = cs;
    let ghost all = cs@;
    let emul3_comm = take_last(&mut cs);
    let emul2_comm = take_last(&mut cs);
    let emul1_comm = take_last(&mut cs);
    let mul2_comm = take_last(&mut cs);
    let mul1_comm = take_last(&mut cs);
    let add_comm = take_last(&mut cs);
    let psm_comm = take_last(&mut cs);
    let rcm_comm2 = take_last(&mut cs);
    let rcm_comm1 = take_last(&mut cs);
    let rcm_comm0 = take_last(&mut cs);
    let qc_comm = take_last(&mut cs);
    let qm_comm = take_last(&mut cs);
    let qo_comm = take_last(&mut cs);
    let qr_comm = take_last(&mut cs);
    let ql_comm = take_last(&mut cs);
    let sigma_comm2 = take_last(&mut cs);
    let sigma_comm1 = take_last(&mut cs);
    let sigma_comm0 = take_last(&mut cs);
    let e = CamlPlonkVerificationEvals {
        sigma_comm0, sigma_comm1, sigma_comm2,
        ql_comm, qr_comm, qo_comm, qm_comm, qc_comm,
        rcm_comm0, rcm_comm1, rcm_comm2,
        psm_comm, add_comm, mul1_comm, mul2_comm,
        emul1_comm, emul2_comm, emul3_comm,
    };
    assert(e@ =~= views(all));
    e
}

/// Reads the values of an index from a stream. Succeeds exactly on a
/// well-framed stream, with what it holds.
pub fn decode_index(bytes: &[u8]) -> (res: Result<DecodedIndex, IndexError>)
    ensures
        match res {
            Ok(d) => well_framed(bytes@) && d.holds(bytes@),
            Err(e) => e == IndexError::DeserializationError && !well_framed(bytes@),
        },
{
    if bytes.len() < HEADER_LEN {
        return Err(IndexError::DeserializationError);
    }
    let log = read_u64(bytes, 0);
    let max_poly = read_u64(bytes, 8);
    let max_quot = read_u64(bytes, 16);
    let r = read_field(bytes, 24);
    let o = read_field(bytes, 56);
    if log > TWO_ADICITY as u64
        || max_poly > usize::MAX as u64
        || max_quot > usize::MAX as u64
        || !r.check_canonical()
        || !o.check_canonical() {
        return Err(IndexError::DeserializationError);
    }
    let mut cs: Vec<CamlPastaPallasPolyComm> = Vec::new();
    let mut pos: usize = HEADER_LEN;
    let mut i: usize = 0;
    while i < FRAME_COUNT
        invariant
            i <= FRAME_COUNT,
            HEADER_LEN <= pos <= bytes@.len(),
            cs@.len() == i,
            end_of_frames(bytes@, HEADER_LEN as int, FRAME_COUNT as nat)
                == end_of_frames(bytes@, pos as int, (FRAME_COUNT - i) as nat),
            frames_at(bytes@, HEADER_LEN as int, FRAME_COUNT as nat) == views(cs@)
                + frames_at(bytes@, pos as int, (FRAME_COUNT - i) as nat),
        decreases FRAME_COUNT - i,
    {
        if bytes.len() - pos < 8 {
            return Err(IndexError::DeserializationError);
        }
        let len = read_u64(bytes, pos);
        if len > (bytes.len() - pos - 8) as u64 {
            return Err(IndexError::DeserializationError);
        }
        let next: usize = pos + 8 + len as usize;
        let c = read_bytes(bytes, pos + 8, next);
        let ghost before = views(cs@);
        cs.push(c);
        proof {
            assert(views(cs@) =~= before.push(bytes@.subrange(pos + 8, next as int)));
            assert(views(cs@) + frames_at(bytes@, next as int, (FRAME_COUNT - i - 1) as nat)
                =~= before + frames_at(bytes@, pos as int, (FRAME_COUNT - i) as nat));
        }
        pos = next;
        i = i + 1;
    }
    if pos != bytes.len() {
        return Err(IndexError::DeserializationError);
    }
    let ghost all = cs@;
    assert(frames_at(bytes@, HEADER_LEN as int, FRAME_COUNT as nat) =~= views(all));
    let evals = name_commitments(cs);
    Ok(DecodedIndex {
        max_poly_size: max_poly as usize,
        max_quot_size: max_quot as usize,
        log_size_of_group: log as u32,
        evals,
        shifts: CamlPlonkVerificationShifts { r, o },
    })
}

/// Reads an index from a stream and attaches the string behind `urs` to
/// it by one more reference. A stream that is not well framed is refused
/// and nothing is built; on a well-framed one the index is built from what
/// the stream holds, as `of_ocaml` builds it.
pub fn read_raw(
    registry: &mut UrsRegistry,
    fr_sponge_params: SpongeParams,
    fq_sponge_params: SpongeParams,
    urs: CamlPastaFqUrs,
    bytes: &[u8],
) -> (res: Result<CamlPastaFqPlonkVerifierIndexRaw, IndexError>)
    requires
        old(registry).wf(),
    ensures
        final(registry).wf(),
        well_framed(bytes@)
            ==> built_from_parts(res, old(registry)@, final(registry)@, (fr_sponge_params@, fq_sponge_params@), decoded(bytes@, urs)),
        !well_framed(bytes@) ==> final(registry)@ == old(registry)@ && res is Err
            && res->Err_0 == IndexError::DeserializationError,
{
    let d = decode_index(bytes)?;
    assert(d.parts(urs) == decoded(bytes@, urs));
    of_ocaml(
        registry,
        fr_sponge_params,
        fq_sponge_params,
        d.max_poly_size,
        d.max_quot_size,
        d.log_size_of_group,
        urs,
        d.evals,
        d.shifts,
    )
}

/// Reads a raw index from a stream: `read_raw` under the name by which
/// callers outside reach it.
pub fn caml_pasta_fq_plonk_verifier_index_raw_read(
    registry: &mut UrsRegistry,
    fr_sponge_params: SpongeParams,
    fq_sponge_params: SpongeParams,
    urs: CamlPastaFqUrs,
    bytes: &[u8],
) -> (res: Result<CamlPastaFqPlonkVerifierIndexRaw, IndexError>)
    requires
        old(registry).wf(),
    ensures
        final(registry).wf(),
        well_framed(bytes@)
            ==> built_from_parts(res, old(registry)@, final(registry)@, (fr_sponge_params@, fq_sponge_params@), decoded(bytes@, urs)),
        !well_framed(bytes@) ==> final(registry)@ == old(registry)@ && res is Err
            && res->Err_0 == IndexError::DeserializationError,
{
    read_raw(registry, fr_sponge_params, fq_sponge_params, urs, bytes)
}

/// Reads a flat index from a stream. The reference that reading took
/// passes on to the flat index.
pub fn caml_pasta_fq_plonk_verifier_index_read(
    registry: &mut UrsRegistry,
    fr_sponge_params: SpongeParams,
    fq_sponge_params: SpongeParams,
    urs: CamlPastaFqUrs,
    bytes: &[u8],
) -> (res: Result<CamlPlonkVerifierIndex, IndexError>)
    requires
        old(registry).wf(),
    ensures
        final(registry).wf(),
        match res {
            Ok(c) => {
                &&& well_framed(bytes@)
                &&& can_share(old(registry)@, urs.id as int)
                &&& final(registry)@ == spec_share(old(registry)@, urs.id as int)
                &&& c.parts() == decoded(bytes@, urs)
                &&& c.domain.group_gen.wf_generator(pow2(c.domain.log_size_of_group as nat) as u64)
            },
            Err(e) => {
                &&& final(registry)@ == old(registry)@
                &&& if well_framed(bytes@) {
                    e == IndexError::UrsNotLive && !can_share(old(registry)@, urs.id as int)
                } else {
                    e == IndexError::DeserializationError
                }
            },
        },
{
    let raw = read_raw(registry, fr_sponge_params, fq_sponge_params, urs, bytes)?;
    Ok(flatten(raw.1, raw.0))
}

/// Writes a raw index as a stream: `write_raw` under the name by which
/// callers outside reach it.
pub fn caml_pasta_fq_plonk_verifier_index_raw_write(
    index: &CamlPastaFqPlonkVerifierIndexRaw,
) -> (out: Vec<u8>)
    ensures
        out@ == encode(index.0.parts()),
{
    write_raw(&index.0)
}

/// Writes a flat index as a stream. Fails exactly when the field has no
/// subgroup of the index's domain size.
pub fn caml_pasta_fq_plonk_verifier_index_write(
    index: CamlPlonkVerifierIndex,
) -> (res: Result<Vec<u8>, IndexError>)
    ensures
        match res {
            Ok(out) => index.domain.log_size_of_group <= TWO_ADICITY && out@ == encode(index.parts()),
            Err(e) => e == IndexError::InvalidDomainSize && index.domain.log_size_of_group > TWO_ADICITY,
        },
{
    let derived = derive_for(index.domain.log_size_of_group)?;
    let fr_sponge_params = SpongeParams { round_constants: Vec::new(), mds: Vec::new() };
    let fq_sponge_params = SpongeParams { round_constants: Vec::new(), mds: Vec::new() };
    let raw = assemble(
        derived,
        fr_sponge_params,
        fq_sponge_params,
        index.max_poly_size,
        index.max_quot_size,
        index.urs,
        index.evals,
        index.shifts,
    );
    Ok(write_raw(&raw))
}

/// The supplied values can be written and read back: the domain size is
/// one that the field supports, the shifts are canonical, and there are
/// eighteen commitments, each of a length that eight bytes can hold.
pub open spec fn encodable(p: IndexParts) -> bool {
    &&& p.log_size_of_group <= TWO_ADICITY
    &&& p.shifts.r.is_canonical()
    &&& p.shifts.o.is_canonical()
    &&& p.commitments.len() == FRAME_COUNT
    &&& forall|i: int| 0 <= i < p.commitments.len() ==> (#[trigger] p.commitments[i]).len() <= u64::MAX
}

/// The integer written at the end of `head` is read back from there.
pub proof fn lemma_u64_at_written(head: Seq<u8>, x: u64, tail: Seq<u8>)
    ensures
        u64_at(head + spec_u64_to_le_bytes(x) + tail, head.len() as int) == x,
        spec_u64_to_le_bytes(x).len() == 8,
{
    lemma_auto_spec_u64_to_from_le_bytes();
    let b = head + spec_u64_to_le_bytes(x) + tail;
    let h = head.len() as int;
    assert(b.subrange(h, h + 8) =~= spec_u64_to_le_bytes(x));
}

/// The field element written at the end of `head` is read back from there.
pub proof fn lemma_field_at_written(head: Seq<u8>, x: FieldElem, tail: Seq<u8>)
    ensures
        field_at(head + field_bytes(x) + tail, head.len() as int) == x,
        field_bytes(x).len() == 32,
{
    let b = head + field_bytes(x) + tail;
    let b0 = spec_u64_to_le_bytes(x.l0);
    let b1 = spec_u64_to_le_bytes(x.l1);
    let b2 = spec_u64_to_le_bytes(x.l2);
    let b3 = spec_u64_to_le_bytes(x.l3);
    lemma_u64_at_written(head, x.l0, b1 + b2 + b3 + tail);
    lemma_u64_at_written(head + b0, x.l1, b2 + b3 + tail);
    lemma_u64_at_written(head + b0 + b1, x.l2, b3 + tail);
    lemma_u64_at_written(head + b0 + b1 + b2, x.l3, tail);
    assert(b =~= head + b0 + (b1 + b2 + b3 + tail));
    assert(b =~= head + b0 + b1 + (b2 + b3 + tail));
    assert(b =~= head + b0 + b1 + b2 + (b3 + tail));
    assert(b =~= head + b0 + b1 + b2 + b3 + tail);
}

/// Frames written behind `head` are read back from there, and end where
/// the stream ends.
pub proof fn lemma_frames_read_back(head: Seq<u8>, cs: Seq<Seq<u8>>)
    requires
        forall|i: int| 0 <= i < cs.len() ==> (#[trigger] cs[i]).len() <= u64::MAX,
    ensures
        end_of_frames(head + frames(cs), head.len() as int, cs.len())
            == Some((head + frames(cs)).len() as int),
        frames_at(head + frames(cs), head.len() as int, cs.len()) == cs,
    decreases cs.len(),
{
    let b = head + frames(cs);
    if cs.len() == 0 {
        assert(frames_at(b, head.len() as int, 0) =~= cs);
    } else {
        let c = cs[0];
        let rest = cs.skip(1);
        let head2 = head + frame(c);
        lemma_u64_at_written(head, c.len() as u64, c + frames(rest));
        assert(b =~= head + spec_u64_to_le_bytes(c.len() as u64) + (c + frames(rest)));
        assert(b =~= head2 + frames(rest));
        assert forall|i: int| 0 <= i < rest.len() implies (#[trigger] rest[i]).len() <= u64::MAX by {
            assert(rest[i] == cs[i + 1]);
        }
        lemma_frames_read_back(head2, rest);
        let h = head.len() as int;
        assert(b.subrange(h + 8, h + 8 + c.len()) =~= c);
        assert(seq![c] + rest =~= cs);
    }
}

/// Round trip: the stream of encodable values is well framed, and holds
/// exactly those values.
pub proof fn lemma_round_trip(p: IndexParts)
    requires
        encodable(p),
    ensures
        well_framed(encode(p)),
        decoded(encode(p), p.urs) == p,
{
    let e = Seq::<u8>::empty();
    let b0 = spec_u64_to_le_bytes(p.log_size_of_group as u64);
    let b1 = spec_u64_to_le_bytes(p.max_poly_size as u64);
    let b2 = spec_u64_to_le_bytes(p.max_quot_size as u64);
    let b3 = field_bytes(p.shifts.r);
    let b4 = field_bytes(p.shifts.o);
    let f = frames(p.commitments);
    let b = encode(p);
    lemma_u64_at_written(e, p.log_size_of_group as u64, b1 + b2 + b3 + b4 + f);
    lemma_u64_at_written(b0, p.max_poly_size as u64, b2 + b3 + b4 + f);
    lemma_u64_at_written(b0 + b1, p.max_quot_size as u64, b3 + b4 + f);
    lemma_field_at_written(b0 + b1 + b2, p.shifts.r, b4 + f);
    lemma_field_at_written(b0 + b1 + b2 + b3, p.shifts.o, f);
    assert(b =~= e + b0 + (b1 + b2 + b3 + b4 + f));
    assert(b =~= b0 + b1 + (b2 + b3 + b4 + f));
    assert(b =~= b0 + b1 + b2 + (b3 + b4 + f));
    assert(b =~= b0 + b1 + b2 + b3 + (b4 + f));
    assert(b =~= b0 + b1 + b2 + b3 + b4 + f);
    lemma_frames_read_back(header_bytes(p), p.commitments);
    assert(header_bytes(p).len() == HEADER_LEN);
}

/// A stream cut short within its frames does not end where its frames end.
pub proof fn lemma_cut_frames(head: Seq<u8>, cs: Seq<Seq<u8>>, n: int)
    requires
        forall|i: int| 0 <= i < cs.len() ==> (#[trigger] cs[i]).len() <= u64::MAX,
        head.len() <= n < (head + frames(cs)).len(),
    ensures
        end_of_frames((head + frames(cs)).subrange(0, n), head.len() as int, cs.len()) != Some(n),
    decreases cs.len(),
{
    let b = head + frames(cs);
    let t = b.subrange(0, n);
    if cs.len() == 0 {
        assert(frames(cs) =~= Seq::<u8>::empty());
    } else {
        let c = cs[0];
        let rest = cs.skip(1);
        let head2 = head + frame(c);
        lemma_u64_at_written(head, c.len() as u64, c + frames(rest));
        assert(b =~= head + spec_u64_to_le_bytes(c.len() as u64) + (c + frames(rest)));
        assert(b =~= head2 + frames(rest));
        if head.len() + 8 <= n {
            let h = head.len() as int;
            assert(t.subrange(h, h + 8) =~= b.subrange(h, h + 8));
            if head.len() + 8 + c.len() <= n {
                assert forall|i: int| 0 <= i < rest.len() implies (#[trigger] rest[i]).len() <= u64::MAX by {
                    assert(rest[i] == cs[i + 1]);
                }
                lemma_cut_frames(head2, rest, n);
            }
        }
    }
}

/// Truncation: no proper prefix of the stream of encodable values is well
/// framed.
pub proof fn lemma_truncated_rejected(p: IndexParts, n: int)
    requires
        encodable(p),
        0 <= n < encode(p).len(),
    ensures
        !well_framed(encode(p).subrange(0, n)),
{
    lemma_round_trip(p);
    if n >= HEADER_LEN {
        lemma_auto_spec_u64_to_from_le_bytes();
        lemma_field_at_written(Seq::<u8>::empty(), p.shifts.r, Seq::<u8>::empty());
        lemma_field_at_written(Seq::<u8>::empty(), p.shifts.o, Seq::<u8>::empty());
        assert(header_bytes(p).len() == HEADER_LEN);
        lemma_cut_frames(header_bytes(p), p.commitments, n);
    }
}

/// The frames that a stream holds between two places are the frames of
/// what is read from there, and each is of a length that eight bytes hold.
pub proof fn lemma_frames_are_encoding(bytes: Seq<u8>, pos: int, count: nat)
    requires
        0 <= pos <= bytes.len(),
        end_of_frames(bytes, pos, count) is Some,
    ensures
        pos <= end_of_frames(bytes, pos, count).unwrap() <= bytes.len(),
        bytes.subrange(pos, end_of_frames(bytes, pos, count).unwrap())
            == frames(frames_at(bytes, pos, count)),
        frames_at(bytes, pos, count).len() == count,
        forall|i: int| 0 <= i < count ==> (#[trigger] frames_at(bytes, pos, count)[i]).len() <= u64::MAX,
    decreases count,
{
    let end = end_of_frames(bytes, pos, count).unwrap();
    let cs = frames_at(bytes, pos, count);
    if count == 0 {
        assert(bytes.subrange(pos, pos) =~= Seq::<u8>::empty());
    } else {
        let len = u64_at(bytes, pos);
        let next = pos + 8 + len;
        let rest = frames_at(bytes, next, (count - 1) as nat);
        let c = bytes.subrange(pos + 8, next);
        lemma_frames_are_encoding(bytes, next, (count - 1) as nat);
        lemma_auto_spec_u64_to_from_le_bytes();
        assert(cs == seq![c] + rest);
        assert(cs[0] == c);
        assert(cs.skip(1) =~= rest);
        let first = bytes.subrange(pos, pos + 8);
        assert(spec_u64_to_le_bytes(spec_u64_from_le_bytes(first)) == first);
        assert(frame(c) =~= bytes.subrange(pos, next));
        if count == 1 {
            assert(end == next);
        }
        assert(bytes.subrange(pos, end) =~= bytes.subrange(pos, next) + bytes.subrange(next, end));
        assert forall|i: int| 0 <= i < count implies (#[trigger] cs[i]).len() <= u64::MAX by {
            if i > 0 {
                assert(cs[i] == rest[i - 1]);
            }
        }
    }
}

/// The integer read at `pos` is written there.
pub proof fn lemma_u64_written_at(bytes: Seq<u8>, pos: int)
    requires
        0 <= pos,
        pos + 8 <= bytes.len(),
    ensures
        spec_u64_to_le_bytes(u64_at(bytes, pos)) == bytes.subrange(pos, pos + 8),
{
    lemma_auto_spec_u64_to_from_le_bytes();
}

/// The field element read at `pos` is written there.
pub proof fn lemma_field_written_at(bytes: Seq<u8>, pos: int)
    requires
        0 <= pos,
        pos + 32 <= bytes.len(),
    ensures
        field_bytes(field_at(bytes, pos)) == bytes.subrange(pos, pos + 32),
{
    lemma_u64_written_at(bytes, pos);
    lemma_u64_written_at(bytes, pos + 8);
    lemma_u64_written_at(bytes, pos + 16);
    lemma_u64_written_at(bytes, pos + 24);
    assert(field_bytes(field_at(bytes, pos)) =~= bytes.subrange(pos, pos + 32));
}

/// A well-framed stream is the stream of what it holds, and what it holds
/// can be written: reading accepts the written streams and no others.
pub proof fn lemma_well_framed_is_written(bytes: Seq<u8>, urs: CamlPastaFqUrs)
    requires
        well_framed(bytes),
    ensures
        encodable(decoded(bytes, urs)),
        encode(decoded(bytes, urs)) == bytes,
{
    let p = decoded(bytes, urs);
    lemma_u64_written_at(bytes, 0);
    lemma_u64_written_at(bytes, 8);
    lemma_u64_written_at(bytes, 16);
    lemma_field_written_at(bytes, 24);
    lemma_field_written_at(bytes, 56);
    assert(header_bytes(p) =~= bytes.subrange(0, HEADER_LEN as int));
    lemma_frames_are_encoding(bytes, HEADER_LEN as int, FRAME_COUNT as nat);
    assert(bytes =~= bytes.subrange(0, HEADER_LEN as int)
        + bytes.subrange(HEADER_LEN as int, bytes.len() as int));
}

} // verus!
