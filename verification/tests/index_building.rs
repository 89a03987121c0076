use plonk_verifier_index::builder::{
    caml_pasta_fq_plonk_verifier_index_create, caml_pasta_fq_plonk_verifier_index_ocaml_of_raw,
    caml_pasta_fq_plonk_verifier_index_raw_create, caml_pasta_fq_plonk_verifier_index_raw_of_ocaml,
    caml_pasta_fq_plonk_verifier_index_raw_of_parts, named_commitments, of_ocaml, to_ocaml,
    to_ocaml_copy, verifier_index,
};
use plonk_verifier_index::domain::make_domain;
use plonk_verifier_index::error::IndexError;
use plonk_verifier_index::field::{endo_coefficient, FieldElem};
use plonk_verifier_index::index::{
    CamlPastaFqPlonkIndex, CamlPastaPallasPolyComm, CamlPlonkVerificationEvals, SpongeParams,
};
use plonk_verifier_index::serial::{
    caml_pasta_fq_plonk_verifier_index_raw_write, caml_pasta_fq_plonk_verifier_index_read,
    caml_pasta_fq_plonk_verifier_index_raw_read, caml_pasta_fq_plonk_verifier_index_write,
    decode_index, read_raw, write_raw,
};
use plonk_verifier_index::shifts::{sample_shifts, CamlPlonkVerificationShifts};
use plonk_verifier_index::urs::{CamlPastaFqUrs, UrsRegistry};

fn comm(seed: u8, len: usize) -> CamlPastaPallasPolyComm {
    CamlPastaPallasPolyComm { encoding: (0..len).map(|i| seed.wrapping_add(i as u8)).collect() }
}

fn evals_of(f: &dyn Fn(u8) -> CamlPastaPallasPolyComm) -> CamlPlonkVerificationEvals {
    CamlPlonkVerificationEvals {
        sigma_comm0: f(0),
        sigma_comm1: f(1),
        sigma_comm2: f(2),
        ql_comm: f(3),
        qr_comm: f(4),
        qo_comm: f(5),
        qm_comm: f(6),
        qc_comm: f(7),
        rcm_comm0: f(8),
        rcm_comm1: f(9),
        rcm_comm2: f(10),
        psm_comm: f(11),
        add_comm: f(12),
        mul1_comm: f(13),
        mul2_comm: f(14),
        emul1_comm: f(15),
        emul2_comm: f(16),
        emul3_comm: f(17),
    }
}

fn distinct_evals() -> CamlPlonkVerificationEvals {
    evals_of(&|i| comm(i * 10, i as usize))
}

fn sponge(seed: u64) -> SpongeParams {
    SpongeParams {
        round_constants: vec![FieldElem::from_u64(seed), FieldElem::from_u64(seed + 1)],
        mds: vec![FieldElem::from_u64(seed + 2)],
    }
}

fn shifts() -> CamlPlonkVerificationShifts {
    CamlPlonkVerificationShifts { r: FieldElem::from_u64(2), o: FieldElem::from_u64(3) }
}

#[test]
fn build_from_parts() {
    let mut reg = UrsRegistry::new();
    let urs = reg.register();
    let raw = of_ocaml(&mut reg, sponge(1), sponge(5), 16, 32, 3, urs, distinct_evals(), shifts())
        .unwrap();
    assert_eq!(reg.strong_count(urs), 2);
    assert_eq!(raw.1, urs);
    let vi = &raw.0;
    assert_eq!(vi.srs, urs);
    assert_eq!(vi.domain, make_domain(8).unwrap());
    assert_eq!(vi.max_poly_size, 16);
    assert_eq!(vi.max_quot_size, 32);
    assert_eq!(vi.w, vi.domain.generator.pow(5));
    assert_eq!(vi.zkpm.root0, vi.domain.generator.pow(5));
    assert_eq!(vi.zkpm.root1, vi.domain.generator.pow(6));
    assert_eq!(vi.zkpm.root2, vi.domain.generator.pow(7));
    assert_eq!(vi.endo, endo_coefficient());
    assert_eq!(vi.fr_sponge_params, sponge(1));
    assert_eq!(vi.fq_sponge_params, sponge(5));
    assert_eq!(vi.r, FieldElem::from_u64(2));
    assert_eq!(vi.o, FieldElem::from_u64(3));
    assert_eq!(named_commitments(vi), distinct_evals());
    assert_eq!(vi.sigma_comm.1, comm(10, 1));
    assert_eq!(vi.rcm_comm.2, comm(100, 10));
    assert_eq!(vi.emul3_comm, comm(170, 17));
}

#[test]
fn build_from_parts_rejects_unsupported_domain() {
    let mut reg = UrsRegistry::new();
    let urs = reg.register();
    let res = of_ocaml(&mut reg, sponge(1), sponge(5), 16, 32, 33, urs, distinct_evals(), shifts());
    assert_eq!(res, Err(IndexError::InvalidDomainSize));
    assert_eq!(reg.strong_count(urs), 1);
}

#[test]
fn build_from_parts_rejects_dead_string() {
    let mut reg = UrsRegistry::new();
    let urs = reg.register();
    assert!(reg.drop_ref(urs));
    let before = reg.clone();
    let res = of_ocaml(&mut reg, sponge(1), sponge(5), 16, 32, 3, urs, distinct_evals(), shifts());
    assert_eq!(res, Err(IndexError::UrsNotLive));
    assert_eq!(reg, before);
    let unknown = CamlPastaFqUrs { id: 9 };
    let res = caml_pasta_fq_plonk_verifier_index_raw_of_parts(
        &mut reg, sponge(1), sponge(5), 16, 32, 3, unknown, distinct_evals(), shifts(),
    );
    assert_eq!(res, Err(IndexError::UrsNotLive));
}

#[test]
fn flat_and_raw_shapes_agree() {
    let mut reg = UrsRegistry::new();
    let urs = reg.register();
    let raw = of_ocaml(&mut reg, sponge(1), sponge(5), 16, 32, 3, urs, distinct_evals(), shifts())
        .unwrap();
    let copy = to_ocaml_copy(&mut reg, &urs, &raw.0).unwrap();
    assert_eq!(reg.strong_count(urs), 3);
    let same = caml_pasta_fq_plonk_verifier_index_ocaml_of_raw(&mut reg, &raw).unwrap();
    assert_eq!(reg.strong_count(urs), 4);
    let moved = to_ocaml(&mut reg, &urs, raw.0.clone()).unwrap();
    assert_eq!(reg.strong_count(urs), 5);
    assert_eq!(copy, moved);
    assert_eq!(copy, same);
    assert_eq!(moved.domain.log_size_of_group, 3);
    assert_eq!(moved.domain.group_gen, make_domain(8).unwrap().generator);
    assert_eq!(moved.max_poly_size, 16);
    assert_eq!(moved.max_quot_size, 32);
    assert_eq!(moved.urs, urs);
    assert_eq!(moved.evals, distinct_evals());
    assert_eq!(moved.shifts, shifts());
    let back =
        caml_pasta_fq_plonk_verifier_index_raw_of_ocaml(&mut reg, sponge(1), sponge(5), moved)
            .unwrap();
    assert_eq!(back, raw);
}

#[test]
fn flat_shape_of_a_dead_string() {
    let mut reg = UrsRegistry::new();
    let urs = reg.register();
    let raw = of_ocaml(&mut reg, sponge(1), sponge(5), 16, 32, 3, urs, distinct_evals(), shifts())
        .unwrap();
    assert!(!reg.drop_ref(urs));
    assert!(reg.drop_ref(urs));
    assert_eq!(to_ocaml_copy(&mut reg, &urs, &raw.0), Err(IndexError::UrsNotLive));
    assert_eq!(to_ocaml(&mut reg, &urs, raw.0), Err(IndexError::UrsNotLive));
    assert_eq!(reg.release_count(urs), 1);
}

#[test]
fn builders_agree() {
    let mut reg = UrsRegistry::new();
    let urs = reg.register();
    let prover_side =
        of_ocaml(&mut reg, sponge(1), sponge(5), 16, 32, 3, urs, distinct_evals(), shifts())
            .unwrap();
    let prover = CamlPastaFqPlonkIndex(prover_side.0, urs);
    assert_eq!(verifier_index(&prover), prover.0);
    let built = caml_pasta_fq_plonk_verifier_index_raw_create(&mut reg, &prover).unwrap();
    assert_eq!(reg.strong_count(urs), 3);
    let from_parts = caml_pasta_fq_plonk_verifier_index_raw_of_parts(
        &mut reg,
        sponge(1),
        sponge(5),
        prover.0.max_poly_size,
        prover.0.max_quot_size,
        prover.0.domain.log_size,
        urs,
        named_commitments(&prover.0),
        CamlPlonkVerificationShifts { r: prover.0.r, o: prover.0.o },
    )
    .unwrap();
    assert_eq!(built, from_parts);
    let flat = caml_pasta_fq_plonk_verifier_index_create(&mut reg, &prover).unwrap();
    assert_eq!(flat.evals, distinct_evals());
    assert_eq!(flat.urs, urs);
    assert_eq!(reg.strong_count(urs), 5);
}

#[test]
fn create_from_prover_with_dead_string() {
    let mut reg = UrsRegistry::new();
    let urs = reg.register();
    let raw = of_ocaml(&mut reg, sponge(1), sponge(5), 16, 32, 3, urs, distinct_evals(), shifts())
        .unwrap();
    let prover = CamlPastaFqPlonkIndex(raw.0, CamlPastaFqUrs { id: 4 });
    assert_eq!(
        caml_pasta_fq_plonk_verifier_index_raw_create(&mut reg, &prover),
        Err(IndexError::UrsNotLive)
    );
    assert_eq!(
        caml_pasta_fq_plonk_verifier_index_create(&mut reg, &prover),
        Err(IndexError::UrsNotLive)
    );
}

#[test]
fn write_then_read_scenario() {
    let d = make_domain(8).unwrap();
    let s = sample_shifts(&d).unwrap();
    let c = comm(42, 65);
    let mut reg = UrsRegistry::new();
    let urs = reg.register();
    let index = of_ocaml(&mut reg, sponge(1), sponge(5), 16, 32, d.log_size, urs, evals_of(&|_| c.clone()), s)
        .unwrap();
    let buffer = write_raw(&index.0);
    let fresh = reg.share_ref(urs).unwrap();
    let read = read_raw(&mut reg, sponge(1), sponge(5), fresh, &buffer).unwrap();
    assert_eq!(read.0.max_poly_size, 16);
    assert_eq!(read.0.max_quot_size, 32);
    assert_eq!(named_commitments(&read.0), evals_of(&|_| c.clone()));
    assert_eq!(read.0.sigma_comm.0, c);
    assert_eq!(read.0.emul3_comm, c);
    assert_eq!(read.0.r, s.r);
    assert_eq!(read.0.o, s.o);
    assert_eq!(read, index);
    assert_eq!(reg.strong_count(urs), 4);
}

#[test]
fn round_trip_keeps_every_field() {
    let mut reg = UrsRegistry::new();
    let urs = reg.register();
    for log in [0u32, 1, 7, 32] {
        let index = of_ocaml(&mut reg, sponge(1), sponge(5), usize::MAX, 0, log, urs, distinct_evals(), shifts())
            .unwrap();
        let buffer = caml_pasta_fq_plonk_verifier_index_raw_write(&index);
        let read =
            caml_pasta_fq_plonk_verifier_index_raw_read(&mut reg, sponge(1), sponge(5), urs, &buffer)
                .unwrap();
        assert_eq!(read, index);
        let flat = caml_pasta_fq_plonk_verifier_index_read(&mut reg, sponge(1), sponge(5), urs, &buffer)
            .unwrap();
        assert_eq!(flat.evals, distinct_evals());
        assert_eq!(flat.max_poly_size, usize::MAX);
        assert_eq!(flat.domain.log_size_of_group, log);
        assert_eq!(flat.domain.group_gen, index.0.domain.generator);
        assert_eq!(caml_pasta_fq_plonk_verifier_index_write(flat), Ok(buffer));
    }
}

#[test]
fn exact_stream() {
    let mut reg = UrsRegistry::new();
    let urs = reg.register();
    let index = of_ocaml(&mut reg, sponge(1), sponge(5), 16, 0x0102, 3, urs, evals_of(&|i| comm(i, (i % 3) as usize)), shifts())
        .unwrap();
    let mut expected: Vec<u8> = Vec::new();
    expected.extend_from_slice(&[3, 0, 0, 0, 0, 0, 0, 0]);
    expected.extend_from_slice(&[16, 0, 0, 0, 0, 0, 0, 0]);
    expected.extend_from_slice(&[2, 1, 0, 0, 0, 0, 0, 0]);
    expected.extend_from_slice(&[2, 0, 0, 0, 0, 0, 0, 0]);
    expected.extend_from_slice(&[0; 24]);
    expected.extend_from_slice(&[3, 0, 0, 0, 0, 0, 0, 0]);
    expected.extend_from_slice(&[0; 24]);
    for i in 0..18u8 {
        let len = i % 3;
        expected.extend_from_slice(&[len, 0, 0, 0, 0, 0, 0, 0]);
        for k in 0..len {
            expected.push(i + k);
        }
    }
    assert_eq!(write_raw(&index.0), expected);
    assert_eq!(expected.len(), 88 + 18 * 8 + 6 * 3);
}

#[test]
fn truncated_streams_are_rejected() {
    let mut reg = UrsRegistry::new();
    let urs = reg.register();
    let index = of_ocaml(&mut reg, sponge(1), sponge(5), 16, 32, 3, urs, distinct_evals(), shifts())
        .unwrap();
    let buffer = write_raw(&index.0);
    let before = reg.clone();
    for n in 0..buffer.len() {
        assert_eq!(decode_index(&buffer[..n]), Err(IndexError::DeserializationError));
        assert_eq!(
            read_raw(&mut reg, sponge(1), sponge(5), urs, &buffer[..n]),
            Err(IndexError::DeserializationError)
        );
        assert_eq!(
            caml_pasta_fq_plonk_verifier_index_read(&mut reg, sponge(1), sponge(5), urs, &buffer[..n]),
            Err(IndexError::DeserializationError)
        );
    }
    assert_eq!(reg, before);
    assert!(decode_index(&buffer).is_ok());
}

#[test]
fn malformed_streams_are_rejected() {
    let mut reg = UrsRegistry::new();
    let urs = reg.register();
    let index = of_ocaml(&mut reg, sponge(1), sponge(5), 16, 32, 3, urs, distinct_evals(), shifts())
        .unwrap();
    let buffer = write_raw(&index.0);
    let mut longer = buffer.clone();
    longer.push(0);
    assert_eq!(decode_index(&longer), Err(IndexError::DeserializationError));
    let mut large_domain = buffer.clone();
    large_domain[0] = 33;
    assert_eq!(decode_index(&large_domain), Err(IndexError::DeserializationError));
    let mut bad_shift = buffer.clone();
    bad_shift[24 + 31] = 0x40;
    bad_shift[24 + 16] = 1;
    assert_eq!(decode_index(&bad_shift), Err(IndexError::DeserializationError));
    let mut bad_second_shift = buffer.clone();
    bad_second_shift[56 + 31] = 0xff;
    assert_eq!(decode_index(&bad_second_shift), Err(IndexError::DeserializationError));
    let mut long_frame = buffer.clone();
    long_frame[88 + 7] = 0xff;
    assert_eq!(decode_index(&long_frame), Err(IndexError::DeserializationError));
    assert_eq!(decode_index(&[]), Err(IndexError::DeserializationError));
}

#[test]
fn decoded_values() {
    let mut reg = UrsRegistry::new();
    let urs = reg.register();
    let index = of_ocaml(&mut reg, sponge(1), sponge(5), 16, 32, 3, urs, distinct_evals(), shifts())
        .unwrap();
    let d = decode_index(&write_raw(&index.0)).unwrap();
    assert_eq!(d.log_size_of_group, 3);
    assert_eq!(d.max_poly_size, 16);
    assert_eq!(d.max_quot_size, 32);
    assert_eq!(d.evals, distinct_evals());
    assert_eq!(d.shifts, shifts());
}

#[test]
fn reading_with_a_dead_string() {
    let mut reg = UrsRegistry::new();
    let urs = reg.register();
    let index = of_ocaml(&mut reg, sponge(1), sponge(5), 16, 32, 3, urs, distinct_evals(), shifts())
        .unwrap();
    let buffer = write_raw(&index.0);
    let other = reg.register();
    assert!(reg.drop_ref(other));
    assert_eq!(read_raw(&mut reg, sponge(1), sponge(5), other, &buffer), Err(IndexError::UrsNotLive));
    assert_eq!(
        caml_pasta_fq_plonk_verifier_index_read(&mut reg, sponge(1), sponge(5), other, &buffer),
        Err(IndexError::UrsNotLive)
    );
    assert_eq!(reg.strong_count(urs), 2);
}

#[test]
fn writing_a_flat_index_of_unsupported_size() {
    let mut reg = UrsRegistry::new();
    let urs = reg.register();
    let raw = of_ocaml(&mut reg, sponge(1), sponge(5), 16, 32, 3, urs, distinct_evals(), shifts())
        .unwrap();
    let mut flat = to_ocaml(&mut reg, &urs, raw.0).unwrap();
    flat.domain.log_size_of_group = 40;
    assert_eq!(caml_pasta_fq_plonk_verifier_index_write(flat), Err(IndexError::InvalidDomainSize));
}

#[test]
fn copies_are_equal() {
    let c = comm(3, 300);
    assert_eq!(c.copy(), c);
    assert_eq!(comm(0, 0).copy().encoding.len(), 0);
}
