use plonk_verifier_index::builder::caml_pasta_fq_plonk_verifier_index_shifts;
use plonk_verifier_index::domain::{domain_of_log_size, make_domain};
use plonk_verifier_index::error::IndexError;
use plonk_verifier_index::field::{endo_coefficient, FieldElem};
use plonk_verifier_index::index::{derive_for, zk_power};
use plonk_verifier_index::shifts::sample_shifts;

fn elem(l: [u64; 4]) -> FieldElem {
    FieldElem { l0: l[0], l1: l[1], l2: l[2], l3: l[3] }
}

#[test]
fn domain_of_size_eight() {
    let d = make_domain(8).unwrap();
    assert_eq!(d.size, 8);
    assert_eq!(d.log_size, 3);
    assert_eq!(
        d.generator,
        elem([0x1ba3a33bc04980a4, 0x7e538bca7c94ad2b, 0xaa5f610ed09c17fe, 0x3a57bee9fb370430])
    );
}

#[test]
fn generator_has_exact_order() {
    for log in 0..=32u32 {
        let size = 1u64 << log;
        let d = make_domain(size).unwrap();
        assert_eq!(d.size, size);
        assert_eq!(d.log_size, log);
        assert_eq!(d.generator.pow(size), FieldElem::one());
        if size > 1 {
            assert_ne!(d.generator.pow(size / 2), FieldElem::one());
        }
    }
}

#[test]
fn smallest_domains() {
    assert_eq!(make_domain(1).unwrap().generator, FieldElem::one());
    assert_eq!(
        make_domain(2).unwrap().generator,
        elem([0x8c46eb2100000000, 0x224698fc0994a8dd, 0, 0x4000000000000000])
    );
}

#[test]
fn largest_domain() {
    let d = make_domain(1 << 32).unwrap();
    assert_eq!(d.log_size, 32);
    assert_eq!(
        d.generator,
        elem([0xa70e2c1102b6d05f, 0x9bb97ea3c106f049, 0x9e5c4dfd492ae26e, 0x2de6a9b8746d3f58])
    );
}

#[test]
fn invalid_domain_sizes() {
    for size in [0u64, 3, 6, 12, 1000, (1 << 32) + 1, 1 << 33, 1 << 63, u64::MAX] {
        assert_eq!(make_domain(size), Err(IndexError::InvalidDomainSize));
    }
    assert_eq!(domain_of_log_size(33), Err(IndexError::InvalidDomainSize));
    assert_eq!(domain_of_log_size(u32::MAX), Err(IndexError::InvalidDomainSize));
}

#[test]
fn domain_is_deterministic() {
    assert_eq!(make_domain(64), make_domain(64));
    assert_eq!(make_domain(64), domain_of_log_size(6));
}

#[test]
fn power_is_exact() {
    assert_eq!(FieldElem::from_u64(2).pow(8), FieldElem::from_u64(256));
    assert_eq!(FieldElem::from_u64(3).pow(8), FieldElem::from_u64(6561));
    assert_eq!(FieldElem::from_u64(7).pow(0), FieldElem::one());
    assert_eq!(FieldElem::from_u64(7).pow(1), FieldElem::from_u64(7));
}

#[test]
fn canonical_bound() {
    assert!(elem([0x8c46eb2100000000, 0x224698fc0994a8dd, 0, 0x4000000000000000]).check_canonical());
    assert!(!elem([0x8c46eb2100000001, 0x224698fc0994a8dd, 0, 0x4000000000000000]).check_canonical());
    assert!(!elem([0, 0, 1, 0x4000000000000000]).check_canonical());
    assert!(!elem([0, 0x224698fc0994a8de, 0, 0x4000000000000000]).check_canonical());
    assert!(elem([u64::MAX, u64::MAX, u64::MAX, 0x3fffffffffffffff]).check_canonical());
    assert!(!elem([0, 0, 0, 0x4000000000000001]).check_canonical());
    assert!(FieldElem::from_u64(u64::MAX).check_canonical());
}

#[test]
fn endo_is_a_cube_root_of_unity() {
    let endo = endo_coefficient();
    assert_eq!(
        endo,
        elem([0x2aa9d2e050aa0e4f, 0x0fed467d47c033af, 0x511db4d81cf70f5a, 0x06819a58283e528e])
    );
    assert_ne!(endo, FieldElem::one());
    assert_eq!(endo.pow(3), FieldElem::one());
}

#[test]
fn zk_powers_of_size_eight() {
    let d = make_domain(8).unwrap();
    let w1 = elem([0x70a347e53fb67f5d, 0xa3f30d318cfffbb2, 0x55a09ef12f63e801, 0x05a8411604c8fbcf]);
    let w2 = elem([0x2f17c7c5b54146ea, 0xd83233f67234d59a, 0x829a559cec3cab14, 0x096e31eea5205ee7]);
    let w3 = elem([0xe3150bd41ddcfce1, 0xbd460debd267658d, 0x1bc537d6e0b38401, 0x35440f7ab6dbe8d2]);
    assert_eq!(zk_power(&d, 3), w1);
    assert_eq!(zk_power(&d, 2), w2);
    assert_eq!(zk_power(&d, 1), w3);
    let derived = derive_for(3).unwrap();
    assert_eq!(derived.domain, d);
    assert_eq!(derived.w, w1);
    assert_eq!(derived.zkpm.root0, w1);
    assert_eq!(derived.zkpm.root1, w2);
    assert_eq!(derived.zkpm.root2, w3);
    assert_eq!(derived.endo, endo_coefficient());
}

#[test]
fn zk_powers_of_small_domains() {
    let d1 = make_domain(1).unwrap();
    assert_eq!(zk_power(&d1, 3), FieldElem::one());
    let d2 = make_domain(2).unwrap();
    assert_eq!(zk_power(&d2, 3), d2.generator);
    assert_eq!(zk_power(&d2, 2), FieldElem::one());
    assert_eq!(zk_power(&d2, 1), d2.generator);
}

#[test]
fn derive_rejects_large_domains() {
    assert_eq!(derive_for(33), Err(IndexError::InvalidDomainSize));
}

#[test]
fn shifts_of_size_eight() {
    let d = make_domain(8).unwrap();
    let s = sample_shifts(&d).unwrap();
    assert_eq!(s.r, FieldElem::from_u64(2));
    assert_eq!(s.o, FieldElem::from_u64(3));
}

#[test]
fn shifts_are_deterministic() {
    for log in [0u32, 1, 5, 16, 32] {
        let d = domain_of_log_size(log).unwrap();
        assert_eq!(sample_shifts(&d), sample_shifts(&d));
        assert_eq!(sample_shifts(&d), caml_pasta_fq_plonk_verifier_index_shifts(log));
    }
}

#[test]
fn shifts_give_disjoint_cosets() {
    for log in [0u32, 3, 10, 32] {
        let d = domain_of_log_size(log).unwrap();
        let s = sample_shifts(&d).unwrap();
        let r = s.r.pow(d.size);
        let o = s.o.pow(d.size);
        assert_ne!(r, FieldElem::one());
        assert_ne!(o, FieldElem::one());
        assert_ne!(r, o);
    }
}

#[test]
fn shifts_of_an_unsupported_size() {
    assert_eq!(
        caml_pasta_fq_plonk_verifier_index_shifts(33),
        Err(IndexError::InvalidDomainSize)
    );
}
