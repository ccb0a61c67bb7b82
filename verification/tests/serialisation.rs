use ark_bls12_381::{Fq, G1Affine};
use ark_ec::AffineCurve;
use ark_ff::ToBytes;
use powers_of_tau::accumulator::{contribute, contribute_with_key, Accumulator, ContributeError, Parameters};
use powers_of_tau::g1::G1Point;
use powers_of_tau::g2::G2Point;
use powers_of_tau::keypair::PrivateKey;
use powers_of_tau::serialisation::{DeserialiseError, SubgroupCheck};

fn kzg_params(n: usize) -> Parameters {
    Parameters { num_g1_elements_needed: n, num_g2_elements_needed: 2 }
}

// A point on the curve of G1 that is not in the group of prime order.
fn g1_outside_subgroup() -> [u8; 97] {
    let mut x = 1u64;
    loop {
        if let Some(p) = G1Affine::get_point_from_x(Fq::from(x), false) {
            if !p.is_in_correct_subgroup_assuming_on_curve() {
                let mut bytes = [0u8; 97];
                p.write(&mut bytes[..]).unwrap();
                return bytes;
            }
        }
        x += 1;
    }
}

#[test]
fn serialise_lays_points_end_to_end() {
    let acc = Accumulator::new_for_kzg(3);
    let bytes = acc.serialise();
    assert_eq!(bytes.len(), 3 * 97 + 2 * 193);
    let g1 = G1Point::generator().to_bytes();
    let g2 = G2Point::generator().to_bytes();
    assert_eq!(&bytes[0..97], &g1[..]);
    assert_eq!(&bytes[194..291], &g1[..]);
    assert_eq!(&bytes[291..484], &g2[..]);
    assert_eq!(&bytes[484..677], &g2[..]);
}

#[test]
fn round_trip_in_both_modes() {
    let mut acc = Accumulator::new_for_kzg(5);
    acc.update(PrivateKey::from_u64(42));
    let bytes = acc.serialise();
    for check in [SubgroupCheck::Full, SubgroupCheck::Partial] {
        let back = Accumulator::deserialise(&bytes, kzg_params(5), check).unwrap();
        assert_eq!(back.num_g1_elements(), 5);
        assert_eq!(back.num_g2_elements(), 2);
        for i in 0..5 {
            assert_eq!(back.g1_element(i), acc.g1_element(i));
        }
        for i in 0..2 {
            assert_eq!(back.g2_element(i), acc.g2_element(i));
        }
        assert_eq!(back.serialise(), bytes);
    }
}

#[test]
fn deserialise_rejects_wrong_length() {
    let mut bytes = Accumulator::new_for_kzg(3).serialise();
    bytes.pop();
    assert_eq!(
        Accumulator::deserialise(&bytes, kzg_params(3), SubgroupCheck::Full).unwrap_err(),
        DeserialiseError::WrongLength
    );
    let whole = Accumulator::new_for_kzg(3).serialise();
    assert_eq!(
        Accumulator::deserialise(&whole, kzg_params(4), SubgroupCheck::Partial).unwrap_err(),
        DeserialiseError::WrongLength
    );
    assert!(Accumulator::deserialise(&[], kzg_params(0), SubgroupCheck::Full).is_err());
}

#[test]
fn deserialise_rejects_malformed_encoding() {
    let mut bytes = Accumulator::new_for_kzg(3).serialise();
    bytes[96] = 2;
    assert_eq!(
        Accumulator::deserialise(&bytes, kzg_params(3), SubgroupCheck::Partial).unwrap_err(),
        DeserialiseError::MalformedEncoding
    );
    let mut bytes = Accumulator::new_for_kzg(3).serialise();
    for b in bytes[97..145].iter_mut() {
        *b = 0xff;
    }
    assert_eq!(
        Accumulator::deserialise(&bytes, kzg_params(3), SubgroupCheck::Partial).unwrap_err(),
        DeserialiseError::MalformedEncoding
    );
}

#[test]
fn deserialise_rejects_point_off_the_curve() {
    let mut bytes = Accumulator::new_for_kzg(3).serialise();
    bytes[2 * 97] ^= 1;
    assert_eq!(
        Accumulator::deserialise(&bytes, kzg_params(3), SubgroupCheck::Partial).unwrap_err(),
        DeserialiseError::NotOnCurve
    );
    let mut bytes = Accumulator::new_for_kzg(3).serialise();
    bytes[3 * 97 + 193] ^= 1;
    assert_eq!(
        Accumulator::deserialise(&bytes, kzg_params(3), SubgroupCheck::Full).unwrap_err(),
        DeserialiseError::NotOnCurve
    );
}

#[test]
fn deserialise_rejects_subgroup_violation() {
    let outside = g1_outside_subgroup();
    let mut bytes = Accumulator::new_for_kzg(3).serialise();
    bytes[97..194].copy_from_slice(&outside);
    assert_eq!(
        Accumulator::deserialise(&bytes, kzg_params(3), SubgroupCheck::Partial).unwrap_err(),
        DeserialiseError::SubgroupViolation
    );
    assert_eq!(
        Accumulator::deserialise(&bytes, kzg_params(3), SubgroupCheck::Full).unwrap_err(),
        DeserialiseError::SubgroupViolation
    );
}

#[test]
fn partial_check_tests_only_degree_one() {
    let outside = g1_outside_subgroup();
    let mut bytes = Accumulator::new_for_kzg(3).serialise();
    bytes[194..291].copy_from_slice(&outside);
    assert!(Accumulator::deserialise(&bytes, kzg_params(3), SubgroupCheck::Partial).is_ok());
    assert_eq!(
        Accumulator::deserialise(&bytes, kzg_params(3), SubgroupCheck::Full).unwrap_err(),
        DeserialiseError::SubgroupViolation
    );
}

#[test]
fn first_fault_decides() {
    let mut bytes = Accumulator::new_for_kzg(3).serialise();
    bytes[0] ^= 1;
    bytes[97 + 96] = 7;
    assert_eq!(
        Accumulator::deserialise(&bytes, kzg_params(3), SubgroupCheck::Full).unwrap_err(),
        DeserialiseError::NotOnCurve
    );
}

#[test]
fn contribute_with_key_updates_the_bytes() {
    let start = Accumulator::new_for_kzg(4);
    let out = contribute_with_key(&start.serialise(), 4, 2, PrivateKey::from_u64(9)).unwrap();
    let mut expected = Accumulator::new_for_kzg(4);
    expected.update(PrivateKey::from_u64(9));
    assert_eq!(out, expected.serialise());
}

#[test]
fn contribute_gives_a_sound_accumulator() {
    let start = Accumulator::new_for_kzg(4);
    let out = contribute(start.serialise(), 4, 2).unwrap();
    assert_eq!(out.len(), 4 * 97 + 2 * 193);
    let after = Accumulator::deserialise(&out, kzg_params(4), SubgroupCheck::Full).unwrap();
    assert!(after.structure_check());
    assert_eq!(after.g1_element(0), G1Point::generator());
    assert_ne!(after.g1_element(1), G1Point::generator());
}

#[test]
fn contribute_surfaces_errors() {
    let start = Accumulator::new_for_kzg(4);
    assert_eq!(
        contribute(start.serialise(), 5, 2).unwrap_err(),
        ContributeError::Deserialise(DeserialiseError::WrongLength)
    );
    let small = Accumulator::new_for_kzg(1);
    assert_eq!(
        contribute_with_key(&small.serialise(), 1, 2, PrivateKey::from_u64(3)).unwrap_err(),
        ContributeError::TooFewElements
    );
    let mut bad = start.serialise();
    bad[97] ^= 1;
    assert_eq!(
        contribute(bad, 4, 2).unwrap_err(),
        ContributeError::Deserialise(DeserialiseError::NotOnCurve)
    );
}
