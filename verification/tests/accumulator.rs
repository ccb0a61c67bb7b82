use powers_of_tau::accumulator::{vandemonde_challenge, Accumulator, Parameters};
use powers_of_tau::field::Scalar;
use powers_of_tau::g1::G1Point;
use powers_of_tau::g2::G2Point;
use powers_of_tau::keypair::PrivateKey;
use powers_of_tau::update_proof::UpdateProof;

#[test]
fn reject_private_key_one() {
    // This test ensures that one cannot update the SRS using either 0 or 1

    let before = Accumulator::new_for_kzg(100);
    let mut after = before.clone();

    let secret = PrivateKey::from_u64(1);
    let update_proof = after.update(secret);

    assert!(!Accumulator::verify_update(&before, &after, &update_proof));
}

#[test]
fn reject_private_key_zero() {
    // This test ensures that one cannot update the SRS using either 0 or 1

    let before = Accumulator::new_for_kzg(100);
    let mut after = before.clone();

    let secret = PrivateKey::from_u64(0);
    let update_proof = after.update(secret);

    assert!(!Accumulator::verify_update(&before, &after, &update_proof));
}

#[test]
fn acc_fuzz() {
    let secret_a = PrivateKey::from_u64(252);
    let secret_b = PrivateKey::from_u64(512);
    let secret_c = PrivateKey::from_u64(789);

    let mut acc = Accumulator::new_for_kzg(100);
    let start = acc.g1_element(1);

    // Simulate 3 participants updating the accumulator, one after the other
    let update_proof_1 = acc.update(secret_a);
    let update_proof_2 = acc.update(secret_b);
    let update_proof_3 = acc.update(secret_c);

    // This verifies each update proof makes the correct transition, but it does not link
    // the update proofs, so these could in theory be updates to different accumulators
    assert!(update_proof_1.verify(&start));
    assert!(update_proof_2.verify(&update_proof_1.new_accumulated_point()));
    assert!(update_proof_3.verify(&update_proof_2.new_accumulated_point()));

    // Here we also verify the chain, if elements in the vector are out of place, the proof will also fail
    assert!(UpdateProof::verify_chain(
        start,
        &[update_proof_1, update_proof_2, update_proof_3,]
    ));
}

#[test]
fn fresh_accumulator_holds_generators() {
    let acc = Accumulator::new(Parameters { num_g1_elements_needed: 5, num_g2_elements_needed: 3 });
    assert_eq!(acc.num_g1_elements(), 5);
    assert_eq!(acc.num_g2_elements(), 3);
    for i in 0..5 {
        assert_eq!(acc.g1_element(i), G1Point::generator());
    }
    for i in 0..3 {
        assert_eq!(acc.g2_element(i), G2Point::generator());
    }
    let kzg = Accumulator::new_for_kzg(7);
    assert_eq!(kzg.num_g1_elements(), 7);
    assert_eq!(kzg.num_g2_elements(), 2);
}

#[test]
fn update_keeps_the_anchors() {
    let mut acc = Accumulator::new_for_kzg(4);
    acc.update(PrivateKey::from_u64(11));
    acc.update(PrivateKey::from_u64(13));
    assert_eq!(acc.g1_element(0), G1Point::generator());
    assert_eq!(acc.g2_element(0), G2Point::generator());
}

#[test]
fn update_scales_by_powers() {
    let mut acc = Accumulator::new_for_kzg(4);
    let proof = acc.update(PrivateKey::from_u64(3));
    let g1 = G1Point::generator();
    let g2 = G2Point::generator();
    assert_eq!(acc.g1_element(1), g1.scale(&Scalar::from_u64(3)));
    assert_eq!(acc.g1_element(2), g1.scale(&Scalar::from_u64(9)));
    assert_eq!(acc.g1_element(3), g1.scale(&Scalar::from_u64(27)));
    assert_eq!(acc.g2_element(1), g2.scale(&Scalar::from_u64(3)));
    assert_eq!(proof.commitment_to_secret(), g2.scale(&Scalar::from_u64(3)));
    assert_eq!(proof.new_accumulated_point(), acc.g1_element(1));
}

#[test]
fn single_update_verifies() {
    let before = Accumulator::new_for_kzg(8);
    let mut after = before.clone();
    let proof = after.update(PrivateKey::from_u64(123456789));
    assert!(Accumulator::verify_update(&before, &after, &proof));
    assert!(after.structure_check());
}

#[test]
fn challenge_powers_are_exact() {
    let x = Scalar::from_u64(5);
    let powers = vandemonde_challenge(&x, 4);
    assert_eq!(powers.len(), 4);
    assert_eq!(powers[0], Scalar::from_u64(5));
    assert_eq!(powers[1], Scalar::from_u64(25));
    assert_eq!(powers[2], Scalar::from_u64(125));
    assert_eq!(powers[3], Scalar::from_u64(625));
    assert!(vandemonde_challenge(&x, 0).is_empty());
}
