use powers_of_tau::accumulator::Accumulator;
use powers_of_tau::field::Scalar;
use powers_of_tau::g1::G1Point;
use powers_of_tau::g2::G2Point;
use powers_of_tau::keypair::PrivateKey;
use powers_of_tau::update_proof::UpdateProof;

#[test]
fn random_key_update_verifies() {
    let before = Accumulator::new_for_kzg(6);
    let mut after = before.clone();
    let key = PrivateKey::rand();
    let proof = after.update(key);
    assert!(Accumulator::verify_update(&before, &after, &proof));
}

#[test]
fn chain_links_in_order_only() {
    let mut acc = Accumulator::new_for_kzg(4);
    let start = acc.g1_element(1);
    let first = acc.update(PrivateKey::from_u64(17));
    let second = acc.update(PrivateKey::from_u64(19));
    let third = acc.update(PrivateKey::from_u64(23));
    assert!(first.verify(&start));
    assert!(second.verify(&first.new_accumulated_point()));
    assert!(third.verify(&second.new_accumulated_point()));
    assert!(UpdateProof::verify_chain(start, &[first, second, third]));
    assert!(!UpdateProof::verify_chain(start, &[second, first, third]));
    assert!(!UpdateProof::verify_chain(start, &[first, third, second]));
    assert!(!UpdateProof::verify_chain(start, &[third, second, first]));
    assert!(UpdateProof::verify_chain(start, &[]));
    assert!(!second.verify(&start));
}

#[test]
fn independent_points_fail_the_structure_check() {
    let g1 = G1Point::generator();
    let g2 = G2Point::generator();
    let tau_g1 = vec![
        g1,
        g1.scale(&Scalar::from_u64(5)),
        g1.scale(&Scalar::from_u64(7)),
        g1.scale(&Scalar::from_u64(11)),
    ];
    let tau_g2 = vec![g2, g2.scale(&Scalar::from_u64(5))];
    assert!(!Accumulator::from_points(tau_g1, tau_g2).structure_check());

    let tau_g1 = vec![g1, g1.scale(&Scalar::from_u64(5)), g1.scale(&Scalar::from_u64(25))];
    let tau_g2 = vec![g2, g2.scale(&Scalar::from_u64(6))];
    assert!(!Accumulator::from_points(tau_g1, tau_g2).structure_check());

    let tau_g1 = vec![g1, g1.scale(&Scalar::from_u64(5)), g1.scale(&Scalar::from_u64(25))];
    let tau_g2 = vec![g2, g2.scale(&Scalar::from_u64(5)), g2.scale(&Scalar::from_u64(25))];
    assert!(Accumulator::from_points(tau_g1, tau_g2).structure_check());
}

#[test]
fn three_contributions_end_to_end() {
    let before = Accumulator::new_for_kzg(100);
    let mut acc = before.clone();
    let start = acc.g1_element(1);
    let first = acc.update(PrivateKey::from_u64(1234567));
    let second = acc.update(PrivateKey::from_u64(7654321));
    let third = acc.update(PrivateKey::from_u64(999331));
    assert!(first.verify(&start));
    assert!(second.verify(&first.new_accumulated_point()));
    assert!(third.verify(&second.new_accumulated_point()));
    assert!(Accumulator::verify_updates(&before, &acc, &[first, second, third]));

    let forged = UpdateProof::new(
        second.commitment_to_secret(),
        G1Point::generator().scale(&Scalar::from_u64(4242)),
    );
    assert!(!UpdateProof::verify_chain(start, &[first, forged, third]));
    assert!(!Accumulator::verify_updates(&before, &acc, &[first, forged, third]));
}

#[test]
fn transcript_must_end_at_the_final_accumulator() {
    let before = Accumulator::new_for_kzg(4);
    let mut acc = before.clone();
    let first = acc.update(PrivateKey::from_u64(3));
    let middle = acc.clone();
    let second = acc.update(PrivateKey::from_u64(5));
    assert!(Accumulator::verify_updates(&before, &acc, &[first, second]));
    assert!(!Accumulator::verify_updates(&before, &acc, &[first]));
    assert!(!Accumulator::verify_updates(&before, &middle, &[first, second]));
    assert!(!Accumulator::verify_updates(&middle, &acc, &[first, second]));
    assert!(Accumulator::verify_updates(&middle, &acc, &[second]));
}

#[test]
fn degenerate_secret_inside_a_transcript() {
    let before = Accumulator::new_for_kzg(4);
    let mut acc = before.clone();
    let first = acc.update(PrivateKey::from_u64(3));
    let second = acc.update(PrivateKey::from_u64(1));
    let third = acc.update(PrivateKey::from_u64(5));
    assert!(UpdateProof::verify_chain(before.g1_element(1), &[first, second, third]));
    assert!(!Accumulator::verify_updates(&before, &acc, &[first, second, third]));
}

#[test]
fn identity_anchor_is_rejected() {
    let before = Accumulator::new_for_kzg(3);
    let mut honest = before.clone();
    let proof = honest.update(PrivateKey::from_u64(3));
    let tau_g1 = vec![G1Point::identity(), honest.g1_element(1), honest.g1_element(2)];
    let tau_g2 = vec![honest.g2_element(0), honest.g2_element(1)];
    let after = Accumulator::from_points(tau_g1, tau_g2);
    assert!(!Accumulator::verify_update(&before, &after, &proof));
}

#[test]
fn commitment_in_hex() {
    let mut acc = Accumulator::new_for_kzg(2);
    let proof = acc.update(PrivateKey::from_u64(1));
    let text = proof.get_commitment_to_secret();
    assert_eq!(text.len(), 2 + 2 * 193);
    // the generator of G2: its first coordinate begins with the bytes b8 bd 21
    assert!(text.starts_with("0xb8bd21c1"));
    assert!(text.ends_with("00"));
    assert_eq!(text, format!("0x{}", hex::encode(G2Point::generator().to_bytes())));

    let zero = UpdateProof::new(G2Point::identity(), G1Point::identity());
    let text = zero.get_commitment_to_secret();
    assert_eq!(&text[..4], "0x00");
    assert_eq!(&text[2 + 2 * 96..2 + 2 * 97], "01");
    assert!(text.ends_with("01"));
}

#[test]
fn public_key_is_the_scaled_generator() {
    let key = PrivateKey::from_u64(252);
    assert_eq!(key.to_public(), G2Point::generator().scale(&Scalar::from_u64(252)));
    assert_eq!(key.secret(), Scalar::from_u64(252));
    assert_eq!(PrivateKey::from_u64(0).to_public(), G2Point::identity());
    assert_eq!(PrivateKey::from_u64(1).to_public(), G2Point::generator());
    let again = PrivateKey::from_scalar(Scalar::from_u64(252));
    assert_eq!(again.to_public(), key.to_public());
}
