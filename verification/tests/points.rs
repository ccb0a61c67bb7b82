use ark_bls12_381::{G1Affine, G2Affine};
use ark_ec::{AffineCurve, ProjectiveCurve};
use ark_ff::{ToBytes, Zero};
use powers_of_tau::field::Scalar;
use powers_of_tau::g1::G1Point;
use powers_of_tau::g2::G2Point;
use powers_of_tau::pairing::{pairing, same_pairing};

#[test]
fn g1_generator_is_the_curve_librarys() {
    let mut bytes = [0u8; 97];
    G1Affine::prime_subgroup_generator().write(&mut bytes[..]).unwrap();
    assert_eq!(G1Point::generator().to_bytes(), bytes);
}

#[test]
fn g2_generator_is_the_curve_librarys() {
    let mut bytes = [0u8; 193];
    G2Affine::prime_subgroup_generator().write(&mut bytes[..]).unwrap();
    assert_eq!(G2Point::generator().to_bytes(), bytes);
}

#[test]
fn pairing_is_bilinear_on_small_scalars() {
    let g1 = G1Point::generator();
    let g2 = G2Point::generator();
    let s = Scalar::from_u64(7);
    assert!(same_pairing(&g1.scale(&s), &g2, &g1, &g2.scale(&s)));
    assert!(!same_pairing(&g1.scale(&s), &g2, &g1, &g2));
    assert!(pairing(&g1, &g2).is_some());
}

#[test]
fn two_hundred_pairings() {
    let g1 = G1Point::generator();
    let g2 = G2Point::generator();
    for _ in 0..100 {
        assert!(same_pairing(&g1, &g2, &g1, &g2));
    }
}

#[test]
fn identities_are_the_curve_librarys() {
    let mut bytes = [0u8; 97];
    G1Affine::zero().write(&mut bytes[..]).unwrap();
    assert_eq!(G1Point::identity().to_bytes(), bytes);
    let mut bytes = [0u8; 193];
    G2Affine::zero().write(&mut bytes[..]).unwrap();
    assert_eq!(G2Point::identity().to_bytes(), bytes);
    assert!(G1Point::identity().is_zero());
    assert!(G2Point::identity().is_zero());
    assert!(!G1Point::generator().is_zero());
    assert!(!G2Point::generator().is_zero());
}

#[test]
fn scale_agrees_with_the_curve_library() {
    let mut bytes = [0u8; 97];
    G1Affine::prime_subgroup_generator()
        .mul(ark_bls12_381::Fr::from(1000u64))
        .into_affine()
        .write(&mut bytes[..])
        .unwrap();
    let scaled = G1Point::generator().scale(&Scalar::from_u64(1000));
    assert_eq!(scaled.to_bytes(), bytes);
    assert_ne!(scaled, G1Point::generator());
    let mut bytes = [0u8; 193];
    G2Affine::prime_subgroup_generator()
        .mul(ark_bls12_381::Fr::from(1000u64))
        .into_affine()
        .write(&mut bytes[..])
        .unwrap();
    let scaled = G2Point::generator().scale(&Scalar::from_u64(1000));
    assert_eq!(scaled.to_bytes(), bytes);
    assert_ne!(scaled, G2Point::generator());
}

#[test]
fn scale_by_zero_and_one() {
    let g1 = G1Point::generator();
    let g2 = G2Point::generator();
    let p = g1.scale(&Scalar::from_u64(77));
    let q = g2.scale(&Scalar::from_u64(77));
    assert_eq!(p.scale(&Scalar::from_u64(0)), G1Point::identity());
    assert_eq!(q.scale(&Scalar::from_u64(0)), G2Point::identity());
    assert_eq!(p.scale(&Scalar::from_u64(1)), p);
    assert_eq!(q.scale(&Scalar::from_u64(1)), q);
    assert_eq!(G1Point::identity().scale(&Scalar::from_u64(5)), G1Point::identity());
    assert_eq!(G2Point::identity().scale(&Scalar::from_u64(1)), G2Point::identity());
    // an encoding marked as infinity with other coordinates still scales to the identity
    let mut odd = g1.to_bytes();
    odd[96] = 1;
    let odd = G1Point::from_bytes(odd).unwrap();
    assert_eq!(odd.scale(&Scalar::from_u64(1)), G1Point::identity());
}

#[test]
fn scale_composes() {
    let g1 = G1Point::generator();
    let twice = g1.scale(&Scalar::from_u64(6)).scale(&Scalar::from_u64(7));
    assert_eq!(twice, g1.scale(&Scalar::from_u64(42)));
}

#[test]
fn from_bytes_tests_the_encoding() {
    let gen = G1Point::generator().to_bytes();
    assert_eq!(G1Point::from_bytes(gen).unwrap(), G1Point::generator());
    let mut bad_flag = gen;
    bad_flag[96] = 2;
    assert!(G1Point::from_bytes(bad_flag).is_none());
    let mut big_x = gen;
    big_x[47] = 0x1b;
    assert!(G1Point::from_bytes(big_x).is_none());
    let mut big_y = gen;
    big_y[95] = 0xff;
    assert!(G1Point::from_bytes(big_y).is_none());
    assert!(G1Point::from_bytes([0u8; 97]).is_some());

    let gen = G2Point::generator().to_bytes();
    assert_eq!(G2Point::from_bytes(gen).unwrap(), G2Point::generator());
    for top in [47usize, 95, 143, 191] {
        let mut big = gen;
        big[top] = 0x1b;
        assert!(G2Point::from_bytes(big).is_none());
    }
    let mut bad_flag = gen;
    bad_flag[192] = 9;
    assert!(G2Point::from_bytes(bad_flag).is_none());
}

#[test]
fn curve_membership() {
    assert!(G1Point::generator().is_on_curve());
    assert!(G2Point::generator().is_on_curve());
    assert!(G1Point::identity().is_on_curve());
    assert!(G2Point::identity().is_on_curve());
    assert!(G1Point::generator().scale(&Scalar::from_u64(31)).is_on_curve());
    assert!(G2Point::generator().scale(&Scalar::from_u64(31)).is_on_curve());
    assert!(!G1Point::from_bytes([0u8; 97]).unwrap().is_on_curve());
    assert!(!G2Point::from_bytes([0u8; 193]).unwrap().is_on_curve());
    let mut off = G2Point::generator().to_bytes();
    off[48] ^= 1;
    assert!(!G2Point::from_bytes(off).unwrap().is_on_curve());
    // x = 0, y = 2 satisfies y^2 = x^3 + 4
    let mut small = [0u8; 97];
    small[48] = 2;
    assert!(G1Point::from_bytes(small).unwrap().is_on_curve());
}

#[test]
fn subgroup_membership() {
    assert!(G1Point::generator().is_in_prime_subgroup());
    assert!(G2Point::generator().is_in_prime_subgroup());
    assert!(G1Point::generator().scale(&Scalar::from_u64(5)).is_in_prime_subgroup());
    // (0, 2) lies on the curve of G1 and has order 3
    let mut small = [0u8; 97];
    small[48] = 2;
    assert!(!G1Point::from_bytes(small).unwrap().is_in_prime_subgroup());
}

#[test]
fn pairing_of_the_identity_is_one() {
    let one = pairing(&G1Point::identity(), &G2Point::generator()).unwrap();
    let also_one = pairing(&G1Point::generator(), &G2Point::identity()).unwrap();
    assert_eq!(one, also_one);
    assert_ne!(one, pairing(&G1Point::generator(), &G2Point::generator()).unwrap());
    assert_eq!(one.to_bytes()[0], 1);
    assert!(one.to_bytes()[1..].iter().all(|b| *b == 0));
}
