use ark_bls12_381::Fr;
use ark_ff::{FromBytes, ToBytes};
use powers_of_tau::encoding::{bytes_equal, le_less_than};
use powers_of_tau::field::{Scalar, BASE_MODULUS_BYTES, SCALAR_MODULUS_BYTES};

fn modulus_minus(n: u8) -> [u8; 32] {
    let mut bytes = SCALAR_MODULUS_BYTES;
    bytes[0] -= n;
    bytes
}

#[test]
fn from_u64_is_little_endian() {
    let s = Scalar::from_u64(0x0102030405060708);
    let mut expected = [0u8; 32];
    expected[..8].copy_from_slice(&[8, 7, 6, 5, 4, 3, 2, 1]);
    assert_eq!(s.to_bytes(), expected);
    assert_eq!(Scalar::from_u64(0).to_bytes(), [0u8; 32]);
    let mut top = [0u8; 32];
    top[..8].copy_from_slice(&[0xff; 8]);
    assert_eq!(Scalar::from_u64(u64::MAX).to_bytes(), top);
}

#[test]
fn from_u64_agrees_with_the_field_library() {
    let mut bytes = [0u8; 32];
    Fr::from(789u64).write(&mut bytes[..]).unwrap();
    assert_eq!(Scalar::from_u64(789).to_bytes(), bytes);
}

#[test]
fn from_bytes_accepts_only_residues() {
    assert!(Scalar::from_bytes(SCALAR_MODULUS_BYTES).is_none());
    assert!(Scalar::from_bytes([0xff; 32]).is_none());
    let below = modulus_minus(1);
    assert_eq!(Scalar::from_bytes(below).unwrap().to_bytes(), below);
    assert_eq!(Scalar::from_bytes([0u8; 32]).unwrap(), Scalar::from_u64(0));
    assert!(Fr::read(&SCALAR_MODULUS_BYTES[..]).is_err());
    assert!(Fr::read(&below[..]).is_ok());
}

#[test]
fn times_multiplies_in_the_field() {
    let a = Scalar::from_u64(252);
    let b = Scalar::from_u64(512);
    assert_eq!(a.times(&b), Scalar::from_u64(252 * 512));
    // (r - 1) * (r - 1) = 1 and (r - 1) * 2 = r - 2 modulo r
    let minus_one = Scalar::from_bytes(modulus_minus(1)).unwrap();
    assert_eq!(minus_one.times(&minus_one), Scalar::from_u64(1));
    let mut minus_two = SCALAR_MODULUS_BYTES;
    minus_two[..8].copy_from_slice(&[0xff, 0xff, 0xff, 0xff, 0xfe, 0xff, 0xff, 0xff]);
    assert_eq!(
        minus_one.times(&Scalar::from_u64(2)),
        Scalar::from_bytes(minus_two).unwrap()
    );
    assert_eq!(a.times(&Scalar::from_u64(0)), Scalar::from_u64(0));
}

#[test]
fn random_scalars_are_residues() {
    let a = Scalar::random();
    let b = Scalar::random();
    assert!(Scalar::from_bytes(a.to_bytes()).is_some());
    assert!(Scalar::from_bytes(b.to_bytes()).is_some());
    assert_ne!(a, b);
}

#[test]
fn comparison_reads_the_last_byte_first() {
    assert!(le_less_than(&[0xff, 0x00], 0, &[0x00, 0x01]));
    assert!(!le_less_than(&[0x00, 0x01], 0, &[0xff, 0x00]));
    assert!(!le_less_than(&[0x05, 0x01], 0, &[0x05, 0x01]));
    assert!(le_less_than(&[0x04, 0x01], 0, &[0x05, 0x01]));
    assert!(le_less_than(&[9, 9, 0x04, 0x01], 2, &[0x05, 0x01]));
    assert!(!le_less_than(&[], 0, &[]));
    assert!(bytes_equal(&[1, 2], &[1, 2]));
    assert!(!bytes_equal(&[1, 2], &[1, 3]));
    assert!(!bytes_equal(&[1, 2], &[1]));
}

#[test]
fn base_modulus_is_the_field_librarys() {
    let mut below = BASE_MODULUS_BYTES;
    below[0] -= 1;
    assert!(ark_bls12_381::Fq::read(&below[..]).is_ok());
    assert!(ark_bls12_381::Fq::read(&BASE_MODULUS_BYTES[..]).is_err());
}
