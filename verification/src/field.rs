//! The scalar field of BLS12-381 and the modulus of its base field.

use crate::encoding::{bytes_equal, le_less_than, le_value, le_value_from};
use ark_bls12_381::Fr;
use ark_ff::{FromBytes, ToBytes, UniformRand};
use vstd::prelude::*;

verus! {

/// The order of the groups G1 and G2: the modulus of the scalar field.
pub open spec fn scalar_modulus() -> nat {
    52435875175126190479447740508185965837690552500527637822603658699938581184513nat
}

/// The modulus of the field that the curve's coordinates live in.
pub open spec fn base_modulus() -> nat {
    4002409555221667393417789825735904156556882819939007885332058136124031650490837864442687629129015664037894272559787nat
}

/// `scalar_modulus()`, least significant byte first.
pub const SCALAR_MODULUS_BYTES: [u8; 32] = [
    0x01, 0x00, 0x00, 0x00, 0xff, 0xff, 0xff, 0xff, 0xfe, 0x5b, 0xfe, 0xff, 0x02, 0xa4, 0xbd, 0x53,
    0x05, 0xd8, 0xa1, 0x09, 0x08, 0xd8, 0x39, 0x33, 0x48, 0x7d, 0x9d, 0x29, 0x53, 0xa7, 0xed, 0x73,
];

/// `base_modulus()`, least significant byte first.
pub const BASE_MODULUS_BYTES: [u8; 48] = [
    0xab, 0xaa, 0xff, 0xff, 0xff, 0xff, 0xfe, 0xb9, 0xff, 0xff, 0x53, 0xb1, 0xfe, 0xff, 0xab, 0x1e,
    0x24, 0xf6, 0xb0, 0xf6, 0xa0, 0xd2, 0x30, 0x67, 0xbf, 0x12, 0x85, 0xf3, 0x84, 0x4b, 0x77, 0x64,
    0xd7, 0xac, 0x4b, 0x43, 0xb6, 0xa7, 0x1b, 0x4b, 0x9a, 0xe6, 0x7f, 0x39, 0xea, 0x11, 0x01, 0x1a,
];

/// The byte constant of the scalar modulus stands for `scalar_modulus()`.
pub proof fn lemma_scalar_modulus_bytes()
    ensures
        le_value(SCALAR_MODULUS_BYTES@) == scalar_modulus(),
{
    reveal_with_fuel(le_value_from, 34);
}

/// The byte constant of the base modulus stands for `base_modulus()`.
pub proof fn lemma_base_modulus_bytes()
    ensures
        le_value(BASE_MODULUS_BYTES@) == base_modulus(),
{
    reveal_with_fuel(le_value_from, 50);
}

/// An element of the scalar field, held as the 32 little-endian bytes of its
/// least non-negative residue.
#[derive(Clone, Copy, Debug)]
pub struct Scalar {
    pub(crate) bytes: [u8; 32],
}

impl View for Scalar {
    type V = nat;

    /// The number that the held bytes stand for.
    closed spec fn view(&self) -> nat {
        le_value(self.bytes@)
    }
}

impl PartialEq for Scalar {
    fn eq(&self, other: &Scalar) -> (r: bool) {
        bytes_equal(self.bytes.as_slice(), other.bytes.as_slice())
    }
}

impl Eq for Scalar {

}

impl vstd::std_specs::cmp::PartialEqSpecImpl for Scalar {
    open spec fn obeys_eq_spec() -> bool {
        true
    }

    open spec fn eq_spec(&self, other: &Scalar) -> bool {
        self.encoding() == other.encoding()
    }
}

impl Scalar {
    /// The held bytes.
    pub closed spec fn encoding(&self) -> Seq<u8> {
        self.bytes@
    }

    /// The element is held by its least residue.
    pub open spec fn wf(&self) -> bool {
        self@ < scalar_modulus()
    }

    /// The view is the number that the encoding stands for, and the encoding
    /// has 32 bytes.
    pub proof fn lemma_view_of_encoding(&self)
        ensures
            self@ == le_value(self.encoding()),
            self.encoding().len() == 32,
    {
    }

    /// The scalar that stands for `n`.
    pub fn from_u64(n: u64) -> (r: Scalar)
        ensures
            r.wf(),
            r@ == n,
    {
        let b0: u8 = (n % 256) as u8;
        let n1: u64 = n / 256;
        let b1: u8 = (n1 % 256) as u8;
        let n2: u64 = n1 / 256;
        let b2: u8 = (n2 % 256) as u8;
        let n3: u64 = n2 / 256;
        let b3: u8 = (n3 % 256) as u8;
        let n4: u64 = n3 / 256;
        let b4: u8 = (n4 % 256) as u8;
        let n5: u64 = n4 / 256;
        let b5: u8 = (n5 % 256) as u8;
        let n6: u64 = n5 / 256;
        let b6: u8 = (n6 % 256) as u8;
        let b7: u8 = (n6 / 256) as u8;
        let bytes: [u8; 32] = [
            b0, b1, b2, b3, b4, b5, b6, b7, 0, 0, 0, 0, 0, 0, 0, 0,
            0, 0, 0, 0, 0, 0, 0, 0, 0, 0, 0, 0, 0, 0, 0, 0,
        ];
        proof {
            reveal_with_fuel(le_value_from, 34);
            assert(le_value(bytes@) == n);
        }
        Scalar { bytes }
    }

    /// The scalar whose encoding is `bytes`, where they stand for a number
    /// below the modulus.
    pub fn from_bytes(bytes: [u8; 32]) -> (r: Option<Scalar>)
        ensures
            r is Some <==> le_value(bytes@) < scalar_modulus(),
            r matches Some(s) ==> s.encoding() == bytes@ && s.wf(),
    {
        proof {
            lemma_scalar_modulus_bytes();
            assert(bytes@.subrange(0, 32) =~= bytes@);
        }
        if le_less_than(bytes.as_slice(), 0, SCALAR_MODULUS_BYTES.as_slice()) {
            Some(Scalar { bytes })
        } else {
            None
        }
    }

    /// The encoding: 32 bytes, least significant first.
    pub fn to_bytes(&self) -> (r: [u8; 32])
        ensures
            r@ == self.encoding(),
    {
        self.bytes
    }

    /// A scalar drawn at random.
    pub fn random() -> (r: Scalar)
        ensures
            r.wf(),
    {
        fr_random()
    }

    /// The product of two field elements.
    pub fn times(&self, rhs: &Scalar) -> (r: Scalar)
        requires
            self.wf(),
            rhs.wf(),
        ensures
            r.wf(),
            r@ == (self@ * rhs@) % scalar_modulus(),
    {
        fr_product(self, rhs)
    }
}

/// `Fr`'s multiplication, on canonical encodings: the field's product is the
/// product of the two residues, reduced by the modulus.
#[verifier::external_body]
fn fr_product(a: &Scalar, b: &Scalar) -> (r: Scalar)
    requires
        a.wf(),
        b.wf(),
    ensures
        r.wf(),
        r@ == (a@ * b@) % scalar_modulus(),
{
    let product = Fr::read(&a.bytes[..]).unwrap() * Fr::read(&b.bytes[..]).unwrap();
    let mut bytes = [0u8; 32];
    product.write(&mut bytes[..]).unwrap();
    Scalar { bytes }
}

/// A draw of `Fr::rand` from the thread's generator. Which element comes is
/// not stated: only that it is held by its least residue.
#[verifier::external_body]
fn fr_random() -> (r: Scalar)
    ensures
        r.wf(),
{
    let drawn = Fr::rand(&mut rand::thread_rng());
    let mut bytes = [0u8; 32];
    drawn.write(&mut bytes[..]).unwrap();
    Scalar { bytes }
}

} // verus!
