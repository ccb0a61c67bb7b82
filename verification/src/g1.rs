//! Points of the group G1 of BLS12-381, held by their byte encodings.

use crate::encoding::{bytes_equal, le_less_than, le_value, lemma_less_by_last_byte};
use crate::field::{base_modulus, lemma_base_modulus_bytes, Scalar, BASE_MODULUS_BYTES};
use ark_bls12_381::{Fr, G1Affine};
use ark_ec::wnaf::WnafContext;
use ark_ec::{AffineCurve, ProjectiveCurve};
use ark_ff::{FromBytes, ToBytes};
use rayon::iter::{IndexedParallelIterator, IntoParallelRefIterator, ParallelIterator};
use vstd::prelude::*;

verus! {

/// The encoding of the generator of G1.
pub const G1_GENERATOR_BYTES: [u8; 97] = [
    0xbb, 0xc6, 0x22, 0xdb, 0x0a, 0xf0, 0x3a, 0xfb, 0xef, 0x1a, 0x7a, 0xf9, 0x3f, 0xe8, 0x55, 0x6c,
    0x58, 0xac, 0x1b, 0x17, 0x3f, 0x3a, 0x4e, 0xa1, 0x05, 0xb9, 0x74, 0x97, 0x4f, 0x8c, 0x68, 0xc3,
    0x0f, 0xac, 0xa9, 0x4f, 0x8c, 0x63, 0x95, 0x26, 0x94, 0xd7, 0x97, 0x31, 0xa7, 0xd3, 0xf1, 0x17,
    0xe1, 0xe7, 0xc5, 0x46, 0x29, 0x23, 0xaa, 0x0c, 0xe4, 0x8a, 0x88, 0xa2, 0x44, 0xc7, 0x3c, 0xd0,
    0xed, 0xb3, 0x04, 0x2c, 0xcb, 0x18, 0xdb, 0x00, 0xf6, 0x0a, 0xd0, 0xd5, 0x95, 0xe0, 0xf5, 0xfc,
    0xe4, 0x8a, 0x1d, 0x74, 0xed, 0x30, 0x9e, 0xa0, 0xf1, 0xa0, 0xaa, 0xe3, 0x81, 0xf4, 0xb3, 0x08,
    0x00,
];

/// The encoding of the neutral element of G1.
pub const G1_IDENTITY_BYTES: [u8; 97] = [
    0x00, 0x00, 0x00, 0x00, 0x00, 0x00, 0x00, 0x00, 0x00, 0x00, 0x00, 0x00, 0x00, 0x00, 0x00, 0x00,
    0x00, 0x00, 0x00, 0x00, 0x00, 0x00, 0x00, 0x00, 0x00, 0x00, 0x00, 0x00, 0x00, 0x00, 0x00, 0x00,
    0x00, 0x00, 0x00, 0x00, 0x00, 0x00, 0x00, 0x00, 0x00, 0x00, 0x00, 0x00, 0x00, 0x00, 0x00, 0x00,
    0x01, 0x00, 0x00, 0x00, 0x00, 0x00, 0x00, 0x00, 0x00, 0x00, 0x00, 0x00, 0x00, 0x00, 0x00, 0x00,
    0x00, 0x00, 0x00, 0x00, 0x00, 0x00, 0x00, 0x00, 0x00, 0x00, 0x00, 0x00, 0x00, 0x00, 0x00, 0x00,
    0x00, 0x00, 0x00, 0x00, 0x00, 0x00, 0x00, 0x00, 0x00, 0x00, 0x00, 0x00, 0x00, 0x00, 0x00, 0x00,
    0x01,
];

/// The first coordinate that an encoding of a point of G1 holds.
pub open spec fn g1_x(e: Seq<u8>) -> nat {
    le_value(e.subrange(0, 48))
}

/// The second coordinate that an encoding of a point of G1 holds.
pub open spec fn g1_y(e: Seq<u8>) -> nat {
    le_value(e.subrange(48, 96))
}

/// `e` encodes a pair of coordinates for G1: 48 bytes for each coordinate,
/// least significant first and below the base modulus, then one byte that is
/// 1 for the point at infinity and 0 otherwise.
pub open spec fn g1_encoding_wf(e: Seq<u8>) -> bool {
    &&& e.len() == 97
    &&& g1_x(e) < base_modulus()
    &&& g1_y(e) < base_modulus()
    &&& e[96] <= 1
}

/// The encoded coordinates satisfy the curve's equation `y^2 = x^3 + 4`, or
/// the encoding is marked as the point at infinity.
pub open spec fn g1_on_curve(e: Seq<u8>) -> bool {
    e[96] == 1 || (g1_y(e) * g1_y(e)) % base_modulus() == (g1_x(e) * g1_x(e) * g1_x(e) + 4)
        % base_modulus()
}

/// The encoding of the product of the point encoded by the first argument
/// with the scalar, as the curve library's windowed multiplication computes it.
pub uninterp spec fn g1_scalar_mul(p: Seq<u8>, s: nat) -> Seq<u8>;

/// Whether the point encoded by the argument has the order of the scalar
/// field, as the curve library's test computes it.
pub uninterp spec fn g1_in_prime_subgroup(p: Seq<u8>) -> bool;

/// The encoding of `s` times the point that `p` encodes. Nothing times any
/// point, and anything times the point at infinity, is the neutral element;
/// one times a point is that point.
pub open spec fn g1_scale(p: Seq<u8>, s: nat) -> Seq<u8> {
    if s == 0 || p[96] == 1 {
        G1_IDENTITY_BYTES@
    } else if s == 1 {
        p
    } else {
        g1_scalar_mul(p, s)
    }
}

/// The two constants of G1 are well-formed encodings.
pub proof fn lemma_g1_constants_wf()
    ensures
        g1_encoding_wf(G1_GENERATOR_BYTES@),
        g1_encoding_wf(G1_IDENTITY_BYTES@),
        G1_GENERATOR_BYTES@[96] == 0,
        G1_IDENTITY_BYTES@[96] == 1,
{
    let q = BASE_MODULUS_BYTES@;
    lemma_base_modulus_bytes();
    lemma_less_by_last_byte(G1_GENERATOR_BYTES@.subrange(0, 48), q, 0);
    lemma_less_by_last_byte(G1_GENERATOR_BYTES@.subrange(48, 96), q, 0);
    lemma_less_by_last_byte(G1_IDENTITY_BYTES@.subrange(0, 48), q, 0);
    lemma_less_by_last_byte(G1_IDENTITY_BYTES@.subrange(48, 96), q, 0);
}

/// A point of G1 in affine coordinates.
#[derive(Clone, Copy, Debug)]
pub struct G1Point {
    pub(crate) bytes: [u8; 97],
}

impl View for G1Point {
    type V = Seq<u8>;

    /// The encoding.
    closed spec fn view(&self) -> Seq<u8> {
        self.bytes@
    }
}

impl PartialEq for G1Point {
    fn eq(&self, other: &G1Point) -> (r: bool) {
        bytes_equal(self.bytes.as_slice(), other.bytes.as_slice())
    }
}

impl Eq for G1Point {

}

impl vstd::std_specs::cmp::PartialEqSpecImpl for G1Point {
    open spec fn obeys_eq_spec() -> bool {
        true
    }

    open spec fn eq_spec(&self, other: &G1Point) -> bool {
        self@ == other@
    }
}

impl G1Point {
    /// The encoding is well-formed.
    pub open spec fn wf(&self) -> bool {
        g1_encoding_wf(self@)
    }

    /// The generator of G1.
    pub fn generator() -> (r: G1Point)
        ensures
            r.wf(),
            r@ == G1_GENERATOR_BYTES@,
    {
        proof {
            lemma_g1_constants_wf();
        }
        G1Point { bytes: G1_GENERATOR_BYTES }
    }

    /// The neutral element of G1, the point at infinity.
    pub fn identity() -> (r: G1Point)
        ensures
            r.wf(),
            r@ == G1_IDENTITY_BYTES@,
    {
        proof {
            lemma_g1_constants_wf();
        }
        G1Point { bytes: G1_IDENTITY_BYTES }
    }

    /// The point that `bytes` encodes, where they are a well-formed encoding.
    /// Whether the point lies on the curve is not asked here.
    pub fn from_bytes(bytes: [u8; 97]) -> (r: Option<G1Point>)
        ensures
            r is Some <==> g1_encoding_wf(bytes@),
            r matches Some(p) ==> p@ == bytes@,
    {
        proof {
            lemma_base_modulus_bytes();
        }
        let x_fits = le_less_than(bytes.as_slice(), 0, BASE_MODULUS_BYTES.as_slice());
        let y_fits = le_less_than(bytes.as_slice(), 48, BASE_MODULUS_BYTES.as_slice());
        if x_fits && y_fits && bytes[96] <= 1 {
            Some(G1Point { bytes })
        } else {
            None
        }
    }

    /// The encoding.
    pub fn to_bytes(&self) -> (r: [u8; 97])
        ensures
            r@ == self@,
    {
        self.bytes
    }

    /// Tells whether this is the point at infinity.
    pub fn is_zero(&self) -> (r: bool)
        requires
            self.wf(),
        ensures
            r == (self@[96] == 1),
    {
        self.bytes[96] == 1
    }

    /// The product of this point with a scalar.
    pub fn scale(&self, s: &Scalar) -> (r: G1Point)
        requires
            self.wf(),
            s.wf(),
        ensures
            r.wf(),
            r@ == g1_scale(self@, s@),
    {
        g1_wnaf_scale(self, s)
    }

    /// Tells whether the coordinates satisfy the curve's equation.
    pub fn is_on_curve(&self) -> (r: bool)
        requires
            self.wf(),
        ensures
            r == g1_on_curve(self@),
    {
        g1_curve_test(self)
    }

    /// Tells whether the point has the order of the scalar field. The answer
    /// means something only for a point on the curve.
    pub fn is_in_prime_subgroup(&self) -> (r: bool)
        requires
            self.wf(),
        ensures
            r == g1_in_prime_subgroup(self@),
    {
        g1_subgroup_test(self)
    }
}

/// `WnafContext::mul` with a window of 3, on a point of G1 read from its
/// encoding, the product written back in affine form. The product is named by
/// `g1_scalar_mul`; the three cases that `g1_scale` spells out are the ones in
/// which the loop over the scalar's digits adds nothing or adds the point
/// once to the neutral element.
#[verifier::external_body]
fn g1_wnaf_scale(p: &G1Point, s: &Scalar) -> (r: G1Point)
    requires
        p.wf(),
        s.wf(),
    ensures
        r.wf(),
        r@ == (if s@ == 0 || p@[96] == 1 {
            G1_IDENTITY_BYTES@
        } else if s@ == 1 {
            p@
        } else {
            g1_scalar_mul(p@, s@)
        }),
{
    let point = G1Affine::read(&p.bytes[..]).unwrap().into_projective();
    let scalar = Fr::read(&s.bytes[..]).unwrap();
    let product = WnafContext::new(3).mul(point, &scalar).into_affine();
    let mut bytes = [0u8; 97];
    product.write(&mut bytes[..]).unwrap();
    G1Point { bytes }
}

/// rayon's `par_iter`, `zip`, `map` and `collect` into a vector: the points
/// are scaled independently of each other, each by the scalar at its own
/// index, and the products come back in the order of the points.
#[verifier::external_body]
pub(crate) fn g1_scale_each(points: &Vec<G1Point>, scalars: &Vec<Scalar>) -> (r: Vec<G1Point>)
    requires
        points@.len() == scalars@.len(),
        forall|i: int| 0 <= i < points@.len() ==> (#[trigger] points@[i]).wf(),
        forall|i: int| 0 <= i < scalars@.len() ==> (#[trigger] scalars@[i]).wf(),
    ensures
        r@.len() == points@.len(),
        forall|i: int|
            0 <= i < r@.len() ==> (#[trigger] r@[i]).wf() && r@[i]@ == g1_scale(
                points@[i]@,
                scalars@[i]@,
            ),
{
    points.par_iter().zip(scalars.par_iter()).map(|(p, s)| p.scale(s)).collect()
}

/// `GroupAffine::is_on_curve` for G1: true for the point at infinity, and
/// else the comparison of `y^2` with `x^3 + 4` in the base field.
#[verifier::external_body]
fn g1_curve_test(p: &G1Point) -> (r: bool)
    requires
        p.wf(),
    ensures
        r == g1_on_curve(p@),
{
    G1Affine::read(&p.bytes[..]).unwrap().is_on_curve()
}

/// `GroupAffine::is_in_correct_subgroup_assuming_on_curve` for G1, whose
/// answer `g1_in_prime_subgroup` names.
#[verifier::external_body]
fn g1_subgroup_test(p: &G1Point) -> (r: bool)
    requires
        p.wf(),
    ensures
        r == g1_in_prime_subgroup(p@),
{
    G1Affine::read(&p.bytes[..]).unwrap().is_in_correct_subgroup_assuming_on_curve()
}

} // verus!
