//! Points of the group G2 of BLS12-381, held by their byte encodings.

use crate::encoding::{bytes_equal, le_less_than, le_value, lemma_less_by_last_byte};
use crate::field::{base_modulus, lemma_base_modulus_bytes, Scalar, BASE_MODULUS_BYTES};
use ark_bls12_381::{Fr, G2Affine};
use ark_ec::wnaf::WnafContext;
use ark_ec::{AffineCurve, ProjectiveCurve};
use ark_ff::{FromBytes, ToBytes};
use rayon::iter::{IndexedParallelIterator, IntoParallelRefIterator, ParallelIterator};
use vstd::prelude::*;

verus! {

/// The encoding of the generator of G2.
pub const G2_GENERATOR_BYTES: [u8; 193] = [
    0xb8, 0xbd, 0x21, 0xc1, 0xc8, 0x56, 0x80, 0xd4, 0xef, 0xbb, 0x05, 0xa8, 0x26, 0x03, 0xac, 0x0b,
    0x77, 0xd1, 0xe3, 0x7a, 0x64, 0x0b, 0x51, 0xb4, 0x02, 0x3b, 0x40, 0xfa, 0xd4, 0x7a, 0xe4, 0xc6,
    0x51, 0x10, 0xc5, 0x2d, 0x27, 0x05, 0x08, 0x26, 0x91, 0x0a, 0x8f, 0xf0, 0xb2, 0xa2, 0x4a, 0x02,
    0x7e, 0x2b, 0x04, 0x5d, 0x05, 0x7d, 0xac, 0xe5, 0x57, 0x5d, 0x94, 0x13, 0x12, 0xf1, 0x4c, 0x33,
    0x49, 0x50, 0x7f, 0xdc, 0xbb, 0x61, 0xda, 0xb5, 0x1a, 0xb6, 0x20, 0x99, 0xd0, 0xd0, 0x6b, 0x59,
    0x65, 0x4f, 0x27, 0x88, 0xa0, 0xd3, 0xac, 0x7d, 0x60, 0x9f, 0x71, 0x52, 0x60, 0x2b, 0xe0, 0x13,
    0x01, 0x28, 0xb8, 0x08, 0x86, 0x54, 0x93, 0xe1, 0x89, 0xa2, 0xac, 0x3b, 0xcc, 0xc9, 0x3a, 0x92,
    0x2c, 0xd1, 0x60, 0x51, 0x69, 0x9a, 0x42, 0x6d, 0xa7, 0xd3, 0xbd, 0x8c, 0xaa, 0x9b, 0xfd, 0xad,
    0x1a, 0x35, 0x2e, 0xda, 0xc6, 0xcd, 0xc9, 0x8c, 0x11, 0x6e, 0x7d, 0x72, 0x27, 0xd5, 0xe5, 0x0c,
    0xbe, 0x79, 0x5f, 0xf0, 0x5f, 0x07, 0xa9, 0xaa, 0xa1, 0x1d, 0xec, 0x5c, 0x27, 0x0d, 0x37, 0x3f,
    0xab, 0x99, 0x2e, 0x57, 0xab, 0x92, 0x74, 0x26, 0xaf, 0x63, 0xa7, 0x85, 0x7e, 0x28, 0x3e, 0xcb,
    0x99, 0x8b, 0xc2, 0x2b, 0xb0, 0xd2, 0xac, 0x32, 0xcc, 0x34, 0xa7, 0x2e, 0xa0, 0xc4, 0x06, 0x06,
    0x00,
];

/// The encoding of the neutral element of G2.
pub const G2_IDENTITY_BYTES: [u8; 193] = [
    0x00, 0x00, 0x00, 0x00, 0x00, 0x00, 0x00, 0x00, 0x00, 0x00, 0x00, 0x00, 0x00, 0x00, 0x00, 0x00,
    0x00, 0x00, 0x00, 0x00, 0x00, 0x00, 0x00, 0x00, 0x00, 0x00, 0x00, 0x00, 0x00, 0x00, 0x00, 0x00,
    0x00, 0x00, 0x00, 0x00, 0x00, 0x00, 0x00, 0x00, 0x00, 0x00, 0x00, 0x00, 0x00, 0x00, 0x00, 0x00,
    0x00, 0x00, 0x00, 0x00, 0x00, 0x00, 0x00, 0x00, 0x00, 0x00, 0x00, 0x00, 0x00, 0x00, 0x00, 0x00,
    0x00, 0x00, 0x00, 0x00, 0x00, 0x00, 0x00, 0x00, 0x00, 0x00, 0x00, 0x00, 0x00, 0x00, 0x00, 0x00,
    0x00, 0x00, 0x00, 0x00, 0x00, 0x00, 0x00, 0x00, 0x00, 0x00, 0x00, 0x00, 0x00, 0x00, 0x00, 0x00,
    0x01, 0x00, 0x00, 0x00, 0x00, 0x00, 0x00, 0x00, 0x00, 0x00, 0x00, 0x00, 0x00, 0x00, 0x00, 0x00,
    0x00, 0x00, 0x00, 0x00, 0x00, 0x00, 0x00, 0x00, 0x00, 0x00, 0x00, 0x00, 0x00, 0x00, 0x00, 0x00,
    0x00, 0x00, 0x00, 0x00, 0x00, 0x00, 0x00, 0x00, 0x00, 0x00, 0x00, 0x00, 0x00, 0x00, 0x00, 0x00,
    0x00, 0x00, 0x00, 0x00, 0x00, 0x00, 0x00, 0x00, 0x00, 0x00, 0x00, 0x00, 0x00, 0x00, 0x00, 0x00,
    0x00, 0x00, 0x00, 0x00, 0x00, 0x00, 0x00, 0x00, 0x00, 0x00, 0x00, 0x00, 0x00, 0x00, 0x00, 0x00,
    0x00, 0x00, 0x00, 0x00, 0x00, 0x00, 0x00, 0x00, 0x00, 0x00, 0x00, 0x00, 0x00, 0x00, 0x00, 0x00,
    0x01,
];

/// The four numbers that an encoding of a point of G2 holds: the first
/// coordinate is `c.0 + c.1 * u` and the second `c.2 + c.3 * u`, where
/// `u * u = -1`.
pub open spec fn g2_coordinates(e: Seq<u8>) -> (nat, nat, nat, nat) {
    (
        le_value(e.subrange(0, 48)),
        le_value(e.subrange(48, 96)),
        le_value(e.subrange(96, 144)),
        le_value(e.subrange(144, 192)),
    )
}

/// `e` encodes a pair of coordinates for G2: 48 bytes for each of the four
/// numbers, least significant first and below the base modulus, then one byte
/// that is 1 for the point at infinity and 0 otherwise.
pub open spec fn g2_encoding_wf(e: Seq<u8>) -> bool {
    let c = g2_coordinates(e);
    &&& e.len() == 193
    &&& c.0 < base_modulus()
    &&& c.1 < base_modulus()
    &&& c.2 < base_modulus()
    &&& c.3 < base_modulus()
    &&& e[192] <= 1
}

/// The encoded coordinates satisfy the twisted curve's equation
/// `y^2 = x^3 + 4 + 4 * u`, or the encoding is marked as the point at infinity.
pub open spec fn g2_on_curve(e: Seq<u8>) -> bool {
    let c = g2_coordinates(e);
    let q = base_modulus() as int;
    let (x0, x1, y0, y1) = (c.0 as int, c.1 as int, c.2 as int, c.3 as int);
    e[192] == 1 || {
        &&& (y0 * y0 - y1 * y1) % q == (x0 * x0 * x0 - 3 * x0 * x1 * x1 + 4) % q
        &&& (2 * y0 * y1) % q == (3 * x0 * x0 * x1 - x1 * x1 * x1 + 4) % q
    }
}

/// The encoding of the product of the point encoded by the first argument
/// with the scalar, as the curve library's windowed multiplication computes it.
pub uninterp spec fn g2_scalar_mul(p: Seq<u8>, s: nat) -> Seq<u8>;

/// Whether the point encoded by the argument has the order of the scalar
/// field, as the curve library's test computes it.
pub uninterp spec fn g2_in_prime_subgroup(p: Seq<u8>) -> bool;

/// The encoding of `s` times the point that `p` encodes. Nothing times any
/// point, and anything times the point at infinity, is the neutral element;
/// one times a point is that point.
pub open spec fn g2_scale(p: Seq<u8>, s: nat) -> Seq<u8> {
    if s == 0 || p[192] == 1 {
        G2_IDENTITY_BYTES@
    } else if s == 1 {
        p
    } else {
        g2_scalar_mul(p, s)
    }
}

/// The two constants of G2 are well-formed encodings.
pub proof fn lemma_g2_constants_wf()
    ensures
        g2_encoding_wf(G2_GENERATOR_BYTES@),
        g2_encoding_wf(G2_IDENTITY_BYTES@),
        G2_GENERATOR_BYTES@[192] == 0,
        G2_IDENTITY_BYTES@[192] == 1,
{
    let q = BASE_MODULUS_BYTES@;
    lemma_base_modulus_bytes();
    lemma_less_by_last_byte(G2_GENERATOR_BYTES@.subrange(0, 48), q, 0);
    lemma_less_by_last_byte(G2_GENERATOR_BYTES@.subrange(48, 96), q, 0);
    lemma_less_by_last_byte(G2_GENERATOR_BYTES@.subrange(96, 144), q, 0);
    lemma_less_by_last_byte(G2_GENERATOR_BYTES@.subrange(144, 192), q, 0);
    lemma_less_by_last_byte(G2_IDENTITY_BYTES@.subrange(0, 48), q, 0);
    lemma_less_by_last_byte(G2_IDENTITY_BYTES@.subrange(48, 96), q, 0);
    lemma_less_by_last_byte(G2_IDENTITY_BYTES@.subrange(96, 144), q, 0);
    lemma_less_by_last_byte(G2_IDENTITY_BYTES@.subrange(144, 192), q, 0);
}

/// A point of G2 in affine coordinates.
#[derive(Clone, Copy, Debug)]
pub struct G2Point {
    pub(crate) bytes: [u8; 193],
}

impl View for G2Point {
    type V = Seq<u8>;

    /// The encoding.
    closed spec fn view(&self) -> Seq<u8> {
        self.bytes@
    }
}

impl PartialEq for G2Point {
    fn eq(&self, other: &G2Point) -> (r: bool) {
        bytes_equal(self.bytes.as_slice(), other.bytes.as_slice())
    }
}

impl Eq for G2Point {

}

impl vstd::std_specs::cmp::PartialEqSpecImpl for G2Point {
    open spec fn obeys_eq_spec() -> bool {
        true
    }

    open spec fn eq_spec(&self, other: &G2Point) -> bool {
        self@ == other@
    }
}

impl G2Point {
    /// The encoding is well-formed.
    pub open spec fn wf(&self) -> bool {
        g2_encoding_wf(self@)
    }

    /// The generator of G2.
    pub fn generator() -> (r: G2Point)
        ensures
            r.wf(),
            r@ == G2_GENERATOR_BYTES@,
    {
        proof {
            lemma_g2_constants_wf();
        }
        G2Point { bytes: G2_GENERATOR_BYTES }
    }

    /// The neutral element of G2, the point at infinity.
    pub fn identity() -> (r: G2Point)
        ensures
            r.wf(),
            r@ == G2_IDENTITY_BYTES@,
    {
        proof {
            lemma_g2_constants_wf();
        }
        G2Point { bytes: G2_IDENTITY_BYTES }
    }

    /// The point that `bytes` encodes, where they are a well-formed encoding.
    /// Whether the point lies on the curve is not asked here.
    pub fn from_bytes(bytes: [u8; 193]) -> (r: Option<G2Point>)
        ensures
            r is Some <==> g2_encoding_wf(bytes@),
            r matches Some(p) ==> p@ == bytes@,
    {
        proof {
            lemma_base_modulus_bytes();
        }
        let x0_fits = le_less_than(bytes.as_slice(), 0, BASE_MODULUS_BYTES.as_slice());
        let x1_fits = le_less_than(bytes.as_slice(), 48, BASE_MODULUS_BYTES.as_slice());
        let y0_fits = le_less_than(bytes.as_slice(), 96, BASE_MODULUS_BYTES.as_slice());
        let y1_fits = le_less_than(bytes.as_slice(), 144, BASE_MODULUS_BYTES.as_slice());
        if x0_fits && x1_fits && y0_fits && y1_fits && bytes[192] <= 1 {
            Some(G2Point { bytes })
        } else {
            None
        }
    }

    /// The encoding.
    pub fn to_bytes(&self) -> (r: [u8; 193])
        ensures
            r@ == self@,
    {
        self.bytes
    }

    /// Tells whether this is the point at infinity.
    pub fn is_zero(&self) -> (r: bool)
        requires
            self.wf(),
        ensures
            r == (self@[192] == 1),
    {
        self.bytes[192] == 1
    }

    /// The product of this point with a scalar.
    pub fn scale(&self, s: &Scalar) -> (r: G2Point)
        requires
            self.wf(),
            s.wf(),
        ensures
            r.wf(),
            r@ == g2_scale(self@, s@),
    {
        g2_wnaf_scale(self, s)
    }

    /// Tells whether the coordinates satisfy the curve's equation.
    pub fn is_on_curve(&self) -> (r: bool)
        requires
            self.wf(),
        ensures
            r == g2_on_curve(self@),
    {
        g2_curve_test(self)
    }

    /// Tells whether the point has the order of the scalar field. The answer
    /// means something only for a point on the curve.
    pub fn is_in_prime_subgroup(&self) -> (r: bool)
        requires
            self.wf(),
        ensures
            r == g2_in_prime_subgroup(self@),
    {
        g2_subgroup_test(self)
    }
}

/// `WnafContext::mul` with a window of 3, on a point of G2 read from its
/// encoding, the product written back in affine form. The product is named by
/// `g2_scalar_mul`, but for the three cases in which the loop over the
/// scalar's digits adds nothing or adds the point once to the neutral element.
#[verifier::external_body]
fn g2_wnaf_scale(p: &G2Point, s: &Scalar) -> (r: G2Point)
    requires
        p.wf(),
        s.wf(),
    ensures
        r.wf(),
        r@ == (if s@ == 0 || p@[192] == 1 {
            G2_IDENTITY_BYTES@
        } else if s@ == 1 {
            p@
        } else {
            g2_scalar_mul(p@, s@)
        }),
{
    let point = G2Affine::read(&p.bytes[..]).unwrap().into_projective();
    let scalar = Fr::read(&s.bytes[..]).unwrap();
    let product = WnafContext::new(3).mul(point, &scalar).into_affine();
    let mut bytes = [0u8; 193];
    product.write(&mut bytes[..]).unwrap();
    G2Point { bytes }
}

/// rayon's `par_iter`, `zip`, `map` and `collect` into a vector: the points
/// are scaled independently of each other, each by the scalar at its own
/// index, and the products come back in the order of the points.
#[verifier::external_body]
pub(crate) fn g2_scale_each(points: &Vec<G2Point>, scalars: &Vec<Scalar>) -> (r: Vec<G2Point>)
    requires
        points@.len() == scalars@.len(),
        forall|i: int| 0 <= i < points@.len() ==> (#[trigger] points@[i]).wf(),
        forall|i: int| 0 <= i < scalars@.len() ==> (#[trigger] scalars@[i]).wf(),
    ensures
        r@.len() == points@.len(),
        forall|i: int|
            0 <= i < r@.len() ==> (#[trigger] r@[i]).wf() && r@[i]@ == g2_scale(
                points@[i]@,
                scalars@[i]@,
            ),
{
    points.par_iter().zip(scalars.par_iter()).map(|(p, s)| p.scale(s)).collect()
}

/// `GroupAffine::is_on_curve` for G2: true for the point at infinity, and
/// else the comparison of `y^2` with `x^3 + 4 + 4 * u` in the quadratic
/// extension of the base field, written out by its two components.
#[verifier::external_body]
fn g2_curve_test(p: &G2Point) -> (r: bool)
    requires
        p.wf(),
    ensures
        r == g2_on_curve(p@),
{
    G2Affine::read(&p.bytes[..]).unwrap().is_on_curve()
}

/// `GroupAffine::is_in_correct_subgroup_assuming_on_curve` for G2, whose
/// answer `g2_in_prime_subgroup` names.
#[verifier::external_body]
fn g2_subgroup_test(p: &G2Point) -> (r: bool)
    requires
        p.wf(),
    ensures
        r == g2_in_prime_subgroup(p@),
{
    G2Affine::read(&p.bytes[..]).unwrap().is_in_correct_subgroup_assuming_on_curve()
}

} // verus!
