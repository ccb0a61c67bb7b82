//! The pairing of BLS12-381 on encoded points.

use crate::encoding::bytes_equal;
use crate::g1::G1Point;
use crate::g2::G2Point;
use ark_bls12_381::{Bls12_381, G1Affine, G2Affine};
use ark_ec::PairingEngine;
use ark_ff::{FromBytes, ToBytes};
use vstd::prelude::*;

verus! {

/// The encoding of the pairing of the two encoded points, as the curve
/// library computes it: the Miller loop, then the final exponentiation, which
/// gives nothing where the loop's value has no inverse.
pub uninterp spec fn pairing_output(p: Seq<u8>, q: Seq<u8>) -> Option<Seq<u8>>;

/// Both pairings have a value, and the two values are the same:
/// `e(a, b) == e(c, d)`.
pub open spec fn pairings_agree(a: Seq<u8>, b: Seq<u8>, c: Seq<u8>, d: Seq<u8>) -> bool {
    pairing_output(a, b) is Some && pairing_output(a, b) == pairing_output(c, d)
}

/// A value of the pairing: an element of the target group, held by the 576
/// bytes of its twelve coefficients.
#[derive(Clone, Copy, Debug)]
pub struct Gt {
    pub(crate) bytes: [u8; 576],
}

impl View for Gt {
    type V = Seq<u8>;

    /// The encoding.
    closed spec fn view(&self) -> Seq<u8> {
        self.bytes@
    }
}

impl PartialEq for Gt {
    fn eq(&self, other: &Gt) -> (r: bool) {
        bytes_equal(self.bytes.as_slice(), other.bytes.as_slice())
    }
}

impl Eq for Gt {

}

impl vstd::std_specs::cmp::PartialEqSpecImpl for Gt {
    open spec fn obeys_eq_spec() -> bool {
        true
    }

    open spec fn eq_spec(&self, other: &Gt) -> bool {
        self@ == other@
    }
}

impl Gt {
    /// The encoding.
    pub fn to_bytes(&self) -> (r: [u8; 576])
        ensures
            r@ == self@,
    {
        self.bytes
    }
}

/// The pairing of a point of G1 with a point of G2, where it has a value.
pub fn pairing(p: &G1Point, q: &G2Point) -> (r: Option<Gt>)
    requires
        p.wf(),
        q.wf(),
    ensures
        r is Some <==> pairing_output(p@, q@) is Some,
        r matches Some(v) ==> pairing_output(p@, q@) == Some(v@),
{
    pairing_value(p, q)
}

/// Tells whether `e(a, b) == e(c, d)`, both pairings having a value.
pub fn same_pairing(a: &G1Point, b: &G2Point, c: &G1Point, d: &G2Point) -> (r: bool)
    requires
        a.wf(),
        b.wf(),
        c.wf(),
        d.wf(),
    ensures
        r == pairings_agree(a@, b@, c@, d@),
{
    match pairing(a, b) {
        Some(left) => match pairing(c, d) {
            Some(right) => left == right,
            None => false,
        },
        None => false,
    }
}

/// `Bls12_381::miller_loop` on the one pair of points, then
/// `Bls12_381::final_exponentiation`, the value written out coefficient by
/// coefficient. `pairing_output` names what comes of them.
#[verifier::external_body]
fn pairing_value(p: &G1Point, q: &G2Point) -> (r: Option<Gt>)
    requires
        p.wf(),
        q.wf(),
    ensures
        r is Some <==> pairing_output(p@, q@) is Some,
        r matches Some(v) ==> pairing_output(p@, q@) == Some(v@),
{
    let left = G1Affine::read(&p.bytes[..]).unwrap();
    let right = G2Affine::read(&q.bytes[..]).unwrap();
    let looped = Bls12_381::miller_loop(core::iter::once(&(left.into(), right.into())));
    match Bls12_381::final_exponentiation(&looped) {
        Some(value) => {
            let mut bytes = [0u8; 576];
            value.write(&mut bytes[..]).unwrap();
            Some(Gt { bytes })
        },
        None => None,
    }
}

} // verus!
