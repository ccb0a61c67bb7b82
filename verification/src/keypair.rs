//! A contributor's secret and the commitment that is published for it.

use crate::encoding::lemma_le_value_injective;
use crate::field::{scalar_modulus, Scalar};
use crate::g2::{g2_scale, G2Point, G2_GENERATOR_BYTES};
use vstd::prelude::*;

verus! {

/// The encoding of the commitment to the secret `s`: `s` times the generator
/// of G2.
pub open spec fn commitment_of(s: nat) -> Seq<u8> {
    g2_scale(G2_GENERATOR_BYTES@, s)
}

/// A secret scalar, to be used for one update and then forgotten.
#[derive(Clone, Copy, Debug)]
pub struct PrivateKey {
    pub(crate) tau: Scalar,
}

impl View for PrivateKey {
    type V = nat;

    /// The secret.
    closed spec fn view(&self) -> nat {
        self.tau@
    }
}

impl PrivateKey {
    /// The secret is held by its least residue.
    pub open spec fn wf(&self) -> bool {
        self@ < scalar_modulus()
    }

    /// The key whose secret is `n`.
    pub fn from_u64(n: u64) -> (r: PrivateKey)
        ensures
            r.wf(),
            r@ == n,
    {
        PrivateKey { tau: Scalar::from_u64(n) }
    }

    /// The key whose secret is `tau`.
    pub fn from_scalar(tau: Scalar) -> (r: PrivateKey)
        requires
            tau.wf(),
        ensures
            r.wf(),
            r@ == tau@,
    {
        PrivateKey { tau }
    }

    /// A key whose secret is drawn at random and is neither 0 nor 1: should
    /// one of the two be drawn, the key of the secret 2 is given in its place.
    pub fn rand() -> (r: PrivateKey)
        ensures
            r.wf(),
            r@ >= 2,
    {
        let drawn = Scalar::random();
        let zero = Scalar::from_u64(0);
        let one = Scalar::from_u64(1);
        proof {
            drawn.lemma_view_of_encoding();
            zero.lemma_view_of_encoding();
            one.lemma_view_of_encoding();
        }
        if drawn == zero || drawn == one {
            PrivateKey { tau: Scalar::from_u64(2) }
        } else {
            proof {
                if drawn@ == 0 {
                    lemma_le_value_injective(drawn.encoding(), zero.encoding());
                }
                if drawn@ == 1 {
                    lemma_le_value_injective(drawn.encoding(), one.encoding());
                }
            }
            PrivateKey { tau: drawn }
        }
    }

    /// The secret.
    pub fn secret(&self) -> (r: Scalar)
        requires
            self.wf(),
        ensures
            r.wf(),
            r@ == self@,
    {
        self.tau
    }

    /// The commitment to the secret.
    pub fn to_public(&self) -> (r: G2Point)
        requires
            self.wf(),
        ensures
            r.wf(),
            r@ == commitment_of(self@),
    {
        G2Point::generator().scale(&self.tau)
    }
}

} // verus!
