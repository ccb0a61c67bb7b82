//! The certificate of one contribution, and the check of a chain of them.

use crate::g1::{g1_encoding_wf, G1Point};
use crate::g2::{g2_encoding_wf, G2Point, G2_GENERATOR_BYTES};
use crate::pairing::{pairings_agree, same_pairing};
use vstd::prelude::*;
use vstd::string::StringExecFns;

verus! {

/// What shows that a contributor who knows the secret behind
/// `commitment_to_secret` moved the accumulator's element of degree one to
/// `new_accumulated_point`.
#[derive(Clone, Copy, Debug)]
pub struct UpdateProof {
    pub(crate) commitment_to_secret: G2Point,
    pub(crate) new_accumulated_point: G1Point,
}

/// What an update proof holds: the encodings of its two points.
pub struct UpdateProofView {
    pub commitment_to_secret: Seq<u8>,
    pub new_accumulated_point: Seq<u8>,
}

impl View for UpdateProof {
    type V = UpdateProofView;

    closed spec fn view(&self) -> UpdateProofView {
        UpdateProofView {
            commitment_to_secret: self.commitment_to_secret@,
            new_accumulated_point: self.new_accumulated_point@,
        }
    }
}

impl PartialEq for UpdateProof {
    fn eq(&self, other: &UpdateProof) -> (r: bool) {
        self.commitment_to_secret == other.commitment_to_secret && self.new_accumulated_point
            == other.new_accumulated_point
    }
}

impl Eq for UpdateProof {

}

impl vstd::std_specs::cmp::PartialEqSpecImpl for UpdateProof {
    open spec fn obeys_eq_spec() -> bool {
        true
    }

    open spec fn eq_spec(&self, other: &UpdateProof) -> bool {
        self@ == other@
    }
}

impl UpdateProofView {
    /// Both points are well-formed encodings.
    pub open spec fn wf(self) -> bool {
        g2_encoding_wf(self.commitment_to_secret) && g1_encoding_wf(self.new_accumulated_point)
    }

    /// The proof takes `previous` to its new point by the committed secret:
    /// `e(new, G2) == e(previous, commitment)`, where `G2` is the generator.
    pub open spec fn links(self, previous: Seq<u8>) -> bool {
        pairings_agree(
            self.new_accumulated_point,
            G2_GENERATOR_BYTES@,
            previous,
            self.commitment_to_secret,
        )
    }
}

/// The point that the proof at `i` starts from: the chain's starting point
/// for the first proof, and for each other the new point of the proof before.
pub open spec fn chain_anchor(start: Seq<u8>, proofs: Seq<UpdateProof>, i: int) -> Seq<u8> {
    if i == 0 {
        start
    } else {
        proofs[i - 1]@.new_accumulated_point
    }
}

/// The proof at `i` links its anchor to its new point.
pub open spec fn link_holds(start: Seq<u8>, proofs: Seq<UpdateProof>, i: int) -> bool {
    proofs[i]@.links(chain_anchor(start, proofs, i))
}

/// Every proof of the list links the point before it to its own.
pub open spec fn chain_valid(start: Seq<u8>, proofs: Seq<UpdateProof>) -> bool {
    forall|i: int| 0 <= i < proofs.len() ==> #[trigger] link_holds(start, proofs, i)
}

/// A chain is checked from left to right: it holds with one more proof at
/// its end where it holds without it and the added proof links the new point
/// of the last one before it, or the starting point where there is none,
/// to its own.
pub proof fn lemma_chain_extends(start: Seq<u8>, proofs: Seq<UpdateProof>, next: UpdateProof)
    ensures
        chain_valid(start, proofs.push(next)) == (chain_valid(start, proofs) && next@.links(
            chain_anchor(start, proofs, proofs.len() as int),
        )),
{
    let longer = proofs.push(next);
    let n = proofs.len() as int;
    assert(longer[n] == next);
    assert(chain_anchor(start, longer, n) == chain_anchor(start, proofs, n)) by {
        if n > 0 {
            assert(longer[n - 1] == proofs[n - 1]);
        }
    }
    if chain_valid(start, longer) {
        assert(link_holds(start, longer, n));
        assert forall|i: int| 0 <= i < proofs.len() implies #[trigger] link_holds(start, proofs, i) by {
            assert(link_holds(start, longer, i));
            assert(longer[i] == proofs[i]);
            if i > 0 {
                assert(longer[i - 1] == proofs[i - 1]);
            }
        }
    }
    if chain_valid(start, proofs) && next@.links(chain_anchor(start, proofs, n)) {
        assert forall|i: int| 0 <= i < longer.len() implies #[trigger] link_holds(start, longer, i) by {
            if i < n {
                assert(link_holds(start, proofs, i));
                assert(longer[i] == proofs[i]);
                if i > 0 {
                    assert(longer[i - 1] == proofs[i - 1]);
                }
            }
        }
    }
}

/// Every proof of the list holds well-formed encodings.
pub open spec fn proofs_wf(proofs: Seq<UpdateProof>) -> bool {
    forall|i: int| 0 <= i < proofs.len() ==> (#[trigger] proofs[i])@.wf()
}

/// The digit of sixteen that stands for `n`, in lower case.
pub open spec fn hex_digit(n: int) -> char {
    seq!['0', '1', '2', '3', '4', '5', '6', '7', '8', '9', 'a', 'b', 'c', 'd', 'e', 'f'][n]
}

/// Two digits of sixteen for each byte, the high one first.
pub open spec fn hex_digits(bytes: Seq<u8>) -> Seq<char> {
    Seq::new(
        2 * bytes.len(),
        |i: int|
            if i % 2 == 0 {
                hex_digit(bytes[i / 2] as int / 16)
            } else {
                hex_digit(bytes[i / 2] as int % 16)
            },
    )
}

impl UpdateProof {
    /// Both points are well-formed encodings.
    pub open spec fn wf(&self) -> bool {
        self@.wf()
    }

    /// The proof that holds the two points.
    pub fn new(commitment_to_secret: G2Point, new_accumulated_point: G1Point) -> (r: UpdateProof)
        ensures
            r@.commitment_to_secret == commitment_to_secret@,
            r@.new_accumulated_point == new_accumulated_point@,
    {
        UpdateProof { commitment_to_secret, new_accumulated_point }
    }

    /// The commitment to the contributor's secret.
    pub fn commitment_to_secret(&self) -> (r: G2Point)
        ensures
            r@ == self@.commitment_to_secret,
    {
        self.commitment_to_secret
    }

    /// The accumulator's element of degree one after the contribution.
    pub fn new_accumulated_point(&self) -> (r: G1Point)
        ensures
            r@ == self@.new_accumulated_point,
    {
        self.new_accumulated_point
    }

    /// Checks this proof alone, against the point that it started from.
    pub fn verify(&self, previous_accumulated_point: &G1Point) -> (r: bool)
        requires
            self.wf(),
            previous_accumulated_point.wf(),
        ensures
            r == self@.links(previous_accumulated_point@),
    {
        let generator = G2Point::generator();
        same_pairing(
            &self.new_accumulated_point,
            &generator,
            previous_accumulated_point,
            &self.commitment_to_secret,
        )
    }

    /// Checks a list of proofs, each against the new point of the one before
    /// it and the first against `starting_point`.
    pub fn verify_chain(starting_point: G1Point, update_proofs: &[UpdateProof]) -> (r: bool)
        requires
            starting_point.wf(),
            proofs_wf(update_proofs@),
        ensures
            r == chain_valid(starting_point@, update_proofs@),
    {
        let mut anchor = starting_point;
        let n: usize = update_proofs.len();
        let mut i: usize = 0;
        while i < n
            invariant
                i <= n,
                n == update_proofs@.len(),
                proofs_wf(update_proofs@),
                anchor.wf(),
                anchor@ == chain_anchor(starting_point@, update_proofs@, i as int),
                forall|j: int| 0 <= j < i ==> #[trigger] link_holds(starting_point@, update_proofs@, j),
            decreases n - i,
        {
            let update_proof = update_proofs[i];
            assert(update_proof@ == update_proofs@[i as int]@);
            assert(update_proofs@[i as int]@.wf());
            if !update_proof.verify(&anchor) {
                assert(!link_holds(starting_point@, update_proofs@, i as int));
                return false;
            }
            anchor = update_proof.new_accumulated_point;
            i = i + 1;
        }
        true
    }

    /// The commitment's encoding in digits of sixteen, after `0x`.
    pub fn get_commitment_to_secret(&self) -> (r: String)
        ensures
            r@ == seq!['0', 'x'] + hex_digits(self@.commitment_to_secret),
    {
        let bytes = self.commitment_to_secret.to_bytes();
        let digits = hex_encode(bytes.as_slice());
        let mut commitment = String::from_str("0x");
        proof {
            reveal_strlit("0x");
            assert("0x"@ =~= seq!['0', 'x']);
        }
        commitment.append(digits.as_str());
        commitment
    }
}

/// `hex::encode`: for each byte two characters of `0123456789abcdef`, the one
/// for the high four bits first.
#[verifier::external_body]
fn hex_encode(bytes: &[u8]) -> (r: String)
    ensures
        r@ == hex_digits(bytes@),
{
    hex::encode(bytes)
}

} // verus!
