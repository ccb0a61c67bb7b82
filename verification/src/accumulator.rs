//! The accumulator of a powers-of-tau ceremony: its state, how a contribution
//! updates it, and how a transcript of contributions is audited.

use crate::field::{scalar_modulus, Scalar};
use crate::g1::{g1_encoding_wf, g1_scale, g1_scale_each, G1Point, G1_GENERATOR_BYTES};
use crate::g2::{
    g2_encoding_wf, g2_scale, g2_scale_each, lemma_g2_constants_wf, G2Point, G2_GENERATOR_BYTES,
};
use crate::keypair::{commitment_of, PrivateKey};
use crate::pairing::{pairings_agree, same_pairing};
use crate::serialisation::{deserialised, serialised, DeserialiseError, SubgroupCheck};
use crate::update_proof::{chain_valid, proofs_wf, UpdateProof};
use vstd::arithmetic::div_mod::{lemma_mul_mod_noop_left, lemma_small_mod};
use vstd::arithmetic::power::{lemma_pow1, pow};
use vstd::prelude::*;

verus! {

/// How many elements of each group an accumulator holds.
#[derive(Clone, Copy, Debug)]
pub struct Parameters {
    pub num_g1_elements_needed: usize,
    pub num_g2_elements_needed: usize,
}

/// The powers of the accumulated secret in G1 and in G2, the power zero first.
#[derive(Clone, Debug)]
pub struct Accumulator {
    pub(crate) tau_g1: Vec<G1Point>,
    pub(crate) tau_g2: Vec<G2Point>,
}

/// What an accumulator holds: the encodings of its points.
pub struct AccumulatorView {
    pub tau_g1: Seq<Seq<u8>>,
    pub tau_g2: Seq<Seq<u8>>,
}

impl View for Accumulator {
    type V = AccumulatorView;

    closed spec fn view(&self) -> AccumulatorView {
        AccumulatorView {
            tau_g1: self.tau_g1@.map_values(|p: G1Point| p@),
            tau_g2: self.tau_g2@.map_values(|p: G2Point| p@),
        }
    }
}

/// The power `k` of the secret `s` in the scalar field.
pub open spec fn challenge_power(s: nat, k: nat) -> nat {
    (pow(s as int, k) % (scalar_modulus() as int)) as nat
}

/// One more factor `s` takes the power `k` to the power `k + 1`.
pub proof fn lemma_challenge_power_step(s: nat, k: nat)
    ensures
        challenge_power(s, k + 1) == (challenge_power(s, k) * s) % scalar_modulus(),
{
    let m = scalar_modulus() as int;
    let p = pow(s as int, k);
    assert(pow(s as int, k + 1) == (s as int) * p) by {
        reveal(pow);
    }
    assert((s as int) * p == p * (s as int)) by (nonlinear_arith);
    lemma_mul_mod_noop_left(p, s as int, m);
}

/// The powers `s, s^2, ..., s^n` of a secret in the scalar field.
pub fn vandemonde_challenge(x: &Scalar, n: usize) -> (challenges: Vec<Scalar>)
    requires
        x.wf(),
    ensures
        challenges@.len() == n,
        forall|i: int|
            0 <= i < n ==> (#[trigger] challenges@[i]).wf() && challenges@[i]@ == challenge_power(
                x@,
                (i + 1) as nat,
            ),
{
    let mut challenges: Vec<Scalar> = Vec::with_capacity(n);
    if n == 0 {
        return challenges;
    }
    challenges.push(*x);
    proof {
        lemma_pow1(x@ as int);
        lemma_small_mod(x@, scalar_modulus());
    }
    let mut i: usize = 0;
    while i < n - 1
        invariant
            n >= 1,
            i <= n - 1,
            x.wf(),
            challenges@.len() == i + 1,
            forall|j: int|
                0 <= j <= i ==> (#[trigger] challenges@[j]).wf() && challenges@[j]@
                    == challenge_power(x@, (j + 1) as nat),
        decreases n - i,
    {
        let last = challenges[i];
        let next = last.times(x);
        proof {
            lemma_challenge_power_step(x@, (i + 1) as nat);
        }
        challenges.push(next);
        i = i + 1;
    }
    challenges
}

/// Leaves the first point as it is and takes each other point as many times
/// as the power before its index says.
fn rescale_g1(points: &Vec<G1Point>, powers: &Vec<Scalar>) -> (r: Vec<G1Point>)
    requires
        powers@.len() + 1 >= points@.len(),
        forall|i: int| 0 <= i < points@.len() ==> (#[trigger] points@[i]).wf(),
        forall|i: int| 0 <= i < powers@.len() ==> (#[trigger] powers@[i]).wf(),
    ensures
        r@.len() == points@.len(),
        forall|i: int| 0 <= i < r@.len() ==> (#[trigger] r@[i]).wf(),
        points@.len() > 0 ==> r@[0]@ == points@[0]@,
        forall|i: int|
            1 <= i < r@.len() ==> (#[trigger] r@[i])@ == g1_scale(points@[i]@, powers@[i - 1]@),
{
    let n: usize = points.len();
    if n == 0 {
        return Vec::new();
    }
    let mut tail: Vec<G1Point> = Vec::with_capacity(n - 1);
    let mut used: Vec<Scalar> = Vec::with_capacity(n - 1);
    let mut i: usize = 1;
    while i < n
        invariant
            1 <= i <= n,
            n == points@.len(),
            powers@.len() + 1 >= n,
            tail@.len() == i - 1,
            used@.len() == i - 1,
            forall|j: int| 0 <= j < points@.len() ==> (#[trigger] points@[j]).wf(),
            forall|j: int| 0 <= j < powers@.len() ==> (#[trigger] powers@[j]).wf(),
            forall|j: int| 0 <= j < i - 1 ==> #[trigger] tail@[j] == points@[j + 1],
            forall|j: int| 0 <= j < i - 1 ==> #[trigger] used@[j] == powers@[j],
        decreases n - i,
    {
        tail.push(points[i]);
        used.push(powers[i - 1]);
        i = i + 1;
    }
    let scaled = g1_scale_each(&tail, &used);
    let mut r: Vec<G1Point> = Vec::with_capacity(n);
    r.push(points[0]);
    let mut k: usize = 0;
    while k < n - 1
        invariant
            k <= n - 1,
            n == points@.len(),
            n >= 1,
            scaled@.len() == n - 1,
            r@.len() == k + 1,
            r@[0] == points@[0],
            points@[0].wf(),
            forall|j: int|
                0 <= j < scaled@.len() ==> (#[trigger] scaled@[j]).wf() && scaled@[j]@
                    == g1_scale(points@[j + 1]@, powers@[j]@),
            forall|j: int| 1 <= j < k + 1 ==> #[trigger] r@[j] == scaled@[j - 1],
        decreases n - k,
    {
        r.push(scaled[k]);
        k = k + 1;
    }
    r
}

/// Leaves the first point as it is and takes each other point as many times
/// as the power before its index says.
fn rescale_g2(points: &Vec<G2Point>, powers: &Vec<Scalar>) -> (r: Vec<G2Point>)
    requires
        powers@.len() + 1 >= points@.len(),
        forall|i: int| 0 <= i < points@.len() ==> (#[trigger] points@[i]).wf(),
        forall|i: int| 0 <= i < powers@.len() ==> (#[trigger] powers@[i]).wf(),
    ensures
        r@.len() == points@.len(),
        forall|i: int| 0 <= i < r@.len() ==> (#[trigger] r@[i]).wf(),
        points@.len() > 0 ==> r@[0]@ == points@[0]@,
        forall|i: int|
            1 <= i < r@.len() ==> (#[trigger] r@[i])@ == g2_scale(points@[i]@, powers@[i - 1]@),
{
    let n: usize = points.len();
    if n == 0 {
        return Vec::new();
    }
    let mut tail: Vec<G2Point> = Vec::with_capacity(n - 1);
    let mut used: Vec<Scalar> = Vec::with_capacity(n - 1);
    let mut i: usize = 1;
    while i < n
        invariant
            1 <= i <= n,
            n == points@.len(),
            powers@.len() + 1 >= n,
            tail@.len() == i - 1,
            used@.len() == i - 1,
            forall|j: int| 0 <= j < points@.len() ==> (#[trigger] points@[j]).wf(),
            forall|j: int| 0 <= j < powers@.len() ==> (#[trigger] powers@[j]).wf(),
            forall|j: int| 0 <= j < i - 1 ==> #[trigger] tail@[j] == points@[j + 1],
            forall|j: int| 0 <= j < i - 1 ==> #[trigger] used@[j] == powers@[j],
        decreases n - i,
    {
        tail.push(points[i]);
        used.push(powers[i - 1]);
        i = i + 1;
    }
    let scaled = g2_scale_each(&tail, &used);
    let mut r: Vec<G2Point> = Vec::with_capacity(n);
    r.push(points[0]);
    let mut k: usize = 0;
    while k < n - 1
        invariant
            k <= n - 1,
            n == points@.len(),
            n >= 1,
            scaled@.len() == n - 1,
            r@.len() == k + 1,
            r@[0] == points@[0],
            points@[0].wf(),
            forall|j: int|
                0 <= j < scaled@.len() ==> (#[trigger] scaled@[j]).wf() && scaled@[j]@
                    == g2_scale(points@[j + 1]@, powers@[j]@),
            forall|j: int| 1 <= j < k + 1 ==> #[trigger] r@[j] == scaled@[j - 1],
        decreases n - k,
    {
        r.push(scaled[k]);
        k = k + 1;
    }
    r
}

/// The elements of G1 after a contribution of the secret `s`: the first
/// stays, and the one at `i` is taken `s^i` times.
pub open spec fn updated_g1(tau_g1: Seq<Seq<u8>>, s: nat) -> Seq<Seq<u8>> {
    Seq::new(
        tau_g1.len(),
        |i: int|
            if i == 0 {
                tau_g1[0]
            } else {
                g1_scale(tau_g1[i], challenge_power(s, i as nat))
            },
    )
}

/// The elements of G2 after a contribution of the secret `s`: the first
/// stays, and the one at `i` is taken `s^i` times.
pub open spec fn updated_g2(tau_g2: Seq<Seq<u8>>, s: nat) -> Seq<Seq<u8>> {
    Seq::new(
        tau_g2.len(),
        |i: int|
            if i == 0 {
                tau_g2[0]
            } else {
                g2_scale(tau_g2[i], challenge_power(s, i as nat))
            },
    )
}

/// A commitment that only the secrets 0 and 1 give: the neutral element or
/// the generator itself.
pub open spec fn degenerate_commitment(c: Seq<u8>) -> bool {
    c[192] == 1 || c == G2_GENERATOR_BYTES@
}

/// The list of proofs takes the accumulator `before` to `after`, and `after`
/// is sound in itself.
pub open spec fn transcript_valid(
    before: AccumulatorView,
    after: AccumulatorView,
    proofs: Seq<UpdateProof>,
) -> bool {
    &&& proofs.len() >= 1
    &&& after.tau_g1[1] == proofs.last()@.new_accumulated_point
    &&& chain_valid(before.tau_g1[1], proofs)
    &&& forall|i: int|
        0 <= i < proofs.len() ==> !degenerate_commitment(
            (#[trigger] proofs[i])@.commitment_to_secret,
        )
    &&& after.tau_g1[0][96] != 1
    &&& after.tau_g2[0][192] != 1
    &&& after.structure_valid()
}

/// Why a contribution was not made.
#[derive(Clone, Copy, Debug, PartialEq, Eq, Structural)]
pub enum ContributeError {
    /// The bytes were not read as an accumulator.
    Deserialise(DeserialiseError),
    /// The accumulator has no element of degree one in G1 to contribute to.
    TooFewElements,
}

/// What contributing the secret `s` to the accumulator in `points` gives: the
/// bytes of the updated accumulator, or the reason why there is none.
pub open spec fn contribution(points: Seq<u8>, g1_size: nat, g2_size: nat, s: nat) -> Result<
    Seq<u8>,
    ContributeError,
> {
    match deserialised(points, g1_size, g2_size, SubgroupCheck::Partial) {
        Err(e) => Err(ContributeError::Deserialise(e)),
        Ok(acc) => if g1_size < 2 {
            Err(ContributeError::TooFewElements)
        } else {
            Ok(serialised(acc.updated(s)))
        },
    }
}

/// What the accumulator holds after the contributions of all the secrets in
/// their order.
pub open spec fn updated_by_all(acc: AccumulatorView, secrets: Seq<nat>) -> AccumulatorView
    decreases secrets.len(),
{
    if secrets.len() == 0 {
        acc
    } else {
        updated_by_all(acc, secrets.drop_last()).updated(secrets.last())
    }
}

/// No contribution, and no number of contributions one after the other,
/// changes how many elements an accumulator holds or what stands at index 0
/// of either sequence.
pub proof fn lemma_updates_keep_anchors(acc: AccumulatorView, secrets: Seq<nat>)
    ensures
        updated_by_all(acc, secrets).tau_g1.len() == acc.tau_g1.len(),
        updated_by_all(acc, secrets).tau_g2.len() == acc.tau_g2.len(),
        acc.tau_g1.len() > 0 ==> updated_by_all(acc, secrets).tau_g1[0] == acc.tau_g1[0],
        acc.tau_g2.len() > 0 ==> updated_by_all(acc, secrets).tau_g2[0] == acc.tau_g2[0],
    decreases secrets.len(),
{
    if secrets.len() > 0 {
        lemma_updates_keep_anchors(acc, secrets.drop_last());
    }
}

/// A contribution of the secret 0 or 1 is never accepted: whatever the
/// accumulators before and after it are, a transcript that holds a proof
/// with the commitment to such a secret is not valid.
pub proof fn lemma_degenerate_secret_rejected(
    before: AccumulatorView,
    after: AccumulatorView,
    proofs: Seq<UpdateProof>,
    i: int,
    secret: nat,
)
    requires
        secret == 0 || secret == 1,
        0 <= i < proofs.len(),
        proofs[i]@.commitment_to_secret == commitment_of(secret),
    ensures
        !transcript_valid(before, after, proofs),
{
    lemma_g2_constants_wf();
    assert(degenerate_commitment(proofs[i]@.commitment_to_secret));
}

/// The transition that `update` makes with the secret 0 or 1 is rejected by
/// `verify_update`, whatever accumulator it starts from.
pub proof fn lemma_degenerate_update_rejected(before: AccumulatorView, proof: UpdateProof, secret: nat)
    requires
        secret == 0 || secret == 1,
        proof@.commitment_to_secret == commitment_of(secret),
        proof@.new_accumulated_point == before.updated(secret).tau_g1[1],
    ensures
        !transcript_valid(before, before.updated(secret), seq![proof]),
{
    lemma_degenerate_secret_rejected(before, before.updated(secret), seq![proof], 0, secret);
}

impl AccumulatorView {
    /// What the accumulator holds after a contribution of the secret `s`.
    pub open spec fn updated(self, s: nat) -> AccumulatorView {
        AccumulatorView { tau_g1: updated_g1(self.tau_g1, s), tau_g2: updated_g2(self.tau_g2, s) }
    }

    /// Every element is a well-formed encoding.
    pub open spec fn wf(self) -> bool {
        &&& forall|i: int| 0 <= i < self.tau_g1.len() ==> g1_encoding_wf(#[trigger] self.tau_g1[i])
        &&& forall|i: int| 0 <= i < self.tau_g2.len() ==> g2_encoding_wf(#[trigger] self.tau_g2[i])
    }

    /// The element of G1 after the one at `i` is it times the secret:
    /// `e(g1[i + 1], g2[0]) == e(g1[i], g2[1])`.
    pub open spec fn g1_step_holds(self, i: int) -> bool {
        pairings_agree(self.tau_g1[i + 1], self.tau_g2[0], self.tau_g1[i], self.tau_g2[1])
    }

    /// The element of G2 after the one at `i` is it times the secret:
    /// `e(g1[0], g2[i + 1]) == e(g1[1], g2[i])`.
    pub open spec fn g2_step_holds(self, i: int) -> bool {
        pairings_agree(self.tau_g1[0], self.tau_g2[i + 1], self.tau_g1[1], self.tau_g2[i])
    }

    /// Both sequences are the consecutive powers of one secret, as far as
    /// the pairing can tell.
    pub open spec fn structure_valid(self) -> bool {
        &&& forall|i: int| 0 <= i < self.tau_g1.len() - 1 ==> #[trigger] self.g1_step_holds(i)
        &&& forall|i: int| 0 <= i < self.tau_g2.len() - 1 ==> #[trigger] self.g2_step_holds(i)
    }
}

impl Accumulator {
    /// Every element is a well-formed encoding.
    pub open spec fn wf(&self) -> bool {
        self@.wf()
    }

    /// The accumulator before any contribution: every element is its group's
    /// generator.
    pub fn new(parameters: Parameters) -> (r: Accumulator)
        ensures
            r.wf(),
            r@.tau_g1 == Seq::new(
                parameters.num_g1_elements_needed as nat,
                |i: int| G1_GENERATOR_BYTES@,
            ),
            r@.tau_g2 == Seq::new(
                parameters.num_g2_elements_needed as nat,
                |i: int| G2_GENERATOR_BYTES@,
            ),
    {
        let n1: usize = parameters.num_g1_elements_needed;
        let n2: usize = parameters.num_g2_elements_needed;
        let mut tau_g1: Vec<G1Point> = Vec::with_capacity(n1);
        let mut i: usize = 0;
        while i < n1
            invariant
                i <= n1,
                tau_g1@.len() == i,
                forall|j: int|
                    0 <= j < i ==> (#[trigger] tau_g1@[j]).wf() && tau_g1@[j]@
                        == G1_GENERATOR_BYTES@,
            decreases n1 - i,
        {
            tau_g1.push(G1Point::generator());
            i = i + 1;
        }
        let mut tau_g2: Vec<G2Point> = Vec::with_capacity(n2);
        let mut k: usize = 0;
        while k < n2
            invariant
                k <= n2,
                tau_g2@.len() == k,
                forall|j: int|
                    0 <= j < k ==> (#[trigger] tau_g2@[j]).wf() && tau_g2@[j]@
                        == G2_GENERATOR_BYTES@,
            decreases n2 - k,
        {
            tau_g2.push(G2Point::generator());
            k = k + 1;
        }
        let r = Accumulator { tau_g1, tau_g2 };
        assert(r@.tau_g1 =~= Seq::new(n1 as nat, |i: int| G1_GENERATOR_BYTES@));
        assert(r@.tau_g2 =~= Seq::new(n2 as nat, |i: int| G2_GENERATOR_BYTES@));
        r
    }

    /// The fresh accumulator for commitments to polynomials of
    /// `num_coefficients` coefficients: that many elements of G1 and two
    /// of G2.
    pub fn new_for_kzg(num_coefficients: usize) -> (r: Accumulator)
        ensures
            r.wf(),
            r@.tau_g1 == Seq::new(num_coefficients as nat, |i: int| G1_GENERATOR_BYTES@),
            r@.tau_g2 == Seq::new(2, |i: int| G2_GENERATOR_BYTES@),
    {
        let params = Parameters {
            num_g1_elements_needed: num_coefficients,
            num_g2_elements_needed: 2,
        };
        Accumulator::new(params)
    }

    /// The accumulator that holds the given points.
    pub fn from_points(tau_g1: Vec<G1Point>, tau_g2: Vec<G2Point>) -> (r: Accumulator)
        ensures
            r@.tau_g1.len() == tau_g1@.len(),
            r@.tau_g2.len() == tau_g2@.len(),
            forall|i: int| 0 <= i < tau_g1@.len() ==> #[trigger] r@.tau_g1[i] == tau_g1@[i]@,
            forall|i: int| 0 <= i < tau_g2@.len() ==> #[trigger] r@.tau_g2[i] == tau_g2@[i]@,
    {
        Accumulator { tau_g1, tau_g2 }
    }

    /// How many elements of G1 the accumulator holds.
    pub fn num_g1_elements(&self) -> (r: usize)
        ensures
            r == self@.tau_g1.len(),
    {
        self.tau_g1.len()
    }

    /// How many elements of G2 the accumulator holds.
    pub fn num_g2_elements(&self) -> (r: usize)
        ensures
            r == self@.tau_g2.len(),
    {
        self.tau_g2.len()
    }

    /// The element of G1 at `i`.
    pub fn g1_element(&self, i: usize) -> (r: G1Point)
        requires
            i < self@.tau_g1.len(),
        ensures
            r@ == self@.tau_g1[i as int],
    {
        self.tau_g1[i]
    }

    /// The element of G2 at `i`.
    pub fn g2_element(&self, i: usize) -> (r: G2Point)
        requires
            i < self@.tau_g2.len(),
        ensures
            r@ == self@.tau_g2[i as int],
    {
        self.tau_g2[i]
    }

    /// Takes every element but the first of each sequence as many times as
    /// the power of the secret at its index says.
    fn update_accumulator(&mut self, private_key: Scalar)
        requires
            old(self).wf(),
            private_key.wf(),
        ensures
            final(self).wf(),
            final(self)@ == old(self)@.updated(private_key@),
    {
        let n1: usize = self.tau_g1.len();
        let n2: usize = self.tau_g2.len();
        let max_number_elements: usize = if n1 >= n2 {
            n1
        } else {
            n2
        };
        let count: usize = if max_number_elements == 0 {
            0
        } else {
            max_number_elements - 1
        };
        let powers_of_priv_key = vandemonde_challenge(&private_key, count);
        proof {
            assert forall|i: int| 0 <= i < self.tau_g1@.len() implies (#[trigger] self.tau_g1@[i]).wf() by {
                assert(self@.tau_g1[i] == self.tau_g1@[i]@);
            }
            assert forall|i: int| 0 <= i < self.tau_g2@.len() implies (#[trigger] self.tau_g2@[i]).wf() by {
                assert(self@.tau_g2[i] == self.tau_g2@[i]@);
            }
        }
        let tau_g1 = rescale_g1(&self.tau_g1, &powers_of_priv_key);
        let tau_g2 = rescale_g2(&self.tau_g2, &powers_of_priv_key);
        proof {
            let before = self@;
            let s = private_key@;
            assert(tau_g1@.map_values(|p: G1Point| p@) =~= updated_g1(before.tau_g1, s));
            assert(tau_g2@.map_values(|p: G2Point| p@) =~= updated_g2(before.tau_g2, s));
        }
        self.tau_g1 = tau_g1;
        self.tau_g2 = tau_g2;
    }

    /// Applies a contribution to the accumulator and gives the proof of it.
    pub fn update(&mut self, private_key: PrivateKey) -> (r: UpdateProof)
        requires
            old(self).wf(),
            private_key.wf(),
            old(self)@.tau_g1.len() >= 2,
        ensures
            final(self).wf(),
            final(self)@ == old(self)@.updated(private_key@),
            final(self)@.tau_g1[0] == old(self)@.tau_g1[0],
            old(self)@.tau_g2.len() > 0 ==> final(self)@.tau_g2[0] == old(self)@.tau_g2[0],
            r.wf(),
            r@.commitment_to_secret == commitment_of(private_key@),
            r@.new_accumulated_point == final(self)@.tau_g1[1],
    {
        self.update_accumulator(private_key.secret());
        assert(self@.tau_g1.len() == old(self)@.tau_g1.len());
        let updated_tau = self.tau_g1[1];
        assert(updated_tau@ == self@.tau_g1[1]);
        UpdateProof::new(private_key.to_public(), updated_tau)
    }

    /// Checks that the proofs, in their order, take `before` to `after`, that
    /// no contribution was degenerate, and that `after` holds consecutive
    /// powers of one secret.
    pub fn verify_updates(before: &Accumulator, after: &Accumulator, update_proofs: &[UpdateProof]) -> (r: bool)
        requires
            before.wf(),
            after.wf(),
            proofs_wf(update_proofs@),
            update_proofs@.len() >= 1,
            before@.tau_g1.len() >= 2,
            after@.tau_g1.len() >= 2,
            after@.tau_g2.len() >= 2,
        ensures
            r == transcript_valid(before@, after@, update_proofs@),
    {
        let n: usize = update_proofs.len();
        let last_update = update_proofs[n - 1];
        assert(last_update@ == update_proofs@.last()@);
        let after_tau = after.tau_g1[1];
        assert(after_tau@ == after@.tau_g1[1]);
        if after_tau != last_update.new_accumulated_point() {
            return false;
        }
        let before_tau = before.tau_g1[1];
        assert(before_tau@ == before@.tau_g1[1]);
        if !UpdateProof::verify_chain(before_tau, update_proofs) {
            return false;
        }
        let generator = G2Point::generator();
        let mut i: usize = 0;
        while i < n
            invariant
                i <= n,
                n == update_proofs@.len(),
                proofs_wf(update_proofs@),
                generator@ == G2_GENERATOR_BYTES@,
                forall|j: int|
                    0 <= j < i ==> !degenerate_commitment(
                        (#[trigger] update_proofs@[j])@.commitment_to_secret,
                    ),
            decreases n - i,
        {
            let commitment = update_proofs[i].commitment_to_secret();
            assert(update_proofs@[i as int]@.wf());
            if commitment.is_zero() || commitment == generator {
                assert(degenerate_commitment(update_proofs@[i as int]@.commitment_to_secret));
                return false;
            }
            i = i + 1;
        }
        let after_g1_0 = after.tau_g1[0];
        let after_g2_0 = after.tau_g2[0];
        assert(after_g1_0@ == after@.tau_g1[0]);
        assert(after_g2_0@ == after@.tau_g2[0]);
        if after_g1_0.is_zero() {
            return false;
        }
        if after_g2_0.is_zero() {
            return false;
        }
        if !after.structure_check() {
            return false;
        }
        true
    }

    /// Checks a single contribution: `verify_updates` on the one proof.
    pub fn verify_update(before: &Accumulator, after: &Accumulator, update_proof: &UpdateProof) -> (r: bool)
        requires
            before.wf(),
            after.wf(),
            update_proof.wf(),
            before@.tau_g1.len() >= 2,
            after@.tau_g1.len() >= 2,
            after@.tau_g2.len() >= 2,
        ensures
            r == transcript_valid(before@, after@, seq![*update_proof]),
    {
        let proofs: [UpdateProof; 1] = [*update_proof];
        assert(proofs@ =~= seq![*update_proof]);
        Accumulator::verify_updates(before, after, proofs.as_slice())
    }

    /// Checks that each sequence goes up in consecutive powers of one secret.
    pub fn structure_check(&self) -> (r: bool)
        requires
            self.wf(),
            self@.tau_g1.len() >= 2,
            self@.tau_g2.len() >= 2,
        ensures
            r == self@.structure_valid(),
    {
        let tau_g2_0 = self.tau_g2[0];
        let tau_g2_1 = self.tau_g2[1];
        let tau_g1_0 = self.tau_g1[0];
        let tau_g1_1 = self.tau_g1[1];
        assert(tau_g2_0@ == self@.tau_g2[0] && tau_g2_1@ == self@.tau_g2[1]);
        assert(tau_g1_0@ == self@.tau_g1[0] && tau_g1_1@ == self@.tau_g1[1]);

        let n1: usize = self.tau_g1.len();
        let mut i: usize = 0;
        while i + 1 < n1
            invariant
                i < n1,
                self.wf(),
                n1 == self@.tau_g1.len(),
                n1 >= 2,
                self@.tau_g2.len() >= 2,
                tau_g2_0@ == self@.tau_g2[0],
                tau_g2_1@ == self@.tau_g2[1],
                forall|j: int| 0 <= j < i ==> #[trigger] self@.g1_step_holds(j),
            decreases n1 - i,
        {
            let tau_i = self.tau_g1[i];
            let tau_i_next = self.tau_g1[i + 1];
            assert(tau_i@ == self@.tau_g1[i as int]);
            assert(tau_i_next@ == self@.tau_g1[i + 1]);
            if !same_pairing(&tau_i_next, &tau_g2_0, &tau_i, &tau_g2_1) {
                assert(!self@.g1_step_holds(i as int));
                return false;
            }
            i = i + 1;
        }

        let n2: usize = self.tau_g2.len();
        let mut k: usize = 0;
        while k + 1 < n2
            invariant
                k < n2,
                self.wf(),
                n2 == self@.tau_g2.len(),
                n2 >= 2,
                self@.tau_g1.len() >= 2,
                tau_g1_0@ == self@.tau_g1[0],
                tau_g1_1@ == self@.tau_g1[1],
                forall|j: int| 0 <= j < self@.tau_g1.len() - 1 ==> #[trigger] self@.g1_step_holds(j),
                forall|j: int| 0 <= j < k ==> #[trigger] self@.g2_step_holds(j),
            decreases n2 - k,
        {
            let tau_i = self.tau_g2[k];
            let tau_i_next = self.tau_g2[k + 1];
            assert(tau_i@ == self@.tau_g2[k as int]);
            assert(tau_i_next@ == self@.tau_g2[k + 1]);
            if !same_pairing(&tau_g1_0, &tau_i_next, &tau_g1_1, &tau_i) {
                assert(!self@.g2_step_holds(k as int));
                return false;
            }
            k = k + 1;
        }
        true
    }
}

/// Contributes the secret of `key` to the accumulator that `points` holds,
/// of `g1_size` elements of G1 and `g2_size` of G2, and gives the bytes of the
/// updated accumulator.
pub fn contribute_with_key(points: &[u8], g1_size: usize, g2_size: usize, key: PrivateKey) -> (r:
    Result<Vec<u8>, ContributeError>)
    requires
        key.wf(),
    ensures
        match r {
            Ok(bytes) => contribution(points@, g1_size as nat, g2_size as nat, key@) == Ok::<
                Seq<u8>,
                ContributeError,
            >(bytes@),
            Err(e) => contribution(points@, g1_size as nat, g2_size as nat, key@) == Err::<
                Seq<u8>,
                ContributeError,
            >(e),
        },
{
    let params = Parameters { num_g1_elements_needed: g1_size, num_g2_elements_needed: g2_size };
    let mut accumulator = match Accumulator::deserialise(points, params, SubgroupCheck::Partial) {
        Ok(accumulator) => accumulator,
        Err(e) => {
            return Err(ContributeError::Deserialise(e));
        },
    };
    if g1_size < 2 {
        return Err(ContributeError::TooFewElements);
    }
    let _update_proof = accumulator.update(key);
    Ok(accumulator.serialise())
}

/// Contributes a secret drawn at random, which is neither 0 nor 1, to the
/// accumulator that `points` holds. Whether it succeeds does not depend on
/// the secret drawn.
pub fn contribute(points: Vec<u8>, g1_size: usize, g2_size: usize) -> (r: Result<
    Vec<u8>,
    ContributeError,
>)
    ensures
        match r {
            Ok(bytes) => exists|s: nat|
                2 <= s < scalar_modulus() && #[trigger] contribution(
                    points@,
                    g1_size as nat,
                    g2_size as nat,
                    s,
                ) == Ok::<Seq<u8>, ContributeError>(bytes@),
            Err(e) => forall|s: nat|
                #[trigger] contribution(points@, g1_size as nat, g2_size as nat, s) == Err::<
                    Seq<u8>,
                    ContributeError,
                >(e),
        },
{
    let priv_key = PrivateKey::rand();
    contribute_with_key(points.as_slice(), g1_size, g2_size, priv_key)
}

} // verus!
