//! The byte form of an accumulator: the encodings of its points, those of
//! G1 first, one after the other.

use crate::accumulator::{Accumulator, AccumulatorView, Parameters};
use crate::g1::{g1_encoding_wf, g1_in_prime_subgroup, g1_on_curve, G1Point};
use crate::g2::{g2_encoding_wf, g2_in_prime_subgroup, g2_on_curve, G2Point};
use vstd::prelude::*;

verus! {

/// How many points are tested for membership in the group of prime order
/// when an accumulator is read.
#[derive(Clone, Copy, Debug, PartialEq, Eq, Structural)]
pub enum SubgroupCheck {
    /// Every point is tested.
    Full,
    /// Only the element of degree one of each group is tested: the structure
    /// check ties every other element to these two.
    Partial,
}

/// Why a byte string was not read as an accumulator.
#[derive(Clone, Copy, Debug, PartialEq, Eq, Structural)]
pub enum DeserialiseError {
    /// The length is not that of the declared numbers of elements.
    WrongLength,
    /// A coordinate is not below the base modulus, or the mark of the point
    /// at infinity is neither 0 nor 1.
    MalformedEncoding,
    /// A point does not satisfy its curve's equation.
    NotOnCurve,
    /// A point on the curve is outside the group of prime order.
    SubgroupViolation,
}

/// The bytes of an accumulator: at `97 * i` the element `i` of G1, and after
/// all of them, at steps of 193, the elements of G2.
pub open spec fn serialised(acc: AccumulatorView) -> Seq<u8> {
    let n1 = acc.tau_g1.len() as int;
    let n2 = acc.tau_g2.len() as int;
    Seq::new(
        (97 * n1 + 193 * n2) as nat,
        |k: int|
            if k < 97 * n1 {
                acc.tau_g1[k / 97][k % 97]
            } else {
                acc.tau_g2[(k - 97 * n1) / 193][(k - 97 * n1) % 193]
            },
    )
}

/// The 97 bytes in which the element `i` of G1 stands.
pub open spec fn g1_chunk(bytes: Seq<u8>, i: int) -> Seq<u8> {
    bytes.subrange(97 * i, 97 * i + 97)
}

/// The 193 bytes in which the element `j` of G2 stands, after `n1` elements
/// of G1.
pub open spec fn g2_chunk(bytes: Seq<u8>, n1: int, j: int) -> Seq<u8> {
    bytes.subrange(97 * n1 + 193 * j, 97 * n1 + 193 * j + 193)
}

/// What the bytes hold when read as `n1` elements of G1 and `n2` of G2.
pub open spec fn decoded(bytes: Seq<u8>, n1: nat, n2: nat) -> AccumulatorView {
    AccumulatorView {
        tau_g1: Seq::new(n1, |i: int| g1_chunk(bytes, i)),
        tau_g2: Seq::new(n2, |j: int| g2_chunk(bytes, n1 as int, j)),
    }
}

/// Whether the element at `index` of either group is tested for membership
/// in the group of prime order.
pub open spec fn subgroup_tested(check: SubgroupCheck, index: int) -> bool {
    check == SubgroupCheck::Full || index == 1
}

/// What is wrong with an encoding of a point of G1, if anything.
pub open spec fn g1_fault(e: Seq<u8>, test_subgroup: bool) -> Option<DeserialiseError> {
    if !g1_encoding_wf(e) {
        Some(DeserialiseError::MalformedEncoding)
    } else if !g1_on_curve(e) {
        Some(DeserialiseError::NotOnCurve)
    } else if test_subgroup && !g1_in_prime_subgroup(e) {
        Some(DeserialiseError::SubgroupViolation)
    } else {
        None
    }
}

/// What is wrong with an encoding of a point of G2, if anything.
pub open spec fn g2_fault(e: Seq<u8>, test_subgroup: bool) -> Option<DeserialiseError> {
    if !g2_encoding_wf(e) {
        Some(DeserialiseError::MalformedEncoding)
    } else if !g2_on_curve(e) {
        Some(DeserialiseError::NotOnCurve)
    } else if test_subgroup && !g2_in_prime_subgroup(e) {
        Some(DeserialiseError::SubgroupViolation)
    } else {
        None
    }
}

/// What is wrong with the point at `k`, counting the elements of G1 and then
/// those of G2.
pub open spec fn fault_at(bytes: Seq<u8>, n1: nat, check: SubgroupCheck, k: int) -> Option<
    DeserialiseError,
> {
    if k < n1 {
        g1_fault(g1_chunk(bytes, k), subgroup_tested(check, k))
    } else {
        g2_fault(g2_chunk(bytes, n1 as int, k - n1), subgroup_tested(check, k - n1))
    }
}

/// The fault of the first faulty point from `k` on, if there is one.
pub open spec fn first_fault_from(
    bytes: Seq<u8>,
    n1: nat,
    n2: nat,
    check: SubgroupCheck,
    k: int,
) -> Option<DeserialiseError>
    decreases n1 + n2 - k,
{
    if k < 0 || k >= n1 + n2 {
        None
    } else if fault_at(bytes, n1, check, k) is Some {
        fault_at(bytes, n1, check, k)
    } else {
        first_fault_from(bytes, n1, n2, check, k + 1)
    }
}

/// The first fault from `k` on is the fault at `k`, or where there is none,
/// the first one after `k`.
pub proof fn lemma_first_fault_step(bytes: Seq<u8>, n1: nat, n2: nat, check: SubgroupCheck, k: int)
    requires
        0 <= k < n1 + n2,
    ensures
        first_fault_from(bytes, n1, n2, check, k) == (if fault_at(bytes, n1, check, k) is Some {
            fault_at(bytes, n1, check, k)
        } else {
            first_fault_from(bytes, n1, n2, check, k + 1)
        }),
{
}

/// What reading the bytes as an accumulator gives: the points they hold, or
/// the reason why not. A wrong length is told before any point is looked at,
/// and of several faulty points the first decides.
pub open spec fn deserialised(bytes: Seq<u8>, n1: nat, n2: nat, check: SubgroupCheck) -> Result<
    AccumulatorView,
    DeserialiseError,
> {
    if bytes.len() != 97 * n1 + 193 * n2 {
        Err(DeserialiseError::WrongLength)
    } else {
        match first_fault_from(bytes, n1, n2, check, 0) {
            Some(e) => Err(e),
            None => Ok(decoded(bytes, n1, n2)),
        }
    }
}

/// Where no point from `k` on has a fault, there is no first fault from `k` on.
pub proof fn lemma_no_fault(bytes: Seq<u8>, n1: nat, n2: nat, check: SubgroupCheck, k: int)
    requires
        0 <= k,
        forall|m: int| k <= m < n1 + n2 ==> #[trigger] fault_at(bytes, n1, check, m) is None,
    ensures
        first_fault_from(bytes, n1, n2, check, k) is None,
    decreases n1 + n2 - k,
{
    if k < n1 + n2 {
        assert(fault_at(bytes, n1, check, k) is None);
        lemma_no_fault(bytes, n1, n2, check, k + 1);
    }
}

/// Every point of the accumulator lies on its curve and in the group of
/// prime order.
pub open spec fn all_points_valid(acc: AccumulatorView) -> bool {
    &&& forall|i: int| 0 <= i < acc.tau_g1.len() ==> g1_fault(#[trigger] acc.tau_g1[i], true) is None
    &&& forall|j: int| 0 <= j < acc.tau_g2.len() ==> g2_fault(#[trigger] acc.tau_g2[j], true) is None
}

/// Reading what was written gives back what was held. The bytes of an
/// accumulator hold its points again, each in its place; and where every
/// point is valid, reading them succeeds with that accumulator, however many
/// points are tested for membership in the group of prime order. Where
/// reading succeeds at all, it gives that accumulator.
pub proof fn lemma_round_trip(acc: AccumulatorView, check: SubgroupCheck)
    requires
        acc.wf(),
    ensures
        decoded(serialised(acc), acc.tau_g1.len(), acc.tau_g2.len()) == acc,
        all_points_valid(acc) ==> deserialised(
            serialised(acc),
            acc.tau_g1.len(),
            acc.tau_g2.len(),
            check,
        ) == Ok::<AccumulatorView, DeserialiseError>(acc),
        deserialised(serialised(acc), acc.tau_g1.len(), acc.tau_g2.len(), check) matches Ok(v)
            ==> v == acc,
{
    let bytes = serialised(acc);
    let n1 = acc.tau_g1.len();
    let n2 = acc.tau_g2.len();
    let back = decoded(bytes, n1, n2);
    assert forall|i: int| 0 <= i < n1 implies #[trigger] back.tau_g1[i] == acc.tau_g1[i] by {
        assert(g1_encoding_wf(acc.tau_g1[i]));
        assert forall|t: int| 0 <= t < 97 implies g1_chunk(bytes, i)[t] == acc.tau_g1[i][t] by {
            assert(bytes[97 * i + t] == acc.tau_g1[(97 * i + t) / 97][(97 * i + t) % 97]);
        }
        assert(g1_chunk(bytes, i) =~= acc.tau_g1[i]);
    }
    assert forall|j: int| 0 <= j < n2 implies #[trigger] back.tau_g2[j] == acc.tau_g2[j] by {
        assert(g2_encoding_wf(acc.tau_g2[j]));
        assert forall|t: int| 0 <= t < 193 implies g2_chunk(bytes, n1 as int, j)[t]
            == acc.tau_g2[j][t] by {
            let k = 97 * n1 + 193 * j + t;
            assert(bytes[k] == acc.tau_g2[(k - 97 * n1) / 193][(k - 97 * n1) % 193]);
        }
        assert(g2_chunk(bytes, n1 as int, j) =~= acc.tau_g2[j]);
    }
    assert(back.tau_g1 =~= acc.tau_g1);
    assert(back.tau_g2 =~= acc.tau_g2);
    if all_points_valid(acc) {
        assert forall|m: int| 0 <= m < n1 + n2 implies #[trigger] fault_at(bytes, n1, check, m) is None by {
            if m < n1 {
                assert(back.tau_g1[m] == acc.tau_g1[m]);
                assert(g1_fault(acc.tau_g1[m], true) is None);
            } else {
                assert(back.tau_g2[m - n1] == acc.tau_g2[m - n1]);
                assert(g2_fault(acc.tau_g2[m - n1], true) is None);
            }
        }
        lemma_no_fault(bytes, n1, n2, check, 0);
    }
}

/// Copies `N` bytes out of a byte string.
fn copy_chunk<const N: usize>(bytes: &[u8], offset: usize) -> (r: [u8; N])
    requires
        offset + N <= bytes@.len(),
    ensures
        r@ == bytes@.subrange(offset as int, offset + N),
{
    let mut chunk: [u8; N] = [0u8; N];
    let total: usize = bytes.len();
    let mut t: usize = 0;
    while t < N
        invariant
            t <= N,
            total == bytes@.len(),
            offset + N <= total,
            chunk@.len() == N,
            forall|u: int| 0 <= u < t ==> chunk@[u] == bytes@[offset + u],
        decreases N - t,
    {
        chunk[t] = bytes[offset + t];
        t = t + 1;
    }
    assert(chunk@ =~= bytes@.subrange(offset as int, offset + N));
    chunk
}

/// Reads and tests the point of G1 that stands at `offset`.
fn read_g1(bytes: &[u8], offset: usize, test_subgroup: bool) -> (r: Result<G1Point, DeserialiseError>)
    requires
        offset + 97 <= bytes@.len(),
    ensures
        match r {
            Ok(p) => p.wf() && p@ == bytes@.subrange(offset as int, offset + 97) && g1_fault(
                p@,
                test_subgroup,
            ) is None,
            Err(e) => g1_fault(bytes@.subrange(offset as int, offset + 97), test_subgroup) == Some(
                e,
            ),
        },
{
    let chunk: [u8; 97] = copy_chunk::<97>(bytes, offset);
    match G1Point::from_bytes(chunk) {
        None => Err(DeserialiseError::MalformedEncoding),
        Some(p) => {
            if !p.is_on_curve() {
                Err(DeserialiseError::NotOnCurve)
            } else if test_subgroup && !p.is_in_prime_subgroup() {
                Err(DeserialiseError::SubgroupViolation)
            } else {
                Ok(p)
            }
        },
    }
}

/// Reads and tests the point of G2 that stands at `offset`.
fn read_g2(bytes: &[u8], offset: usize, test_subgroup: bool) -> (r: Result<G2Point, DeserialiseError>)
    requires
        offset + 193 <= bytes@.len(),
    ensures
        match r {
            Ok(p) => p.wf() && p@ == bytes@.subrange(offset as int, offset + 193) && g2_fault(
                p@,
                test_subgroup,
            ) is None,
            Err(e) => g2_fault(bytes@.subrange(offset as int, offset + 193), test_subgroup)
                == Some(e),
        },
{
    let chunk: [u8; 193] = copy_chunk::<193>(bytes, offset);
    match G2Point::from_bytes(chunk) {
        None => Err(DeserialiseError::MalformedEncoding),
        Some(p) => {
            if !p.is_on_curve() {
                Err(DeserialiseError::NotOnCurve)
            } else if test_subgroup && !p.is_in_prime_subgroup() {
                Err(DeserialiseError::SubgroupViolation)
            } else {
                Ok(p)
            }
        },
    }
}

impl Accumulator {
    /// The bytes of the accumulator.
    pub fn serialise(&self) -> (r: Vec<u8>)
        ensures
            r@ == serialised(self@),
    {
        let n1: usize = self.num_g1_elements();
        let n2: usize = self.num_g2_elements();
        let mut out: Vec<u8> = Vec::new();
        let mut i: usize = 0;
        while i < n1
            invariant
                i <= n1,
                n1 == self@.tau_g1.len(),
                out@.len() == 97 * i,
                forall|k: int| 0 <= k < 97 * i ==> out@[k] == self@.tau_g1[k / 97][k % 97],
            decreases n1 - i,
        {
            let bytes: [u8; 97] = self.g1_element(i).to_bytes();
            let mut t: usize = 0;
            while t < 97
                invariant
                    t <= 97,
                    i < n1,
                    n1 == self@.tau_g1.len(),
                    bytes@ == self@.tau_g1[i as int],
                    bytes@.len() == 97,
                    out@.len() == 97 * i + t,
                    forall|k: int| 0 <= k < 97 * i ==> out@[k] == self@.tau_g1[k / 97][k % 97],
                    forall|u: int| 0 <= u < t ==> out@[97 * i + u] == bytes@[u],
                decreases 97 - t,
            {
                out.push(bytes[t]);
                t = t + 1;
            }
            assert forall|k: int| 0 <= k < 97 * (i + 1) implies out@[k] == self@.tau_g1[k / 97][k
                % 97] by {
                if k >= 97 * i {
                    assert(out@[97 * i + (k - 97 * i)] == bytes@[k - 97 * i]);
                }
            }
            i = i + 1;
        }
        let mut j: usize = 0;
        while j < n2
            invariant
                j <= n2,
                n1 == self@.tau_g1.len(),
                n2 == self@.tau_g2.len(),
                out@.len() == 97 * n1 + 193 * j,
                forall|k: int| 0 <= k < 97 * n1 ==> out@[k] == self@.tau_g1[k / 97][k % 97],
                forall|k: int|
                    97 * n1 <= k < 97 * n1 + 193 * j ==> out@[k] == self@.tau_g2[(k - 97 * n1)
                        / 193][(k - 97 * n1) % 193],
            decreases n2 - j,
        {
            let bytes: [u8; 193] = self.g2_element(j).to_bytes();
            let mut t: usize = 0;
            while t < 193
                invariant
                    t <= 193,
                    j < n2,
                    n1 == self@.tau_g1.len(),
                    n2 == self@.tau_g2.len(),
                    bytes@ == self@.tau_g2[j as int],
                    bytes@.len() == 193,
                    out@.len() == 97 * n1 + 193 * j + t,
                    forall|k: int| 0 <= k < 97 * n1 ==> out@[k] == self@.tau_g1[k / 97][k % 97],
                    forall|k: int|
                        97 * n1 <= k < 97 * n1 + 193 * j ==> out@[k] == self@.tau_g2[(k - 97 * n1)
                            / 193][(k - 97 * n1) % 193],
                    forall|u: int| 0 <= u < t ==> out@[97 * n1 + 193 * j + u] == bytes@[u],
                decreases 193 - t,
            {
                out.push(bytes[t]);
                t = t + 1;
            }
            assert forall|k: int| 97 * n1 <= k < 97 * n1 + 193 * (j + 1) implies out@[k]
                == self@.tau_g2[(k - 97 * n1) / 193][(k - 97 * n1) % 193] by {
                if k >= 97 * n1 + 193 * j {
                    let u = k - 97 * n1 - 193 * j;
                    assert(out@[97 * n1 + 193 * j + u] == bytes@[u]);
                }
            }
            j = j + 1;
        }
        assert(out@ =~= serialised(self@));
        out
    }

    /// Reads an accumulator of the declared numbers of elements, testing
    /// every point as `subgroup_check` says.
    pub fn deserialise(bytes: &[u8], parameters: Parameters, subgroup_check: SubgroupCheck) -> (r:
        Result<Accumulator, DeserialiseError>)
        ensures
            match r {
                Ok(acc) => acc.wf() && deserialised(
                    bytes@,
                    parameters.num_g1_elements_needed as nat,
                    parameters.num_g2_elements_needed as nat,
                    subgroup_check,
                ) == Ok::<AccumulatorView, DeserialiseError>(acc@),
                Err(e) => deserialised(
                    bytes@,
                    parameters.num_g1_elements_needed as nat,
                    parameters.num_g2_elements_needed as nat,
                    subgroup_check,
                ) == Err::<AccumulatorView, DeserialiseError>(e),
            },
    {
        let n1: usize = parameters.num_g1_elements_needed;
        let n2: usize = parameters.num_g2_elements_needed;
        let expected: u128 = (n1 as u128) * 97 + (n2 as u128) * 193;
        if bytes.len() as u128 != expected {
            return Err(DeserialiseError::WrongLength);
        }
        let full: bool = match subgroup_check {
            SubgroupCheck::Full => true,
            SubgroupCheck::Partial => false,
        };
        let total: usize = bytes.len();
        let ghost all = first_fault_from(bytes@, n1 as nat, n2 as nat, subgroup_check, 0);
        let mut tau_g1: Vec<G1Point> = Vec::with_capacity(n1);
        let mut offset: usize = 0;
        let mut i: usize = 0;
        while i < n1
            invariant
                i <= n1,
                total == bytes@.len(),
                total == 97 * n1 + 193 * n2,
                offset == 97 * i,
                full == (subgroup_check == SubgroupCheck::Full),
                n1 == parameters.num_g1_elements_needed,
                n2 == parameters.num_g2_elements_needed,
                all == first_fault_from(bytes@, n1 as nat, n2 as nat, subgroup_check, 0),
                all == first_fault_from(bytes@, n1 as nat, n2 as nat, subgroup_check, i as int),
                tau_g1@.len() == i,
                forall|k: int|
                    0 <= k < i ==> (#[trigger] tau_g1@[k]).wf() && tau_g1@[k]@ == g1_chunk(
                        bytes@,
                        k,
                    ),
            decreases n1 - i,
        {
            proof {
                lemma_first_fault_step(bytes@, n1 as nat, n2 as nat, subgroup_check, i as int);
            }
            match read_g1(bytes, offset, full || i == 1) {
                Ok(p) => {
                    tau_g1.push(p);
                },
                Err(e) => {
                    return Err(e);
                },
            }
            offset = offset + 97;
            i = i + 1;
        }
        let mut tau_g2: Vec<G2Point> = Vec::with_capacity(n2);
        let mut j: usize = 0;
        while j < n2
            invariant
                j <= n2,
                total == bytes@.len(),
                total == 97 * n1 + 193 * n2,
                offset == 97 * n1 + 193 * j,
                full == (subgroup_check == SubgroupCheck::Full),
                n1 == parameters.num_g1_elements_needed,
                n2 == parameters.num_g2_elements_needed,
                all == first_fault_from(bytes@, n1 as nat, n2 as nat, subgroup_check, 0),
                all == first_fault_from(bytes@, n1 as nat, n2 as nat, subgroup_check, n1 + j),
                tau_g2@.len() == j,
                forall|k: int|
                    0 <= k < j ==> (#[trigger] tau_g2@[k]).wf() && tau_g2@[k]@ == g2_chunk(
                        bytes@,
                        n1 as int,
                        k,
                    ),
            decreases n2 - j,
        {
            proof {
                lemma_first_fault_step(bytes@, n1 as nat, n2 as nat, subgroup_check, n1 + j);
            }
            match read_g2(bytes, offset, full || j == 1) {
                Ok(p) => {
                    tau_g2.push(p);
                },
                Err(e) => {
                    return Err(e);
                },
            }
            offset = offset + 193;
            j = j + 1;
        }
        let acc = Accumulator::from_points(tau_g1, tau_g2);
        assert(acc@.tau_g1 =~= decoded(bytes@, n1 as nat, n2 as nat).tau_g1);
        assert(acc@.tau_g2 =~= decoded(bytes@, n1 as nat, n2 as nat).tau_g2);
        Ok(acc)
    }
}

} // verus!
