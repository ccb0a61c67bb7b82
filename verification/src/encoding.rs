//! Little-endian byte strings read as natural numbers.

use vstd::prelude::*;

verus! {

/// The number that the bytes of `bytes` from index `i` on stand for, the byte
/// at `i` being the least significant.
pub open spec fn le_value_from(bytes: Seq<u8>, i: int) -> nat
    decreases bytes.len() - i,
{
    if 0 <= i < bytes.len() {
        bytes[i] as nat + 256 * le_value_from(bytes, i + 1)
    } else {
        0
    }
}

/// The natural number that `bytes` stands for, least significant byte first.
pub open spec fn le_value(bytes: Seq<u8>) -> nat {
    le_value_from(bytes, 0)
}

/// Two byte strings of one length that stand for the same number from index
/// `i` on hold the same bytes from `i` on.
pub proof fn lemma_le_value_from_injective(a: Seq<u8>, b: Seq<u8>, i: int)
    requires
        a.len() == b.len(),
        0 <= i <= a.len(),
        le_value_from(a, i) == le_value_from(b, i),
    ensures
        forall|j: int| i <= j < a.len() ==> a[j] == b[j],
    decreases a.len() - i,
{
    if i < a.len() {
        lemma_le_value_from_injective(a, b, i + 1);
    }
}

/// Byte strings of one length stand for the same number only if they are equal.
pub proof fn lemma_le_value_injective(a: Seq<u8>, b: Seq<u8>)
    requires
        a.len() == b.len(),
        le_value(a) == le_value(b),
    ensures
        a == b,
{
    lemma_le_value_from_injective(a, b, 0);
    assert(a =~= b);
}

/// Of two byte strings of one length, the one with the smaller last byte
/// stands for the smaller number, from whatever index both are read.
pub proof fn lemma_less_by_last_byte(a: Seq<u8>, b: Seq<u8>, i: int)
    requires
        a.len() == b.len(),
        0 <= i < a.len(),
        a[a.len() - 1] < b[b.len() - 1],
    ensures
        le_value_from(a, i) < le_value_from(b, i),
    decreases a.len() - i,
{
    if i == a.len() - 1 {
        assert(le_value_from(a, i + 1) == 0);
        assert(le_value_from(b, i + 1) == 0);
    } else {
        lemma_less_by_last_byte(a, b, i + 1);
    }
}

/// Tells whether the `bound.len()` bytes of `a` that start at `start` stand
/// for a smaller number than `bound` does.
pub fn le_less_than(a: &[u8], start: usize, bound: &[u8]) -> (r: bool)
    requires
        start + bound@.len() <= a@.len(),
    ensures
        r == (le_value(a@.subrange(start as int, start + bound@.len())) < le_value(bound@)),
{
    let n: usize = bound.len();
    let total: usize = a.len();
    let ghost part = a@.subrange(start as int, start + n);
    let mut i: usize = n;
    let mut less: bool = false;
    let mut same: bool = true;
    while i > 0
        invariant
            i <= n,
            n == bound@.len(),
            total == a@.len(),
            start + n <= total,
            part == a@.subrange(start as int, start + n),
            less == (le_value_from(part, i as int) < le_value_from(bound@, i as int)),
            same == (le_value_from(part, i as int) == le_value_from(bound@, i as int)),
        decreases i,
    {
        i = i - 1;
        let x: u8 = a[start + i];
        let y: u8 = bound[i];
        assert(part[i as int] == x);
        less = less || (same && x < y);
        same = same && x == y;
    }
    less
}

/// Tells whether two byte strings are equal.
pub fn bytes_equal(a: &[u8], b: &[u8]) -> (r: bool)
    ensures
        r == (a@ == b@),
{
    if a.len() != b.len() {
        return false;
    }
    let n: usize = a.len();
    let mut i: usize = 0;
    while i < n
        invariant
            i <= n,
            n == a@.len(),
            n == b@.len(),
            forall|j: int| 0 <= j < i ==> a@[j] == b@[j],
        decreases n - i,
    {
        if a[i] != b[i] {
            return false;
        }
        i = i + 1;
    }
    assert(a@ =~= b@);
    true
}

} // verus!
