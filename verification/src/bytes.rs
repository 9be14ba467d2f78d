//! Big-endian byte encodings of integers, and byte-string helpers.

use vstd::prelude::*;
use crate::scale::pow256;

verus! {

/// Big-endian bytes of a `u32`.
pub open spec fn be32(x: u32) -> Seq<u8> {
    Seq::new(4, |i: int| (x >> ((24 - 8 * i) as u32)) as u8)
}

/// Big-endian bytes of a `u64`.
pub open spec fn be64(x: u64) -> Seq<u8> {
    Seq::new(8, |i: int| (x >> ((56 - 8 * i) as u64)) as u8)
}

/// Big-endian bytes of a `u128`.
pub open spec fn be128(x: u128) -> Seq<u8> {
    Seq::new(16, |i: int| (x >> ((120 - 8 * i) as u128)) as u8)
}

/// The number that a big-endian byte string denotes.
pub open spec fn be_value(s: Seq<u8>) -> nat
    decreases s.len(),
{
    if s.len() == 0 {
        0
    } else {
        be_value(s.drop_last()) * 256 + s.last() as nat
    }
}

/// A big-endian number of `n` bytes is below `256^n`.
pub proof fn lemma_be_value_bound(s: Seq<u8>)
    ensures
        be_value(s) < pow256(s.len()),
    decreases s.len(),
{
    if s.len() > 0 {
        lemma_be_value_bound(s.drop_last());
    }
}

/// Appends `s` to `v`.
pub fn append_bytes(v: &mut Vec<u8>, s: &[u8])
    ensures
        final(v)@ == old(v)@ + s@,
{
    let n = s.len();
    let mut i: usize = 0;
    while i < n
        invariant
            n == s@.len(),
            i <= n,
            v@ == old(v)@ + s@.subrange(0, i as int),
        decreases n - i,
    {
        v.push(s[i]);
        i = i + 1;
        assert(v@ =~= old(v)@ + s@.subrange(0, i as int));
    }
    assert(s@.subrange(0, n as int) =~= s@);
}

/// Appends the big-endian bytes of a `u32`.
pub fn push_be32(v: &mut Vec<u8>, x: u32)
    ensures
        final(v)@ == old(v)@ + be32(x),
{
    v.push((x >> 24u32) as u8);
    v.push((x >> 16u32) as u8);
    v.push((x >> 8u32) as u8);
    v.push((x >> 0u32) as u8);
    assert(v@ =~= old(v)@ + be32(x));
}

/// Appends the big-endian bytes of a `u64`.
pub fn push_be64(v: &mut Vec<u8>, x: u64)
    ensures
        final(v)@ == old(v)@ + be64(x),
{
    let mut i: u64 = 0;
    while i < 8
        invariant
            i <= 8,
            v@ == old(v)@ + be64(x).subrange(0, i as int),
        decreases 8 - i,
    {
        let sh: u64 = 56 - 8 * i;
        v.push((x >> sh) as u8);
        i = i + 1;
        assert(v@ =~= old(v)@ + be64(x).subrange(0, i as int));
    }
    assert(be64(x).subrange(0, 8) =~= be64(x));
}

/// Appends the big-endian bytes of a `u128`.
pub fn push_be128(v: &mut Vec<u8>, x: u128)
    ensures
        final(v)@ == old(v)@ + be128(x),
{
    let mut i: u128 = 0;
    while i < 16
        invariant
            i <= 16,
            v@ == old(v)@ + be128(x).subrange(0, i as int),
        decreases 16 - i,
    {
        let sh: u128 = 120 - 8 * i;
        v.push((x >> sh) as u8);
        i = i + 1;
        assert(v@ =~= old(v)@ + be128(x).subrange(0, i as int));
    }
    assert(be128(x).subrange(0, 16) =~= be128(x));
}

/// Reads at most 16 bytes as a big-endian number.
pub fn be_to_u128(bytes: &[u8]) -> (v: u128)
    requires
        bytes@.len() <= 16,
    ensures
        v as nat == be_value(bytes@),
{
    let n = bytes.len();
    let mut acc: u128 = 0;
    let mut i: usize = 0;
    proof {
        reveal_with_fuel(pow256, 17);
        assert(bytes@.subrange(0, 0) =~= Seq::<u8>::empty());
    }
    while i < n
        invariant
            n == bytes@.len(),
            n <= 16,
            i <= n,
            acc as nat == be_value(bytes@.subrange(0, i as int)),
            pow256(16) == 0x1_0000_0000_0000_0000_0000_0000_0000_0000,
        decreases n - i,
    {
        let ghost pre = bytes@.subrange(0, i as int);
        proof {
            lemma_be_value_bound(pre);
            crate::scale::lemma_pow256_monotone(pre.len(), 15);
            assert(bytes@.subrange(0, i + 1).drop_last() =~= pre);
        }
        acc = acc * 256 + bytes[i] as u128;
        i = i + 1;
    }
    assert(bytes@.subrange(0, n as int) =~= bytes@);
    acc
}

/// Whether two byte strings are equal.
pub fn bytes_equal(a: &[u8], b: &[u8]) -> (r: bool)
    ensures
        r == (a@ == b@),
{
    if a.len() != b.len() {
        return false;
    }
    let n = a.len();
    let mut i: usize = 0;
    while i < n
        invariant
            n == a@.len(),
            n == b@.len(),
            i <= n,
            forall|j: int| 0 <= j < i ==> a@[j] == b@[j],
        decreases n - i,
    {
        if a[i] != b[i] {
            return false;
        }
        i = i + 1;
    }
    assert(a@ =~= b@);
    true
}

} // verus!
