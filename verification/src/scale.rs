//! Decoding of the SCALE wire format in which Substrate pallets emit their
//! events: fixed-width little-endian integers, compact lengths, byte vectors,
//! UTF-8 strings and options. Every reader starts at a position in the input
//! and gives back the value and the position just after it, or `None` where
//! the input is too short or not well formed.

use vstd::prelude::*;

verus! {

/// `256` to the power `n`.
pub open spec fn pow256(n: nat) -> nat
    decreases n,
{
    if n == 0 {
        1
    } else {
        256 * pow256((n - 1) as nat)
    }
}

/// The number that a little-endian byte string denotes.
pub open spec fn le_value(s: Seq<u8>) -> nat
    decreases s.len(),
{
    if s.len() == 0 {
        0
    } else {
        s[0] as nat + 256 * le_value(s.drop_first())
    }
}

/// A little-endian number of `n` bytes is below `256^n`.
pub proof fn lemma_le_value_bound(s: Seq<u8>)
    ensures
        le_value(s) < pow256(s.len()),
    decreases s.len(),
{
    if s.len() > 0 {
        lemma_le_value_bound(s.drop_first());
    }
}

/// The powers of 256 that the fixed-width readers rely on.
pub proof fn lemma_pow256_values()
    ensures
        pow256(2) == 0x1_0000,
        pow256(4) == 0x1_0000_0000,
        pow256(8) == 0x1_0000_0000_0000_0000,
        pow256(16) == 0x1_0000_0000_0000_0000_0000_0000_0000_0000,
{
    reveal_with_fuel(pow256, 17);
}

/// The `n` bytes at `pos`, read as a little-endian number.
pub open spec fn le_at(s: Seq<u8>, pos: int, n: int) -> nat {
    le_value(s.subrange(pos, pos + n))
}

/// Reads `n` bytes at `pos` as a little-endian number.
fn read_le(bytes: &[u8], pos: usize, n: usize) -> (v: u128)
    requires
        n <= 16,
        pos + n <= bytes@.len(),
    ensures
        v as nat == le_at(bytes@, pos as int, n as int),
{
    proof {
        lemma_pow256_values();
    }
    let len = bytes.len();
    let mut acc: u128 = 0;
    let mut i: usize = n;
    assert(bytes@.subrange(pos + n, pos + n as int) =~= Seq::<u8>::empty());
    while i > 0
        invariant
            n <= 16,
            pos + n <= bytes@.len(),
            len == bytes@.len(),
            i <= n,
            acc as nat == le_value(bytes@.subrange(pos + i, pos + n as int)),
            pow256(16) == 0x1_0000_0000_0000_0000_0000_0000_0000_0000,
        decreases i,
    {
        let ghost tail = bytes@.subrange(pos + i, pos + n as int);
        let ghost longer = bytes@.subrange(pos + i - 1, pos + n as int);
        assert(longer.drop_first() =~= tail);
        proof {
            lemma_le_value_bound(tail);
            lemma_pow256_monotone(tail.len(), 15);
        }
        let b = bytes[pos + i - 1];
        acc = acc * 256 + b as u128;
        i = i - 1;
    }
    acc
}

pub proof fn lemma_pow256_monotone(a: nat, b: nat)
    requires
        a <= b,
    ensures
        pow256(a) <= pow256(b),
    decreases b,
{
    if a < b {
        lemma_pow256_monotone(a, (b - 1) as nat);
    }
}

/// A little-endian `u32` at `pos`.
pub open spec fn spec_u32_at(s: Seq<u8>, pos: usize) -> Option<(u32, usize)> {
    if pos + 4 <= s.len() {
        Some((le_at(s, pos as int, 4) as u32, (pos + 4) as usize))
    } else {
        None
    }
}

/// A little-endian `u64` at `pos`.
pub open spec fn spec_u64_at(s: Seq<u8>, pos: usize) -> Option<(u64, usize)> {
    if pos + 8 <= s.len() {
        Some((le_at(s, pos as int, 8) as u64, (pos + 8) as usize))
    } else {
        None
    }
}

/// A little-endian `u128` at `pos`.
pub open spec fn spec_u128_at(s: Seq<u8>, pos: usize) -> Option<(u128, usize)> {
    if pos + 16 <= s.len() {
        Some((le_at(s, pos as int, 16) as u128, (pos + 16) as usize))
    } else {
        None
    }
}

/// A compact-encoded `u32` at `pos`, in its canonical (shortest) form only.
pub open spec fn spec_compact_u32_at(s: Seq<u8>, pos: usize) -> Option<(u32, usize)> {
    if pos >= s.len() {
        None
    } else {
        let prefix = s[pos as int];
        if prefix % 4 == 0 {
            Some(((prefix / 4) as u32, (pos + 1) as usize))
        } else if prefix % 4 == 1 {
            if pos + 2 <= s.len() {
                let x = le_at(s, pos as int, 2) / 4;
                if 63 < x && x <= 16383 {
                    Some((x as u32, (pos + 2) as usize))
                } else {
                    None
                }
            } else {
                None
            }
        } else if prefix % 4 == 2 {
            if pos + 4 <= s.len() {
                let x = le_at(s, pos as int, 4) / 4;
                if 16383 < x && x <= 0x3fff_ffff {
                    Some((x as u32, (pos + 4) as usize))
                } else {
                    None
                }
            } else {
                None
            }
        } else if prefix / 4 == 0 {
            if pos + 5 <= s.len() {
                let x = le_at(s, pos + 1, 4);
                if x > 0x3fff_ffff {
                    Some((x as u32, (pos + 5) as usize))
                } else {
                    None
                }
            } else {
                None
            }
        } else {
            None
        }
    }
}

/// A length-prefixed byte vector at `pos`.
pub open spec fn spec_bytes_at(s: Seq<u8>, pos: usize) -> Option<(Seq<u8>, usize)> {
    match spec_compact_u32_at(s, pos) {
        Some((len, p)) => if p + len <= s.len() {
            Some((s.subrange(p as int, p + len), (p + len) as usize))
        } else {
            None
        },
        None => None,
    }
}

/// A length-prefixed UTF-8 string at `pos`.
pub open spec fn spec_string_at(s: Seq<u8>, pos: usize) -> Option<(Seq<char>, usize)> {
    match spec_bytes_at(s, pos) {
        Some((b, p)) => if vstd::utf8::valid_utf8(b) {
            Some((vstd::utf8::decode_utf8(b), p))
        } else {
            None
        },
        None => None,
    }
}

/// `n` raw bytes at `pos`.
pub open spec fn spec_fixed_at(s: Seq<u8>, pos: usize, n: usize) -> Option<(Seq<u8>, usize)> {
    if pos + n <= s.len() {
        Some((s.subrange(pos as int, pos + n), (pos + n) as usize))
    } else {
        None
    }
}

/// An optional little-endian `u128` at `pos`: a tag byte `0` for none, `1`
/// followed by the number for some.
pub open spec fn spec_opt_u128_at(s: Seq<u8>, pos: usize) -> Option<(Option<u128>, usize)> {
    if pos >= s.len() {
        None
    } else if s[pos as int] == 0 {
        Some((None, (pos + 1) as usize))
    } else if s[pos as int] == 1 {
        match spec_u128_at(s, (pos + 1) as usize) {
            Some((v, p)) => Some((Some(v), p)),
            None => None,
        }
    } else {
        None
    }
}

/// The `n`-byte little-endian encoding of `x` (its value modulo `256^n`).
pub open spec fn le_bytes(x: nat, n: nat) -> Seq<u8>
    decreases n,
{
    if n == 0 {
        Seq::empty()
    } else {
        seq![(x % 256) as u8] + le_bytes(x / 256, (n - 1) as nat)
    }
}

/// The encoding of a number below `256^n` has `n` bytes and denotes it.
pub proof fn lemma_le_bytes_value(x: nat, n: nat)
    requires
        x < pow256(n),
    ensures
        le_bytes(x, n).len() == n,
        le_value(le_bytes(x, n)) == x,
    decreases n,
{
    if n > 0 {
        assert(x / 256 < pow256((n - 1) as nat)) by (nonlinear_arith)
            requires x < pow256(n), pow256(n) == 256 * pow256((n - 1) as nat);
        lemma_le_bytes_value(x / 256, (n - 1) as nat);
        let b = le_bytes(x, n);
        assert(b.drop_first() =~= le_bytes(x / 256, (n - 1) as nat));
        assert(x == (x % 256) + 256 * (x / 256)) by (nonlinear_arith);
    } else {
        assert(x == 0) by {
            reveal_with_fuel(pow256, 1);
        }
    }
}

/// The `n`-byte encoding of any number has `n` bytes.
pub proof fn lemma_le_bytes_len(x: nat, n: nat)
    ensures
        le_bytes(x, n).len() == n,
    decreases n,
{
    if n > 0 {
        lemma_le_bytes_len(x / 256, (n - 1) as nat);
    }
}

/// Where `pre + part` opens `s`, `pre` opens it too and `part` follows it.
pub proof fn lemma_split_prefix(s: Seq<u8>, pre: Seq<u8>, part: Seq<u8>)
    requires
        pre.len() + part.len() <= s.len(),
        s.subrange(0, (pre.len() + part.len()) as int) == pre + part,
    ensures
        s.subrange(0, pre.len() as int) == pre,
        s.subrange(pre.len() as int, (pre.len() + part.len()) as int) == part,
{
    let whole = pre + part;
    assert forall|i: int| 0 <= i < whole.len() implies #[trigger] s[i] == whole[i] by {
        assert(s.subrange(0, whole.len() as int)[i] == s[i]);
    }
    assert(s.subrange(0, pre.len() as int) =~= pre);
    assert(s.subrange(pre.len() as int, (pre.len() + part.len()) as int) =~= part);
}

/// The canonical compact encoding of a `u32`: one byte below 64, two bytes
/// below `2^14`, four bytes below `2^30`, otherwise a marker byte and four
/// bytes.
pub open spec fn compact_bytes(v: u32) -> Seq<u8> {
    if v <= 63 {
        seq![(v * 4) as u8]
    } else if v <= 16383 {
        le_bytes((v * 4 + 1) as nat, 2)
    } else if v <= 0x3fff_ffff {
        le_bytes((v * 4 + 2) as nat, 4)
    } else {
        seq![3u8] + le_bytes(v as nat, 4)
    }
}

/// A compact number takes one to five bytes.
pub proof fn lemma_compact_len(v: u32)
    ensures
        1 <= compact_bytes(v).len() <= 5,
{
    lemma_le_bytes_len((v * 4 + 1) as nat, 2);
    lemma_le_bytes_len((v * 4 + 2) as nat, 4);
    lemma_le_bytes_len(v as nat, 4);
}

/// A length-prefixed byte vector.
pub open spec fn encode_bytes(b: Seq<u8>) -> Seq<u8> {
    compact_bytes(b.len() as u32) + b
}

/// The encoding of an optional `u128`: a tag byte, then the number if any.
pub open spec fn encode_opt_u128(x: Option<u128>) -> Seq<u8> {
    match x {
        None => seq![0u8],
        Some(v) => seq![1u8] + le_bytes(v as nat, 16),
    }
}

/// Where the `n` bytes at `pos` encode `x`, they are read back as `x`.
pub proof fn lemma_le_at(s: Seq<u8>, pos: int, x: nat, n: nat)
    requires
        0 <= pos,
        pos + n <= s.len(),
        x < pow256(n),
        s.subrange(pos, pos + n) == le_bytes(x, n),
    ensures
        le_at(s, pos, n as int) == x,
{
    lemma_le_bytes_value(x, n);
}

/// A `u32` encoded at `pos` is read back, with the position after it.
pub proof fn lemma_u32_at(s: Seq<u8>, pos: usize, x: u32)
    requires
        pos + 4 <= s.len() <= usize::MAX,
        s.subrange(pos as int, pos + 4) == le_bytes(x as nat, 4),
    ensures
        spec_u32_at(s, pos) == Some((x, (pos + 4) as usize)),
{
    lemma_pow256_values();
    lemma_le_at(s, pos as int, x as nat, 4);
}

/// A `u64` encoded at `pos` is read back, with the position after it.
pub proof fn lemma_u64_at(s: Seq<u8>, pos: usize, x: u64)
    requires
        pos + 8 <= s.len() <= usize::MAX,
        s.subrange(pos as int, pos + 8) == le_bytes(x as nat, 8),
    ensures
        spec_u64_at(s, pos) == Some((x, (pos + 8) as usize)),
{
    lemma_pow256_values();
    lemma_le_at(s, pos as int, x as nat, 8);
}

/// A compact number encoded at `pos` is read back, with the position after it.
pub proof fn lemma_compact_at(s: Seq<u8>, pos: usize, v: u32)
    requires
        pos + compact_bytes(v).len() <= s.len() <= usize::MAX,
        s.subrange(pos as int, pos + compact_bytes(v).len()) == compact_bytes(v),
    ensures
        spec_compact_u32_at(s, pos) == Some((v, (pos + compact_bytes(v).len()) as usize)),
{
    reveal_with_fuel(pow256, 5);
    lemma_compact_len(v);
    let e = compact_bytes(v);
    assert(s.subrange(pos as int, pos + e.len())[0] == s[pos as int]);
    if v <= 63 {
        assert(((v * 4) as u8) % 4 == 0 && ((v * 4) as u8) / 4 == v) by (bit_vector)
            requires v <= 63;
    } else if v <= 16383 {
        let x = (v * 4 + 1) as nat;
        lemma_le_bytes_len(x, 2);
        lemma_le_at(s, pos as int, x, 2);
        assert(((x % 256) as u8) % 4 == 1) by (nonlinear_arith)
            requires x == v * 4 + 1;
        assert(x / 4 == v as nat) by (nonlinear_arith)
            requires x == v * 4 + 1;
    } else if v <= 0x3fff_ffff {
        let x = (v * 4 + 2) as nat;
        lemma_le_bytes_len(x, 4);
        lemma_le_at(s, pos as int, x, 4);
        assert(((x % 256) as u8) % 4 == 2) by (nonlinear_arith)
            requires x == v * 4 + 2;
        assert(x / 4 == v as nat) by (nonlinear_arith)
            requires x == v * 4 + 2;
    } else {
        lemma_le_bytes_len(v as nat, 4);
        assert(s.subrange(pos + 1, pos + 5) =~= e.subrange(1, 5));
        assert(e.subrange(1, 5) =~= le_bytes(v as nat, 4));
        lemma_le_at(s, pos + 1, v as nat, 4);
    }
}

/// `n` raw bytes at `pos` are read back, with the position after them.
pub proof fn lemma_fixed_at(s: Seq<u8>, pos: usize, t: Seq<u8>)
    requires
        pos + t.len() <= s.len() <= usize::MAX,
        s.subrange(pos as int, pos + t.len()) == t,
    ensures
        spec_fixed_at(s, pos, t.len() as usize) == Some((t, (pos + t.len()) as usize)),
{
}

/// A length-prefixed byte vector encoded at `pos` is read back, with the
/// position after it.
pub proof fn lemma_bytes_at(s: Seq<u8>, pos: usize, b: Seq<u8>)
    requires
        b.len() <= u32::MAX,
        pos + encode_bytes(b).len() <= s.len() <= usize::MAX,
        s.subrange(pos as int, pos + encode_bytes(b).len()) == encode_bytes(b),
    ensures
        spec_bytes_at(s, pos) == Some((b, (pos + encode_bytes(b).len()) as usize)),
{
    let k = compact_bytes(b.len() as u32);
    let e = encode_bytes(b);
    lemma_compact_len(b.len() as u32);
    assert(s.subrange(pos as int, pos + k.len()) =~= e.subrange(0, k.len() as int));
    assert(e.subrange(0, k.len() as int) =~= k);
    lemma_compact_at(s, pos, b.len() as u32);
    assert(s.subrange(pos + k.len(), pos + e.len()) =~= e.subrange(k.len() as int, e.len() as int));
    assert(e.subrange(k.len() as int, e.len() as int) =~= b);
}

/// An optional `u128` encoded at `pos` is read back, with the position after
/// it.
pub proof fn lemma_opt_u128_at(s: Seq<u8>, pos: usize, x: Option<u128>)
    requires
        pos + encode_opt_u128(x).len() <= s.len() <= usize::MAX,
        s.subrange(pos as int, pos + encode_opt_u128(x).len()) == encode_opt_u128(x),
    ensures
        spec_opt_u128_at(s, pos) == Some((x, (pos + encode_opt_u128(x).len()) as usize)),
{
    lemma_pow256_values();
    let e = encode_opt_u128(x);
    assert(s.subrange(pos as int, pos + e.len())[0] == s[pos as int]);
    if let Some(v) = x {
        lemma_le_bytes_len(v as nat, 16);
        assert(s.subrange(pos + 1, pos + 17) =~= e.subrange(1, 17));
        assert(e.subrange(1, 17) =~= le_bytes(v as nat, 16));
        lemma_le_at(s, pos + 1, v as nat, 16);
    }
}

/// Reads a little-endian `u32` at `pos`.
pub fn read_u32(bytes: &[u8], pos: usize) -> (r: Option<(u32, usize)>)
    requires
        pos <= bytes@.len(),
    ensures
        r == spec_u32_at(bytes@, pos),
{
    if bytes.len() - pos >= 4 {
        let v = read_le(bytes, pos, 4);
        proof {
            lemma_le_value_bound(bytes@.subrange(pos as int, pos + 4));
            lemma_pow256_values();
        }
        Some((v as u32, pos + 4))
    } else {
        None
    }
}

/// Reads a little-endian `u64` at `pos`.
pub fn read_u64(bytes: &[u8], pos: usize) -> (r: Option<(u64, usize)>)
    requires
        pos <= bytes@.len(),
    ensures
        r == spec_u64_at(bytes@, pos),
{
    if bytes.len() - pos >= 8 {
        let v = read_le(bytes, pos, 8);
        proof {
            lemma_le_value_bound(bytes@.subrange(pos as int, pos + 8));
            lemma_pow256_values();
        }
        Some((v as u64, pos + 8))
    } else {
        None
    }
}

/// Reads a little-endian `u128` at `pos`.
pub fn read_u128(bytes: &[u8], pos: usize) -> (r: Option<(u128, usize)>)
    requires
        pos <= bytes@.len(),
    ensures
        r == spec_u128_at(bytes@, pos),
{
    if bytes.len() - pos >= 16 {
        let v = read_le(bytes, pos, 16);
        Some((v, pos + 16))
    } else {
        None
    }
}

/// Reads a compact-encoded `u32` at `pos`.
pub fn read_compact_u32(bytes: &[u8], pos: usize) -> (r: Option<(u32, usize)>)
    requires
        pos <= bytes@.len(),
    ensures
        r == spec_compact_u32_at(bytes@, pos),
{
    proof {
        lemma_pow256_values();
    }
    if pos >= bytes.len() {
        return None;
    }
    let prefix = bytes[pos];
    if prefix % 4 == 0 {
        Some(((prefix / 4) as u32, pos + 1))
    } else if prefix % 4 == 1 {
        if bytes.len() - pos >= 2 {
            let x = read_le(bytes, pos, 2) / 4;
            if 63 < x && x <= 16383 {
                Some((x as u32, pos + 2))
            } else {
                None
            }
        } else {
            None
        }
    } else if prefix % 4 == 2 {
        if bytes.len() - pos >= 4 {
            let x = read_le(bytes, pos, 4) / 4;
            if 16383 < x && x <= 0x3fff_ffff {
                Some((x as u32, pos + 4))
            } else {
                None
            }
        } else {
            None
        }
    } else if prefix / 4 == 0 {
        if bytes.len() - pos >= 5 {
            let x = read_le(bytes, pos + 1, 4);
            proof {
                lemma_le_value_bound(bytes@.subrange(pos + 1, pos + 5));
            }
            if x > 0x3fff_ffff {
                Some((x as u32, pos + 5))
            } else {
                None
            }
        } else {
            None
        }
    } else {
        None
    }
}

/// Copies `n` bytes at `pos` into a new vector.
pub fn copy_range(bytes: &[u8], pos: usize, n: usize) -> (v: Vec<u8>)
    requires
        pos + n <= bytes@.len(),
    ensures
        v@ == bytes@.subrange(pos as int, pos + n),
{
    let len = bytes.len();
    let mut v: Vec<u8> = Vec::new();
    let mut i: usize = 0;
    while i < n
        invariant
            pos + n <= bytes@.len(),
            len == bytes@.len(),
            i <= n,
            v@ == bytes@.subrange(pos as int, pos + i),
        decreases n - i,
    {
        v.push(bytes[pos + i]);
        i = i + 1;
        assert(v@ =~= bytes@.subrange(pos as int, pos + i));
    }
    v
}

/// Reads `n` raw bytes at `pos`.
pub fn read_fixed(bytes: &[u8], pos: usize, n: usize) -> (r: Option<(Vec<u8>, usize)>)
    requires
        pos <= bytes@.len(),
    ensures
        r is Some <==> spec_fixed_at(bytes@, pos, n) is Some,
        r matches Some((v, p)) ==> spec_fixed_at(bytes@, pos, n) == Some((v@, p)),
{
    if bytes.len() - pos >= n {
        Some((copy_range(bytes, pos, n), pos + n))
    } else {
        None
    }
}

/// Reads a length-prefixed byte vector at `pos`.
pub fn read_bytes(bytes: &[u8], pos: usize) -> (r: Option<(Vec<u8>, usize)>)
    requires
        pos <= bytes@.len(),
    ensures
        r is Some <==> spec_bytes_at(bytes@, pos) is Some,
        r matches Some((v, p)) ==> spec_bytes_at(bytes@, pos) == Some((v@, p)),
{
    match read_compact_u32(bytes, pos) {
        Some((len, p)) => {
            if bytes.len() - p >= len as usize {
                Some((copy_range(bytes, p, len as usize), p + len as usize))
            } else {
                None
            }
        },
        None => None,
    }
}

/// Reads an optional `u128` at `pos`.
pub fn read_opt_u128(bytes: &[u8], pos: usize) -> (r: Option<(Option<u128>, usize)>)
    requires
        pos <= bytes@.len(),
    ensures
        r == spec_opt_u128_at(bytes@, pos),
{
    if pos >= bytes.len() {
        None
    } else if bytes[pos] == 0 {
        Some((None, pos + 1))
    } else if bytes[pos] == 1 {
        match read_u128(bytes, pos + 1) {
            Some((v, p)) => Some((Some(v), p)),
            None => None,
        }
    } else {
        None
    }
}

/// `std::string::String::from_utf8`: a string holding the given bytes where
/// they are well-formed UTF-8, and an error otherwise. Trusted: the contract
/// states that the standard library accepts exactly the well-formed UTF-8
/// byte strings and decodes them to their characters.
#[verifier::external_body]
fn string_from_utf8(v: Vec<u8>) -> (r: Option<String>)
    ensures
        r is Some <==> vstd::utf8::valid_utf8(v@),
        r matches Some(s) ==> s@ == vstd::utf8::decode_utf8(v@),
{
    String::from_utf8(v).ok()
}

/// Reads a length-prefixed UTF-8 string at `pos`.
pub fn read_string(bytes: &[u8], pos: usize) -> (r: Option<(String, usize)>)
    requires
        pos <= bytes@.len(),
    ensures
        r is Some <==> spec_string_at(bytes@, pos) is Some,
        r matches Some((s, p)) ==> spec_string_at(bytes@, pos) == Some((s@, p)),
{
    match read_bytes(bytes, pos) {
        Some((v, p)) => match string_from_utf8(v) {
            Some(s) => Some((s, p)),
            None => None,
        },
        None => None,
    }
}

/// Why a read of the SCALE format failed.
#[derive(Debug, Clone, Copy, PartialEq, Eq, Structural)]
pub enum ScaleFailure {
    /// The input ends before the value does.
    Truncated,
    /// A byte vector is longer than what is left of the input.
    VectorTruncated,
    /// A compact number is not in its canonical form.
    CompactOutOfRange,
    /// A string is not well-formed UTF-8.
    InvalidUtf8,
    /// An option's tag byte is neither 0 nor 1.
    InvalidOptionTag,
}

/// The text of a failed read, in the words the codec uses for it.
pub open spec fn scale_failure_text(f: ScaleFailure) -> Seq<char> {
    match f {
        ScaleFailure::Truncated => "Not enough data to fill buffer"@,
        ScaleFailure::VectorTruncated => "Not enough data to decode vector"@,
        ScaleFailure::CompactOutOfRange => "out of range decoding Compact<u32>"@,
        ScaleFailure::InvalidUtf8 => "Invalid utf8 sequence"@,
        ScaleFailure::InvalidOptionTag => "unexpected first byte decoding Option"@,
    }
}

impl ScaleFailure {
    /// The text of the failure.
    pub fn text(&self) -> (t: &'static str)
        ensures
            t@ == scale_failure_text(*self),
    {
        match self {
            ScaleFailure::Truncated => "Not enough data to fill buffer",
            ScaleFailure::VectorTruncated => "Not enough data to decode vector",
            ScaleFailure::CompactOutOfRange => "out of range decoding Compact<u32>",
            ScaleFailure::InvalidUtf8 => "Invalid utf8 sequence",
            ScaleFailure::InvalidOptionTag => "unexpected first byte decoding Option",
        }
    }
}

/// Why a compact number cannot be read at `pos` (where it cannot): the input
/// ends within it, or it is not in canonical form.
pub open spec fn spec_compact_failure(s: Seq<u8>, pos: usize) -> ScaleFailure {
    if pos >= s.len() {
        ScaleFailure::Truncated
    } else {
        let prefix = s[pos as int];
        let width: int = if prefix % 4 == 1 { 2 } else if prefix % 4 == 2 { 4 } else if prefix % 4 == 3 && prefix / 4 == 0 { 5 } else { 1 };
        if pos + width > s.len() { ScaleFailure::Truncated } else { ScaleFailure::CompactOutOfRange }
    }
}

/// Why a byte vector cannot be read at `pos` (where it cannot).
pub open spec fn spec_bytes_failure(s: Seq<u8>, pos: usize) -> ScaleFailure {
    match spec_compact_u32_at(s, pos) {
        None => spec_compact_failure(s, pos),
        Some(_) => ScaleFailure::VectorTruncated,
    }
}

/// Why a string cannot be read at `pos` (where it cannot).
pub open spec fn spec_string_failure(s: Seq<u8>, pos: usize) -> ScaleFailure {
    match spec_bytes_at(s, pos) {
        None => spec_bytes_failure(s, pos),
        Some(_) => ScaleFailure::InvalidUtf8,
    }
}

/// Why an optional `u128` cannot be read at `pos` (where it cannot).
pub open spec fn spec_opt_u128_failure(s: Seq<u8>, pos: usize) -> ScaleFailure {
    if pos < s.len() && s[pos as int] != 0 && s[pos as int] != 1 {
        ScaleFailure::InvalidOptionTag
    } else {
        ScaleFailure::Truncated
    }
}

/// Reads a length-prefixed byte vector at `pos`, or says why it cannot.
pub fn read_bytes_or_failure(bytes: &[u8], pos: usize) -> (r: Result<(Vec<u8>, usize), ScaleFailure>)
    requires
        pos <= bytes@.len(),
    ensures
        r is Ok <==> spec_bytes_at(bytes@, pos) is Some,
        r matches Ok((v, p)) ==> spec_bytes_at(bytes@, pos) == Some((v@, p)),
        r matches Err(f) ==> f == spec_bytes_failure(bytes@, pos),
{
    match read_compact_u32(bytes, pos) {
        Some((len, p)) => {
            if bytes.len() - p >= len as usize {
                Ok((copy_range(bytes, p, len as usize), p + len as usize))
            } else {
                Err(ScaleFailure::VectorTruncated)
            }
        },
        None => {
            if pos >= bytes.len() {
                return Err(ScaleFailure::Truncated);
            }
            let prefix = bytes[pos];
            let width: usize = if prefix % 4 == 1 { 2 } else if prefix % 4 == 2 { 4 } else if prefix % 4 == 3 && prefix / 4 == 0 { 5 } else { 1 };
            if bytes.len() - pos < width {
                Err(ScaleFailure::Truncated)
            } else {
                Err(ScaleFailure::CompactOutOfRange)
            }
        },
    }
}

/// Reads a length-prefixed UTF-8 string at `pos`, or says why it cannot.
pub fn read_string_or_failure(bytes: &[u8], pos: usize) -> (r: Result<(String, usize), ScaleFailure>)
    requires
        pos <= bytes@.len(),
    ensures
        r is Ok <==> spec_string_at(bytes@, pos) is Some,
        r matches Ok((s, p)) ==> spec_string_at(bytes@, pos) == Some((s@, p)),
        r matches Err(f) ==> f == spec_string_failure(bytes@, pos),
{
    match read_bytes_or_failure(bytes, pos) {
        Ok((v, p)) => match string_from_utf8(v) {
            Some(s) => Ok((s, p)),
            None => Err(ScaleFailure::InvalidUtf8),
        },
        Err(f) => Err(f),
    }
}

/// Reads an optional `u128` at `pos`, or says why it cannot.
pub fn read_opt_u128_or_failure(bytes: &[u8], pos: usize) -> (r: Result<(Option<u128>, usize), ScaleFailure>)
    requires
        pos <= bytes@.len(),
    ensures
        r is Ok <==> spec_opt_u128_at(bytes@, pos) is Some,
        r matches Ok(x) ==> spec_opt_u128_at(bytes@, pos) == Some(x),
        r matches Err(f) ==> f == spec_opt_u128_failure(bytes@, pos),
{
    match read_opt_u128(bytes, pos) {
        Some(x) => Ok(x),
        None => {
            if pos < bytes.len() && bytes[pos] != 0 && bytes[pos] != 1 {
                Err(ScaleFailure::InvalidOptionTag)
            } else {
                Err(ScaleFailure::Truncated)
            }
        },
    }
}

} // verus!
