//! Little-endian integer decoding over byte sequences.

use vstd::prelude::*;

verus! {

/// The value of two little-endian bytes.
pub open spec fn le2(b0: u8, b1: u8) -> int {
    b0 as int + 256 * (b1 as int)
}

/// The value of four little-endian bytes.
pub open spec fn le4(b0: u8, b1: u8, b2: u8, b3: u8) -> int {
    le2(b0, b1) + 65536 * le2(b2, b3)
}

/// The value of eight little-endian bytes.
pub open spec fn le8(b: Seq<u8>) -> int
    recommends
        b.len() >= 8,
{
    le4(b[0], b[1], b[2], b[3]) + 0x1_0000_0000 * le4(b[4], b[5], b[6], b[7])
}

/// The little-endian value of the bytes of `s` starting at `at`, `n` bytes long.
pub open spec fn le_at(s: Seq<u8>, at: int, n: int) -> int
    decreases n,
{
    if n <= 0 {
        0
    } else {
        s[at] as int + 256 * le_at(s, at + 1, n - 1)
    }
}

pub fn u16_from_le(b0: u8, b1: u8) -> (r: u16)
    ensures
        r == le2(b0, b1),
{
    let r = (b0 as u16) | ((b1 as u16) << 8u16);
    proof {
        crate::bits::lemma_join_u8(b0, b1);
    }
    r
}

pub fn u32_from_le(b0: u8, b1: u8, b2: u8, b3: u8) -> (r: u32)
    ensures
        r == le4(b0, b1, b2, b3),
{
    let lo = u16_from_le(b0, b1);
    let hi = u16_from_le(b2, b3);
    let r = (lo as u32) | ((hi as u32) << 16u32);
    proof {
        crate::bits::lemma_join_u16(lo, hi);
    }
    r
}

pub fn u64_from_le(b: [u8; 8]) -> (r: u64)
    ensures
        r == le8(b@),
{
    let lo = u32_from_le(b[0], b[1], b[2], b[3]);
    let hi = u32_from_le(b[4], b[5], b[6], b[7]);
    let r = (lo as u64) | ((hi as u64) << 32u64);
    proof {
        crate::bits::lemma_join_u32(lo, hi);
    }
    r
}


/// `256` to the power `n`.
pub open spec fn pow256(n: int) -> int
    decreases n,
{
    if n <= 0 {
        1
    } else {
        256 * pow256(n - 1)
    }
}

pub proof fn lemma_pow256_bound(n: nat)
    requires
        n <= 3,
    ensures
        pow256(n as int) <= 16777216,
        pow256(n as int) >= 1,
{
    reveal_with_fuel(pow256, 4);
}

pub proof fn lemma_pow256_step(n: nat)
    ensures
        pow256(n + 1int) == 256 * pow256(n as int),
{
}

/// Little-endian value of `n` bytes is below `256^n`.
pub proof fn lemma_le_at_bound(s: Seq<u8>, at: int, n: int)
    ensures
        0 <= le_at(s, at, n) < pow256(n),
    decreases n,
{
    if n > 0 {
        lemma_le_at_bound(s, at + 1, n - 1);
    }
}


/// `2` to the power `n`.
pub open spec fn pow2(n: int) -> int
    decreases n,
{
    if n <= 0 {
        1
    } else {
        2 * pow2(n - 1)
    }
}

/// Shifting a byte right by `k` divides it by `2^k`.
pub proof fn lemma_shift_right_u8(v: u8, k: u8)
    requires
        k < 8,
    ensures
        (v >> k) as int == v as int / pow2(k as int),
{
    reveal_with_fuel(pow2, 9);
    crate::bits::lemma_u8(v);
}

/// `256^n` for the lengths of the integer types.
pub proof fn lemma_pow256_values()
    ensures
        pow256(1) == 0x100,
        pow256(2) == 0x1_0000,
        pow256(4) == 0x1_0000_0000,
        pow256(7) == 0x100_0000_0000_0000,
        pow256(8) == 0x1_0000_0000_0000_0000,
{
    reveal_with_fuel(pow256, 9);
}

pub proof fn lemma_pow256_monotonic(a: int, b: int)
    requires
        0 <= a <= b,
    ensures
        pow256(a) <= pow256(b),
    decreases b - a,
{
    if a < b {
        lemma_pow256_monotonic(a, b - 1);
        lemma_pow256_positive(b - 1);
    }
}

pub proof fn lemma_pow256_positive(n: int)
    ensures
        pow256(n) >= 1,
    decreases n,
{
    if n > 0 {
        lemma_pow256_positive(n - 1);
    }
}

/// The little-endian value of the `n` bytes of `b` at `at`.
pub fn read_le(b: &[u8], at: usize, n: usize) -> (r: u64)
    requires
        n <= 8,
        at + n <= b@.len(),
    ensures
        r == le_at(b@, at as int, n as int),
{
    let mut acc: u64 = 0;
    let mut i: usize = n;
    let len = b.len();
    while i > 0
        invariant
            len == b@.len(),
            i <= n,
            n <= 8,
            at + n <= b@.len(),
            acc == le_at(b@, at + i, n - i),
        decreases i,
    {
        proof {
            lemma_le_at_bound(b@, at + i, n - i);
            lemma_pow256_monotonic(n - i, 7);
            lemma_pow256_values();
        }
        acc = acc * 256 + b[at + (i - 1)] as u64;
        i = i - 1;
    }
    acc
}

pub fn read_u8(b: &[u8], at: usize) -> (r: u8)
    requires
        at + 1 <= b@.len(),
    ensures
        r == le_at(b@, at as int, 1),
{
    assert(le_at(b@, at as int, 1) == b@[at as int]) by {
        reveal_with_fuel(le_at, 2);
    }
    b[at]
}

pub fn read_u16(b: &[u8], at: usize) -> (r: u16)
    requires
        at + 2 <= b@.len(),
    ensures
        r == le_at(b@, at as int, 2),
{
    let v = read_le(b, at, 2);
    proof {
        lemma_le_at_bound(b@, at as int, 2);
        lemma_pow256_values();
    }
    v as u16
}

pub fn read_u32(b: &[u8], at: usize) -> (r: u32)
    requires
        at + 4 <= b@.len(),
    ensures
        r == le_at(b@, at as int, 4),
{
    let v = read_le(b, at, 4);
    proof {
        lemma_le_at_bound(b@, at as int, 4);
        lemma_pow256_values();
    }
    v as u32
}

pub fn read_u64(b: &[u8], at: usize) -> (r: u64)
    requires
        at + 8 <= b@.len(),
    ensures
        r == le_at(b@, at as int, 8),
{
    read_le(b, at, 8)
}

pub fn read_array3(b: &[u8], at: usize) -> (r: [u8; 3])
    requires
        at + 3 <= b@.len(),
    ensures
        r@ == b@.subrange(at as int, at + 3),
{
    let r = [b[at], b[at + 1], b[at + 2]];
    assert(r@ =~= b@.subrange(at as int, at + 3));
    r
}

pub fn read_array4(b: &[u8], at: usize) -> (r: [u8; 4])
    requires
        at + 4 <= b@.len(),
    ensures
        r@ == b@.subrange(at as int, at + 4),
{
    let r = [b[at], b[at + 1], b[at + 2], b[at + 3]];
    assert(r@ =~= b@.subrange(at as int, at + 4));
    r
}

pub fn read_array6(b: &[u8], at: usize) -> (r: [u8; 6])
    requires
        at + 6 <= b@.len(),
    ensures
        r@ == b@.subrange(at as int, at + 6),
{
    let r = [b[at], b[at + 1], b[at + 2], b[at + 3], b[at + 4], b[at + 5]];
    assert(r@ =~= b@.subrange(at as int, at + 6));
    r
}

pub fn read_array8(b: &[u8], at: usize) -> (r: [u8; 8])
    requires
        at + 8 <= b@.len(),
    ensures
        r@ == b@.subrange(at as int, at + 8),
{
    let r = [b[at], b[at + 1], b[at + 2], b[at + 3], b[at + 4], b[at + 5], b[at + 6], b[at + 7]];
    assert(r@ =~= b@.subrange(at as int, at + 8));
    r
}

pub fn read_array16(b: &[u8], at: usize) -> (r: [u8; 16])
    requires
        at + 16 <= b@.len(),
    ensures
        r@ == b@.subrange(at as int, at + 16),
{
    let r = [
        b[at],
        b[at + 1],
        b[at + 2],
        b[at + 3],
        b[at + 4],
        b[at + 5],
        b[at + 6],
        b[at + 7],
        b[at + 8],
        b[at + 9],
        b[at + 10],
        b[at + 11],
        b[at + 12],
        b[at + 13],
        b[at + 14],
        b[at + 15],
    ];
    assert(r@ =~= b@.subrange(at as int, at + 16));
    r
}

/// The sum of the bytes, modulo 256.
pub open spec fn byte_sum(s: Seq<u8>) -> int
    decreases s.len(),
{
    if s.len() == 0 {
        0
    } else {
        (byte_sum(s.drop_last()) + s.last()) % 256
    }
}

/// The wrapping sum of the bytes.
pub fn sum_bytes(data: &[u8]) -> (r: u8)
    ensures
        r == byte_sum(data@),
{
    let mut sum: u8 = 0;
    let mut i: usize = 0;
    while i < data.len()
        invariant
            i <= data@.len(),
            sum == byte_sum(data@.subrange(0, i as int)),
        decreases data@.len() - i,
    {
        proof {
            assert(data@.subrange(0, i + 1).drop_last() =~= data@.subrange(0, i as int));
        }
        sum = sum.wrapping_add(data[i]);
        i = i + 1;
    }
    assert(data@.subrange(0, data@.len() as int) =~= data@);
    sum
}

/// The bytes padded with zeros up to `n` bytes.
pub open spec fn padded(s: Seq<u8>, n: int) -> Seq<u8> {
    Seq::new(n as nat, |i: int| if i < s.len() { s[i] } else { 0u8 })
}

/// A copy of the bytes padded with zeros up to `n` bytes.
pub fn pad_bytes(data: &[u8], n: usize) -> (r: Vec<u8>)
    requires
        data@.len() <= n,
    ensures
        r@ == padded(data@, n as int),
{
    let mut r: Vec<u8> = Vec::new();
    let mut i: usize = 0;
    while i < n
        invariant
            i <= n,
            data@.len() <= n,
            r@.len() == i,
            forall|j: int| 0 <= j < i ==> #[trigger] r@[j] == (if j < data@.len() { data@[j] } else { 0u8 }),
        decreases n - i,
    {
        if i < data.len() {
            r.push(data[i]);
        } else {
            r.push(0);
        }
        i = i + 1;
    }
    assert(r@ =~= padded(data@, n as int));
    r
}

/// A vector holding the bytes of `b`.
pub fn bytes_to_vec(b: &[u8]) -> (r: Vec<u8>)
    ensures
        r@ == b@,
{
    let mut r: Vec<u8> = Vec::new();
    let mut i: usize = 0;
    while i < b.len()
        invariant
            i <= b@.len(),
            r@ == b@.subrange(0, i as int),
        decreases b@.len() - i,
    {
        r.push(b[i]);
        i = i + 1;
        assert(r@ =~= b@.subrange(0, i as int));
    }
    assert(b@.subrange(0, b@.len() as int) =~= b@);
    r
}

pub fn read_array7(b: &[u8], at: usize) -> (r: [u8; 7])
    requires
        at + 7 <= b@.len(),
    ensures
        r@ == b@.subrange(at as int, at + 7),
{
    let r = [b[at], b[at + 1], b[at + 2], b[at + 3], b[at + 4], b[at + 5], b[at + 6]];
    assert(r@ =~= b@.subrange(at as int, at + 7));
    r
}

} // verus!
