//! Facts about bit operations on fixed-width integers, proved by bit
//! blasting once and used by the register encodings and the parsers.

use vstd::prelude::*;

verus! {

/// Flag combinations that the register encodings use.
pub proof fn lemma_constants()
    by (bit_vector)
    ensures
        0x80u8 | 0x0eu8 == 0x8eu8,
        0x80u8 | 0x08u8 | 0x10u8 | 0u8 == 0x98u8,
        0x80u8 | 0x08u8 | 0x10u8 | 96u8 == 0xf8u8,
        0x80u8 | 0x10u8 | 0x02u8 | 0u8 == 0x92u8,
        0x80u8 | 0x10u8 | 0x02u8 | 96u8 == 0xf2u8,
        (0x8eu8 & 0x9fu8) | 96u8 == 0xeeu8,
        0xeeu8 & 0xfeu8 == 0xeeu8,
        0u8 & 1u8 == 0u8,
        1u8 | 8u8 | 2u8 == 0x0bu8,
        0x80u8 | 0x08u8 == 0x88u8,
        0u8 | 0x10u8 | 0u8 | 0u8 == 0x10u8,
        0u8 | 0x30u8 | 0x04u8 | 0u8 == 0x34u8,
        0u8 | 0u8 | 0u8 == 0u8,
        (0u8 & 7u8) == 0u8,
        0u64 | 2u64 == 2u64,
        (0u64 & !0xffu64) | 0u64 == 0u64,
        (0u64 & !0x1_0000u64) | 0x1_0000u64 == 0x1_0000u64,
        (0u16 & 0xFFu16) as u8 == 0u8,
        (0u16 >> 8u16) as u8 == 0u8,
{
}

/// Fields of a byte.
pub proof fn lemma_u8(x: u8)
    by (bit_vector)
    ensures
        x >> 0u8 == x,
        x >> 1u8 == x / 2,
        x >> 2u8 == x / 4,
        x >> 3u8 == x / 8,
        x >> 4u8 == x / 16,
        x >> 5u8 == x / 32,
        x >> 6u8 == x / 64,
        x >> 7u8 == x / 128,
        x & 1u8 == x % 2,
        x & 3u8 == x % 4,
        x & 7u8 == x % 8,
        x & 0xfu8 == x % 16,
        x & 0x1fu8 == x % 32,
        x & 0x3fu8 == x % 64,
        x & 0x7fu8 == x % 128,
        (x >> 1u8) & 3u8 == (x / 2) % 4,
        (x >> 2u8) & 3u8 == (x / 4) % 4,
        (x >> 3u8) & 3u8 == (x / 8) % 4,
        (x >> 4u8) & 3u8 == (x / 16) % 4,
        (x & 0x80u8 == 0x80u8) == (x >= 0x80),
        (x & 0x10u8 != 0) == ((x / 16) % 2 == 1),
        (x & 0x08u8 != 0) == ((x / 8) % 2 == 1),
        (x & 0x20u8 != 0) == ((x / 32) % 2 == 1),
        (x & 0x40u8 != 0) == ((x / 64) % 2 == 1),
        (x & 0x80u8 != 0) == (x >= 0x80),
        x & !1u8 == x & 0xfeu8,
        x & !96u8 == x & 0x9fu8,
        x & 0x70u8 <= 0x70,
        x & !7u8 == 0 ==> x == x & 7u8,
        x < 8 ==> x << 5u8 == x * 32,
{
}

/// Fields of a 16-bit word.
pub proof fn lemma_u16(x: u16)
    by (bit_vector)
    ensures
        x & 0xffu16 == x % 256,
        x >> 8u16 == x / 256,
        (x >> 8u16) & 0xffu16 == x / 256,
        (x as u8) as u16 == x % 256,
        ((x >> 8u16) as u8) as u16 == x / 256,
        ((x & 0xffu16) as u8) as u16 == x % 256,
        x & 0x3ffu16 == x % 1024,
        ((x as u64) << 8u64) == (x as u64) * 256,
        x <= 0xff ==> ((x as u32) << 8u32) | 1u32 == (x as u32) * 256 + 1,
{
}

/// Fields of a 32-bit word.
pub proof fn lemma_u32(x: u32)
    by (bit_vector)
    ensures
        ((x >> 24u32) as u8) as u32 == x / 0x100_0000,
        (((x >> 16u32) & 0xffu32) as u8) as u32 == (x / 0x1_0000) % 0x100,
        (((x >> 8u32) & 0xffu32) as u8) as u32 == (x / 0x100) % 0x100,
        ((x & 0xffu32) as u8) as u32 == x % 0x100,
        ((x >> 16u32) as u8) as u32 == (x / 0x1_0000) % 0x100,
        ((x >> 8u32) as u8) as u32 == (x / 0x100) % 0x100,
        (x >> 16u32) & 0xffu32 == (x / 0x1_0000) % 0x100,
        (x >> 24u32) & 0xffu32 == x / 0x100_0000,
        x & 0xffu32 == x % 0x100,
        (x >> 8u32) & 0xffu32 == (x / 0x100) % 0x100,
        x >> 16u32 == x / 0x1_0000,
        (x & 0x6u32) >> 1u32 == (x & 0x6u32) / 2,
{
}

/// Values of local APIC vector table entries built from zero.
pub proof fn lemma_local_vector(v: u32)
    by (bit_vector)
    requires
        v < 256,
    ensures
        v < 8 ==> v << 8u32 == v * 256,
        0x100u32 | v == 0x100u32 + v,
        (((((0u32 & !0x2_0000u32) | 0x2_0000u32) & !0x1_0000u32) | 0u32) & !0xffu32) | v == 0x2_0000u32 + v,
        (((0u32 & !0x1_0000u32) | 0u32) & !0xffu32) | v == v,
        (0u32 & !0x1_0000u32) | 0x1_0000u32 == 0x1_0000u32,
{
}

/// Fields of a 64-bit word.
pub proof fn lemma_u64(x: u64)
    by (bit_vector)
    ensures
        (x as u32) as u64 == x % 0x1_0000_0000,
        ((x >> 32u64) as u32) as u64 == x / 0x1_0000_0000,
        (x & 0xffffu64) + ((x >> 16u64) & 0xffffu64) * 0x1_0000 + (x >> 32u64) * 0x1_0000_0000 == x,
        (x as u16) as u64 == x & 0xffffu64,
        ((x >> 16u64) as u16) as u64 == (x >> 16u64) & 0xffffu64,
        ((x >> 32u64) as u32) as u64 == x >> 32u64,
        (x >> 32u64) & 0xFFFF_FFFFu64 == x >> 32u64,
        (((x >> 9u64) & 0x1Fu64) as u8) as u64 == (x >> 9u64) & 0x1Fu64,
        (((x >> 32u64) & 0xFFFF_FFFFu64) as u32) as u64 == (x >> 32u64) & 0xFFFF_FFFFu64,
        ((x & 0xffu64) as u8) as u64 == x % 0x100,
        (((x >> 8u64) & 0xffu64) as u8) as u64 == (x / 0x100) % 0x100,
        (((x >> 16u64) & 0xffu64) as u8) as u64 == (x / 0x1_0000) % 0x100,
        (x & 0xffffu64) < 0x1_0000,
        ((x >> 16u64) & 0xffu64) < 0x100,
        ((x >> 24u64) & 0xffu64) < 0x100,
        ((x >> 32u64) & 0xffff_ffffu64) < 0x1_0000_0000,
        x >> 0u64 == x,
        (0u64 & !0xffu64) | x == x,
        x < 8 ==> x << 8u64 == x * 0x100,
        x < 32 ==> x << 59u64 == x * 0x0800_0000_0000_0000,
        x < 256 ==> x << 56u64 == x * 0x0100_0000_0000_0000,
        x < 256 ==> (x & !0x700u64) | 0u64 == x,
        x < 256 ==> (x & !0x2000u64) | 0u64 == x,
        x < 256 ==> (x & !0x8000u64) | 0u64 == x,
        x < 256 ==> (x & !0x1_0000u64) | 0u64 == x,
{
}

/// A 128-bit product shifted down by 64 bits.
pub proof fn lemma_u128(x: u128, y: u64)
    by (bit_vector)
    ensures
        x >> 64u128 == x / 0x1_0000_0000_0000_0000u128,
        x / 0x1_0000_0000_0000_0000u128 < 0x1_0000_0000_0000_0000u128,
        (y as u128) << 64u128 == y as u128 * 0x1_0000_0000_0000_0000u128,
{
}

/// Two bytes joined little-endian.
pub proof fn lemma_join_u8(lo: u8, hi: u8)
    by (bit_vector)
    ensures
        (lo as u16) | ((hi as u16) << 8u16) == lo as u16 + 256 * (hi as u16),
        ((hi as u16) << 8u16) | (lo as u16) == hi as u16 * 256 + lo as u16,
{
}

/// Two 16-bit words joined little-endian.
pub proof fn lemma_join_u16(lo: u16, hi: u16)
    by (bit_vector)
    ensures
        (lo as u32) | ((hi as u32) << 16u32) == lo as u32 + 65536 * (hi as u32),
{
}

/// Two 32-bit words joined little-endian.
pub proof fn lemma_join_u32(lo: u32, hi: u32)
    by (bit_vector)
    ensures
        (lo as u64) | ((hi as u64) << 32u64) == lo as u64 + 0x1_0000_0000 * (hi as u64),
        ((hi as u64) << 32u64) | (lo as u64) == (hi as u64) * 0x1_0000_0000 + lo as u64,
{
}

/// The three five-bit letters of a compressed EISA id, from its first two
/// bytes.
pub proof fn lemma_eisa_letters(m0: u32, m1: u32)
    by (bit_vector)
    requires
        m0 < 256,
        m1 < 256,
    ensures
        m0 >> 2u32 == m0 / 4,
        ((m0 & 0x03u32) << 3u32) | (m1 >> 5u32) == (m0 % 4) * 8 + m1 / 32,
        m1 & 0x1Fu32 == m1 % 32,
{
}

/// A vector and a physical destination placed in a redirection entry.
pub proof fn lemma_vector_destination(v: u64, d: u64)
    by (bit_vector)
    requires
        v < 256,
        d < 32,
    ensures
        ((v & !0x800u64) & !0xf800_0000_0000_0000u64) | ((d * 0x0800_0000_0000_0000) as u64) == v + d
            * 0x0800_0000_0000_0000,
{
}

/// Five fields packed into a 64-bit word: 16, 16, 8, 8 and 16 bits.
pub proof fn lemma_pack_16_16_8_8_16(a: u64, b: u64, c: u64, d: u64, e: u64)
    by (bit_vector)
    requires
        a < 0x1_0000,
        b < 0x1_0000,
        c < 0x100,
        d < 0x100,
        e < 0x1_0000,
    ensures
        a | (b << 16u64) | (c << 32u64) | (d << 40u64) | (e << 48u64) == a + b * 0x1_0000 + c * 0x1_0000_0000 + d
            * 0x100_0000_0000 + e * 0x1_0000_0000_0000,
{
}

/// Six fields packed into a 64-bit word: 16, 16, and four of 8 bits.
pub proof fn lemma_pack_16_16_8_8_8_8(a: u64, b: u64, c: u64, d: u64, e: u64, f: u64)
    by (bit_vector)
    requires
        a < 0x1_0000,
        b < 0x1_0000,
        c < 0x100,
        d < 0x100,
        e < 0x100,
        f < 0x100,
    ensures
        a | (b << 16u64) | (c << 32u64) | (d << 40u64) | (e << 48u64) | (f << 56u64) == a + b * 0x1_0000 + c
            * 0x1_0000_0000 + d * 0x100_0000_0000 + e * 0x1_0000_0000_0000 + f * 0x100_0000_0000_0000,
{
}

} // verus!
