//! Facts about the bits of machine integers, proved once by the bit-vector
//! solver and used by the decoders, the memory and the laws of the instruction
//! set.
use vstd::prelude::*;
use vstd::arithmetic::power2::pow2;
use crate::utils::{field, sign_extended};

verus! {

/// Masks of the low bits are remainders, and a few shifted values are bounded.
pub proof fn lemma_masks(y: u32)
    by (bit_vector)
    ensures
        y & 1 == y % 2,
        y & 3 == y % 4,
        y & 7 == y % 8,
        y & 15 == y % 16,
        y & 31 == y % 32,
        y & 63 == y % 64,
        y & 127 == y % 128,
        y & 1023 == y % 1024,
        y & 0xFF == y % 256,
        y & 4095 == y % 4096,
        y & 0xFFFF == y % 0x1_0000,
        y & 0xFFFF_FFFE == y - y % 2,
        y >> 31 < 2,
        y >> 27 < 32,
        y >> 25 < 128,
        y >> 20 < 4096,
{
}

/// The `w` bits of `x` from bit `k` on are `x >> k` masked.
pub proof fn lemma_shifted_fields(x: u32, k: u32)
    requires
        k < 32,
    ensures
        x >> k == x as nat / pow2(k as nat),
        field(x, k as nat, 1) == (x >> k) & 1,
        field(x, k as nat, 2) == (x >> k) & 3,
        field(x, k as nat, 3) == (x >> k) & 7,
        field(x, k as nat, 4) == (x >> k) & 15,
        field(x, k as nat, 5) == (x >> k) & 31,
        field(x, k as nat, 6) == (x >> k) & 63,
        field(x, k as nat, 7) == (x >> k) & 127,
        field(x, k as nat, 8) == (x >> k) & 0xFF,
        field(x, k as nat, 10) == (x >> k) & 1023,
        field(x, k as nat, 12) == (x >> k) & 4095,
{
    vstd::bits::lemma_u32_shr_is_div(x, k);
    vstd::arithmetic::power2::lemma2_to64();
    lemma_masks(x >> k);
}

/// A word read as a 32-bit two's complement number.
pub proof fn lemma_as_signed(w: u32)
    by (bit_vector)
    ensures
        w < 0x8000_0000 ==> (w as i32) as int == w as int,
        w >= 0x8000_0000 ==> (w as i32) as int == w as int - 0x1_0000_0000,
{
}

/// The bytes of a word, low byte first.
pub proof fn lemma_bytes(v: u32)
    by (bit_vector)
    ensures
        v & 0xFF == v % 256,
        (v >> 8) % 256 == (v / 256) % 256,
        (v >> 8) & 0xFF == (v / 256) % 256,
        (v >> 16) % 256 == (v / 0x1_0000) % 256,
        (v >> 16) & 0xFF == (v / 0x1_0000) % 256,
        ((v >> 16) / 256) % 256 == (v / 0x100_0000) % 256,
        (v >> 24) & 0xFF == (v / 0x100_0000) % 256,
        v == (v % 256) + 256 * ((v / 256) % 256) + 0x1_0000 * ((v / 0x1_0000) % 256)
            + 0x100_0000 * ((v / 0x100_0000) % 256),
        v % 0x1_0000 == v % 256 + 256 * ((v / 256) % 256),
{
}

/// A halfword or word put together from its halves.
pub proof fn lemma_halves(hi: u32, lo: u32)
    by (bit_vector)
    requires
        hi < 0x1_0000,
        lo < 0x1_0000,
    ensures
        hi << 16 == hi * 0x1_0000,
        (((hi << 16) + lo) as u32) % 256 == lo % 256,
        ((((hi << 16) + lo) as u32) / 256) % 256 == (lo / 256) % 256,
        ((((hi << 16) + lo) as u32) / 0x1_0000) % 256 == hi % 256,
        ((((hi << 16) + lo) as u32) / 0x100_0000) % 256 == (hi / 256) % 256,
{
}

/// A halfword put together from its bytes.
pub proof fn lemma_byte_halves(hi: u32, lo: u32)
    by (bit_vector)
    requires
        hi < 256,
        lo < 256,
    ensures
        hi << 8 == hi * 256,
        (((hi << 8) + lo) as u32) % 256 == lo,
        ((((hi << 8) + lo) as u32) / 256) % 256 == hi,
{
}

/// Masks of bytes are remainders.
pub proof fn lemma_byte_masks(c: u8)
    by (bit_vector)
    ensures
        c & 0b111 == c % 8,
        c & 0b11 == c % 4,
        c & 0b1 == c % 2,
        c & 0b10 == 2 * ((c / 2) % 2),
        c % 4 == c % 2 + 2 * ((c / 2) % 2),
        (0u8 | 0x01u8) == 1u8,
        (0u8 | 0x02u8) == 2u8,
        (1u8 | 0x02u8) == 3u8,
{
}

/// The major opcode (bits 6..2) of the words with the given lowest seven bits.
pub proof fn lemma_opcodes(x: u32)
    by (bit_vector)
    ensures
        x & 0x7F == 0x03 ==> (x >> 2) & 31 == 0,
        x & 0x7F == 0x13 ==> (x >> 2) & 31 == 4,
        x & 0x7F == 0x17 ==> (x >> 2) & 31 == 5,
        x & 0x7F == 0x23 ==> (x >> 2) & 31 == 8,
        x & 0x7F == 0x33 ==> (x >> 2) & 31 == 12,
        x & 0x7F == 0x37 ==> (x >> 2) & 31 == 13,
        x & 0x7F == 0x63 ==> (x >> 2) & 31 == 24,
        x & 0x7F == 0x67 ==> (x >> 2) & 31 == 25,
        x & 0x7F == 0x6F ==> (x >> 2) & 31 == 27,
        x & 0x7F == 0x73 ==> (x >> 2) & 31 == 28,
{
}

/// Sign extension of a byte or halfword is the cast through the signed type.
pub proof fn lemma_sign_extension(v: u32)
    by (bit_vector)
    ensures
        v < 256 ==> sign_extended(v, 8) == (v as u8) as i8 as i32 as u32,
        v < 0x1_0000 ==> sign_extended(v, 16) == (v as u16) as i16 as i32 as u32,
{
}

/// Arithmetic right shifts of a word read as signed: the bits shifted in are
/// copies of bit 31.
pub proof fn lemma_arith_shifts(x: u32)
    by (bit_vector)
    ensures
        x < 0x8000_0000 ==> (x as i32) >> 20 == (x >> 20) as i32 && x >> 20 < 2048,
        x >= 0x8000_0000 ==> ((x as i32) >> 20) + 4096i32 == (x >> 20) as i32 && 2048 <= x >> 20 < 4096,
        x < 0x8000_0000 ==> (x as i32) >> 25 == (x >> 25) as i32 && x >> 25 < 64,
        x >= 0x8000_0000 ==> ((x as i32) >> 25) + 128i32 == (x >> 25) as i32 && 64 <= x >> 25 < 128,
        x & 0xFFFF_F000 == (x >> 12) << 12,
        x >> 12 < 0x10_0000,
        (x < 0x8000_0000) == (x & 0xFFFF_F000 < 0x8000_0000),
{
}

} // verus!
