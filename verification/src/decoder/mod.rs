//! Decoding of instruction words into `Instruction`s.
use vstd::prelude::*;
use vstd::arithmetic::power2::pow2;
use crate::utils::field;
use crate::instructions::{regs_in_range, Instruction};

pub mod decoder_q0;
pub mod decoder_q1;
pub mod decoder_q2;
pub mod decoder_q3;

verus! {

pub type Immediate = i32;
pub type RDindex = usize;
pub type RS1index = usize;
pub type RS2index = usize;

/// Bit `from` of `inst`, moved to bit position `to`.
pub fn bit_from_to(inst: u32, from: u32, to: u32) -> (r: u32)
    requires
        from < 32,
        to < 32,
    ensures
        r == ((inst >> from) & 1) << to,
        r as int == field(inst, from as nat, 1) * pow2(to as nat),
{
    proof {
        lemma_bit_from_to(inst, from, to);
    }
    ((inst >> from) & 1) << to
}

proof fn lemma_bit_from_to(x: u32, from: u32, to: u32)
    requires
        from < 32,
        to < 32,
    ensures
        ((x >> from) & 1) << to == field(x, from as nat, 1) * pow2(to as nat),
{
    vstd::bits::lemma_u32_shr_is_div(x, from);
    let y = x >> from;
    let b = y & 1;
    assert(b == y % 2) by (bit_vector)
        requires b == y & 1;
    vstd::arithmetic::power2::lemma_pow2_strictly_increases(to as nat, 32);
    vstd::arithmetic::power2::lemma2_to64();
    vstd::arithmetic::power2::lemma_pow2_pos(to as nat);
    assert(b * pow2(to as nat) <= u32::MAX) by (nonlinear_arith)
        requires b <= 1, pow2(to as nat) < 0x1_0000_0000;
    vstd::bits::lemma_u32_shl_is_mul(b, to);
    vstd::arithmetic::power2::lemma_pow2_pos(from as nat);
}

/// The instruction that a word fetched from memory stands for. The two lowest bits
/// select the quadrant: `0b11` marks a 32-bit instruction, the other quadrants
/// hold a 16-bit compressed instruction in the low halfword.
pub open spec fn decode_word(w: u32) -> Result<Instruction, &'static str> {
    let h = (w % 0x1_0000) as u32;
    if w % 4 == 3 {
        decoder_q3::decode_spec(w)
    } else if w % 4 == 0 {
        decoder_q0::decode_spec(h)
    } else if w % 4 == 1 {
        if decoder_q1::decodable(h) {
            decoder_q1::decode_spec(h)
        } else {
            Err("Reserved C.LUI with rd zero")
        }
    } else {
        decoder_q2::decode_spec(h)
    }
}

/// Decodes the instruction at the start of a word fetched from memory.
pub fn decode(instruction: u32) -> (r: Result<Instruction, &'static str>)
    ensures
        r == decode_word(instruction),
{
    let half = instruction & 0xFFFF;
    proof {
        crate::bits::lemma_masks(instruction);
    }
    match instruction & 0b11 {
        0b11 => decoder_q3::decode(instruction),
        0b00 => decoder_q0::decode(half),
        0b01 => {
            if (half >> 13) == 3 && ((half >> 7) & 0b1_1111) == 0 {
                proof { lemma_q1_reserved(half); }
                Err("Reserved C.LUI with rd zero")
            } else {
                proof { lemma_q1_reserved(half); }
                decoder_q1::decode(half)
            }
        }
        _ => decoder_q2::decode(half),
    }
}

proof fn lemma_q1_reserved(h: u32)
    ensures
        ((h >> 13) == 3 && ((h >> 7) & 0b1_1111) == 0) == !decoder_q1::decodable(h),
{
    vstd::arithmetic::power2::lemma2_to64();
    assert(h >> 13 == h / 8192) by (bit_vector);
    assert((h >> 7) & 0b1_1111 == (h / 128) % 32) by (bit_vector);
}

/// A decoded instruction names only the 32 integer registers and CSR addresses
/// below 4096, and it is compressed exactly when the word's two lowest bits are
/// not `0b11`.
pub proof fn lemma_decoded_well_formed(w: u32)
    requires
        decode_word(w) is Ok,
    ensures
        regs_in_range(decode_word(w)->Ok_0),
        decode_word(w)->Ok_0.spec_is_compressed() == (w % 4 != 3),
{
    vstd::arithmetic::power2::lemma2_to64();
    let h = (w % 0x1_0000) as u32;
    assert(field(w, 7, 5) < 32 && field(w, 15, 5) < 32 && field(w, 20, 5) < 32 && field(w, 20, 12) < 4096);
    assert(field(h, 7, 5) < 32 && field(h, 2, 5) < 32 && field(h, 7, 3) < 8 && field(h, 2, 3) < 8);
}

} // verus!
