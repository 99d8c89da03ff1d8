//! Decoding of the compressed instructions of quadrant 0 (lowest bits `0b00`):
//! the loads and stores relative to a register and `C.ADDI4SPN`.
use vstd::prelude::*;
use crate::decoder::{Immediate, RDindex, RS1index, RS2index};
use crate::instructions::Instruction;
use crate::utils::field;

verus! {

/// The register `x8`..`x15` named by bits 4..2.
pub open spec fn reg_low(x: u32) -> usize {
    (field(x, 2, 3) + 8) as usize
}

/// The register `x8`..`x15` named by bits 9..7.
pub open spec fn reg_high(x: u32) -> usize {
    (field(x, 7, 3) + 8) as usize
}

/// The stack offset of `C.ADDI4SPN`: bits 12..11 give offset bits 5..4,
/// bits 10..7 offset bits 9..6, bit 6 offset bit 2 and bit 5 offset bit 3.
pub open spec fn addi4spn_imm(x: u32) -> int {
    16 * field(x, 11, 2) + 64 * field(x, 7, 4) + 4 * field(x, 6, 1) + 8 * field(x, 5, 1)
}

/// The offset of the word loads and stores: bits 12..10 give offset bits 5..3,
/// bit 6 offset bit 2 and bit 5 offset bit 6.
pub open spec fn word_imm(x: u32) -> int {
    8 * field(x, 10, 3) + 4 * field(x, 6, 1) + 64 * field(x, 5, 1)
}

/// The offset of the double word loads and stores: bits 12..10 give offset bits
/// 5..3 and bits 6..5 offset bits 7..6.
pub open spec fn double_imm(x: u32) -> int {
    8 * field(x, 10, 3) + 64 * field(x, 5, 2)
}

/// The instruction that a quadrant 0 halfword stands for, or why it stands for none.
/// The major opcode is the value of the word from bit 13 upwards.
pub open spec fn decode_spec(x: u32) -> Result<Instruction, &'static str> {
    let op = x as int / 8192;
    let d = double_imm(x) as i32;
    let w = word_imm(x) as i32;
    if op == 0 {
        if x == 0 {
            Err("Illegal instruction")
        } else {
            Ok(Instruction::CADDI4SPN(reg_low(x), addi4spn_imm(x) as i32))
        }
    } else if op == 1 {
        Ok(Instruction::CFLD(reg_low(x), reg_high(x), d))
    } else if op == 2 {
        Ok(Instruction::CLW(reg_low(x), reg_high(x), w))
    } else if op == 3 {
        Ok(Instruction::CFLW(reg_low(x), reg_high(x), w))
    } else if op == 4 {
        Err("Reserved q0 opcode")
    } else if op == 5 {
        Ok(Instruction::CFSD(reg_high(x), reg_low(x), d))
    } else if op == 6 {
        Ok(Instruction::CSW(reg_high(x), reg_low(x), w))
    } else if op == 7 {
        Ok(Instruction::CFSW(reg_high(x), reg_low(x), w))
    } else {
        Err("Invalid q0 opcode")
    }
}

proof fn lemma_fields(x: u32)
    ensures
        ((x >> 2) & 0b111) + 8 == reg_low(x),
        ((x >> 7) & 0b111) + 8 == reg_high(x),
        (((x >> 11) & 0b11) << 4) | (((x >> 7) & 0b1111) << 6) | (((x >> 6) & 1) << 2) | (((x >> 5) & 1) << 3)
            == addi4spn_imm(x),
        (((x >> 10) & 0b111) << 3) | (((x >> 6) & 1) << 2) | (((x >> 5) & 1) << 6) == word_imm(x),
        (((x >> 10) & 0b111) << 3) | (((x >> 5) & 0b11) << 6) == double_imm(x),
        x >> 13 == x as int / 8192,
        (x >> 2) & 0b111 < 8,
        (x >> 7) & 0b111 < 8,
        addi4spn_imm(x) < 1024,
        word_imm(x) < 128,
        double_imm(x) < 256,
{
    vstd::arithmetic::power2::lemma2_to64();
    assert(
        (((x >> 2) & 0b111) == (x / 4) % 8) &&
        (((x >> 7) & 0b111) == (x / 128) % 8) &&
        ((((x >> 11) & 0b11) << 4) | (((x >> 7) & 0b1111) << 6) | (((x >> 6) & 1) << 2) | (((x >> 5) & 1) << 3) == 16 * ((x / 2048) % 4) + 64 * ((x / 128) % 16) + 4 * ((x / 64) % 2) + 8 * ((x / 32) % 2)) &&
        ((((x >> 10) & 0b111) << 3) | (((x >> 6) & 1) << 2) | (((x >> 5) & 1) << 6) == 8 * ((x / 1024) % 8) + 4 * ((x / 64) % 2) + 64 * ((x / 32) % 2)) &&
        ((((x >> 10) & 0b111) << 3) | (((x >> 5) & 0b11) << 6) == 8 * ((x / 1024) % 8) + 64 * ((x / 32) % 4)) &&
        (x >> 13 == x / 8192) &&
        ((x >> 2) & 0b111 < 8)
    ) by (bit_vector);
    assert((x >> 7) & 0b111 < 8) by (bit_vector);
}

/// Decodes a compressed instruction of quadrant 0.
pub fn decode(instruction: u32) -> (r: Result<Instruction, &'static str>)
    ensures
        r == decode_spec(instruction),
{
    proof { lemma_fields(instruction); }
    let x = instruction;
    let low = (((x >> 2) & 0b111) + 8) as RDindex;
    let high = (((x >> 7) & 0b111) + 8) as RS1index;
    let w = ((((x >> 10) & 0b111) << 3) | (((x >> 6) & 1) << 2) | (((x >> 5) & 1) << 6)) as Immediate;
    let d = ((((x >> 10) & 0b111) << 3) | (((x >> 5) & 0b11) << 6)) as Immediate;
    match x >> 13 {
        0b000 => {
            if x == 0 {
                return Err("Illegal instruction");
            }
            let imm = ((((x >> 11) & 0b11) << 4) | (((x >> 7) & 0b1111) << 6) | (((x >> 6) & 1) << 2)
                | (((x >> 5) & 1) << 3)) as Immediate;
            Ok(Instruction::CADDI4SPN(low, imm))
        }
        0b001 => Ok(Instruction::CFLD(low, high, d)),
        0b010 => Ok(Instruction::CLW(low, high, w)),
        0b011 => Ok(Instruction::CFLW(low, high, w)),
        0b100 => Err("Reserved q0 opcode"),
        0b101 => Ok(Instruction::CFSD(high, low as RS2index, d)),
        0b110 => Ok(Instruction::CSW(high, low as RS2index, w)),
        0b111 => Ok(Instruction::CFSW(high, low as RS2index, w)),
        _ => Err("Invalid q0 opcode"),
    }
}

} // verus!
