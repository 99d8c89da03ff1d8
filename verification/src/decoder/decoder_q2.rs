//! Decoding of the compressed instructions of quadrant 2 (lowest bits `0b10`):
//! stack-relative loads and stores, `C.SLLI`, and the register moves, jumps and
//! additions of `C.JR`, `C.MV`, `C.EBREAK`, `C.JALR` and `C.ADD`.
use vstd::prelude::*;
use crate::decoder::{Immediate, RDindex, RS1index, RS2index};
use crate::instructions::Instruction;
use crate::utils::field;

verus! {

/// The register named by bits 11..7.
pub open spec fn reg_rd(x: u32) -> usize {
    field(x, 7, 5) as usize
}

/// The register named by bits 6..2.
pub open spec fn reg_rs2(x: u32) -> usize {
    field(x, 2, 5) as usize
}

/// The shift amount of `C.SLLI`: bit 12 and bits 6..2.
pub open spec fn shamt(x: u32) -> int {
    field(x, 2, 5) + 32 * field(x, 12, 1)
}

/// The offset of `C.LWSP`: bit 12 gives offset bit 5, bits 6..4 offset bits 4..2
/// and bits 3..2 offset bits 7..6.
pub open spec fn lwsp_imm(x: u32) -> int {
    32 * field(x, 12, 1) + 4 * field(x, 4, 3) + 64 * field(x, 2, 2)
}

/// The offset of `C.FLDSP`: bit 12 gives offset bit 5, bits 6..5 offset bits 4..3
/// and bits 4..2 offset bits 8..6.
pub open spec fn ldsp_imm(x: u32) -> int {
    32 * field(x, 12, 1) + 8 * field(x, 5, 2) + 64 * field(x, 2, 3)
}

/// The offset of `C.SWSP`: bits 12..9 give offset bits 5..2, bits 8..7 offset bits 7..6.
pub open spec fn swsp_imm(x: u32) -> int {
    4 * field(x, 9, 4) + 64 * field(x, 7, 2)
}

/// The offset of `C.FSDSP`: bits 12..10 give offset bits 5..3, bits 9..7 offset bits 8..6.
pub open spec fn sdsp_imm(x: u32) -> int {
    8 * field(x, 10, 3) + 64 * field(x, 7, 3)
}

/// The instruction that a quadrant 2 halfword stands for, or why it stands for none.
/// The major opcode is the value of the word from bit 13 upwards.
pub open spec fn decode_spec(x: u32) -> Result<Instruction, &'static str> {
    let op = x as int / 8192;
    let rd = reg_rd(x);
    let rs2 = reg_rs2(x);
    if op == 0 {
        Ok(Instruction::CSLLI(rd, shamt(x) as i32))
    } else if op == 1 {
        Ok(Instruction::CFLDSP(rd, ldsp_imm(x) as i32))
    } else if op == 2 {
        Ok(Instruction::CLWSP(rd, lwsp_imm(x) as i32))
    } else if op == 3 {
        Ok(Instruction::CFLWSP(rd, lwsp_imm(x) as i32))
    } else if op == 4 {
        if field(x, 12, 1) == 0 {
            if rs2 == 0 {
                Ok(Instruction::CJR(rd))
            } else {
                Ok(Instruction::CMV(rd, rs2))
            }
        } else {
            if rd == 0 && rs2 == 0 {
                Ok(Instruction::CEBREAK())
            } else if rs2 == 0 {
                Ok(Instruction::CJALR(rd))
            } else {
                Ok(Instruction::CADD(rd, rs2))
            }
        }
    } else if op == 5 {
        Ok(Instruction::CFSDSP(rs2, sdsp_imm(x) as i32))
    } else if op == 6 {
        Ok(Instruction::CSWSP(rs2, swsp_imm(x) as i32))
    } else if op == 7 {
        Ok(Instruction::CFSWSP(rs2, swsp_imm(x) as i32))
    } else {
        Err("Invalid q2 opcode")
    }
}

proof fn lemma_fields(x: u32)
    ensures
        (x >> 7) & 0b1_1111 == reg_rd(x),
        (x >> 2) & 0b1_1111 == reg_rs2(x),
        (x >> 12) & 1 == field(x, 12, 1),
        ((x >> 2) & 0b1_1111) | (((x >> 12) & 1) << 5) == shamt(x),
        (((x >> 12) & 1) << 5) | (((x >> 4) & 0b111) << 2) | (((x >> 2) & 0b11) << 6) == lwsp_imm(x),
        (((x >> 12) & 1) << 5) | (((x >> 5) & 0b11) << 3) | (((x >> 2) & 0b111) << 6) == ldsp_imm(x),
        (((x >> 9) & 0b1111) << 2) | (((x >> 7) & 0b11) << 6) == swsp_imm(x),
        (((x >> 10) & 0b111) << 3) | (((x >> 7) & 0b111) << 6) == sdsp_imm(x),
        x >> 13 == x as int / 8192,
        shamt(x) < 64,
        lwsp_imm(x) < 256,
        ldsp_imm(x) < 512,
        swsp_imm(x) < 256,
        sdsp_imm(x) < 512,
{
    vstd::arithmetic::power2::lemma2_to64();
    assert(
        ((x >> 7) & 0b1_1111 == (x / 128) % 32) &&
        ((x >> 2) & 0b1_1111 == (x / 4) % 32) &&
        ((x >> 12) & 1 == (x / 4096) % 2) &&
        (((x >> 2) & 0b1_1111) | (((x >> 12) & 1) << 5) == (x / 4) % 32 + 32 * ((x / 4096) % 2)) &&
        ((((x >> 12) & 1) << 5) | (((x >> 4) & 0b111) << 2) | (((x >> 2) & 0b11) << 6) == 32 * ((x / 4096) % 2) + 4 * ((x / 16) % 8) + 64 * ((x / 4) % 4)) &&
        ((((x >> 12) & 1) << 5) | (((x >> 5) & 0b11) << 3) | (((x >> 2) & 0b111) << 6) == 32 * ((x / 4096) % 2) + 8 * ((x / 32) % 4) + 64 * ((x / 4) % 8)) &&
        ((((x >> 9) & 0b1111) << 2) | (((x >> 7) & 0b11) << 6) == 4 * ((x / 512) % 16) + 64 * ((x / 128) % 4)) &&
        ((((x >> 10) & 0b111) << 3) | (((x >> 7) & 0b111) << 6) == 8 * ((x / 1024) % 8) + 64 * ((x / 128) % 8))
    ) by (bit_vector);
    assert(x >> 13 == x / 8192) by (bit_vector);
}

/// Decodes a compressed instruction of quadrant 2.
pub fn decode(instruction: u32) -> (r: Result<Instruction, &'static str>)
    ensures
        r == decode_spec(instruction),
{
    proof { lemma_fields(instruction); }
    let x = instruction;
    let rd = ((x >> 7) & 0b1_1111) as RDindex;
    let rs2 = ((x >> 2) & 0b1_1111) as RS2index;
    let lwsp = ((((x >> 12) & 1) << 5) | (((x >> 4) & 0b111) << 2) | (((x >> 2) & 0b11) << 6)) as Immediate;
    let swsp = ((((x >> 9) & 0b1111) << 2) | (((x >> 7) & 0b11) << 6)) as Immediate;
    match x >> 13 {
        0b000 => Ok(Instruction::CSLLI(rd, (((x >> 2) & 0b1_1111) | (((x >> 12) & 1) << 5)) as Immediate)),
        0b001 => {
            let imm = ((((x >> 12) & 1) << 5) | (((x >> 5) & 0b11) << 3) | (((x >> 2) & 0b111) << 6)) as Immediate;
            Ok(Instruction::CFLDSP(rd, imm))
        }
        0b010 => Ok(Instruction::CLWSP(rd, lwsp)),
        0b011 => Ok(Instruction::CFLWSP(rd, lwsp)),
        0b100 => {
            if (x >> 12) & 1 == 0 {
                if rs2 == 0 {
                    Ok(Instruction::CJR(rd as RS1index))
                } else {
                    Ok(Instruction::CMV(rd, rs2))
                }
            } else if rd == 0 && rs2 == 0 {
                Ok(Instruction::CEBREAK())
            } else if rs2 == 0 {
                Ok(Instruction::CJALR(rd as RS1index))
            } else {
                Ok(Instruction::CADD(rd, rs2))
            }
        }
        0b101 => {
            let imm = ((((x >> 10) & 0b111) << 3) | (((x >> 7) & 0b111) << 6)) as Immediate;
            Ok(Instruction::CFSDSP(rs2, imm))
        }
        0b110 => Ok(Instruction::CSWSP(rs2, swsp)),
        0b111 => Ok(Instruction::CFSWSP(rs2, swsp)),
        _ => Err("Invalid q2 opcode"),
    }
}

} // verus!
