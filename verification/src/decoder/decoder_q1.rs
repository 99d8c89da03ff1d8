//! Decoding of the compressed instructions of quadrant 1 (lowest bits `0b01`).
use vstd::prelude::*;
use crate::decoder::{bit_from_to, Immediate, RDindex, RS1index};
use crate::instructions::Instruction;
use crate::utils::{field, sign_extend};

verus! {

#[derive(Debug, PartialEq, Eq, Structural)]
enum OpCode {
    ADDI,
    JAL,
    LI,
    LUI,
    ALU,
    J,
    BEQZ,
    BNEZ,
}

/// The six bits of the CI format, bits 12 and 6..2, read unsigned.
pub open spec fn ci_uimm(x: u32) -> int {
    field(x, 2, 5) + 32 * field(x, 12, 1)
}

/// The six bits of the CI format read as a two's complement number.
pub open spec fn ci_imm(x: u32) -> int {
    field(x, 2, 5) - 32 * field(x, 12, 1)
}

/// The sign-extended jump offset of the CJ format.
pub open spec fn cj_imm(x: u32) -> int {
    2 * field(x, 3, 1) + 4 * field(x, 4, 1) + 8 * field(x, 5, 1) + 16 * field(x, 11, 1)
        + 32 * field(x, 2, 1) + 64 * field(x, 7, 1) + 128 * field(x, 6, 1)
        + 256 * field(x, 9, 1) + 512 * field(x, 10, 1) + 1024 * field(x, 8, 1)
        - 2048 * field(x, 12, 1)
}

/// The sign-extended branch offset of the CB format.
pub open spec fn cb_imm(x: u32) -> int {
    2 * field(x, 3, 1) + 4 * field(x, 4, 1) + 8 * field(x, 10, 1) + 16 * field(x, 11, 1)
        + 32 * field(x, 2, 1) + 64 * field(x, 5, 1) + 128 * field(x, 6, 1)
        - 256 * field(x, 12, 1)
}

/// The sign-extended stack adjustment of `C.ADDI16SP`.
pub open spec fn addi16sp_imm(x: u32) -> int {
    16 * field(x, 6, 1) + 32 * field(x, 2, 1) + 64 * field(x, 5, 1) + 128 * field(x, 3, 1)
        + 256 * field(x, 4, 1) - 512 * field(x, 12, 1)
}

/// The register of the CI format: bits 11..7.
pub open spec fn c_rd_of(x: u32) -> usize {
    field(x, 7, 5) as usize
}

/// The register `x8`..`x15` named by bits 9..7.
pub open spec fn c_rs1_prime(x: u32) -> usize {
    (field(x, 7, 3) + 8) as usize
}

/// The register `x8`..`x15` named by bits 4..2.
pub open spec fn c_rs2_prime(x: u32) -> usize {
    (field(x, 2, 3) + 8) as usize
}

/// The instruction that a quadrant 1 halfword stands for, or why it stands for none.
/// The major opcode is the value of the word from bit 13 upwards.
pub open spec fn decode_spec(x: u32) -> Result<Instruction, &'static str> {
    let op = x as int / 8192;
    if op == 0 {
        if x == 0 {
            Ok(Instruction::CNOP(0, 0))
        } else {
            Ok(Instruction::CADDI(c_rd_of(x), ci_imm(x) as i32))
        }
    } else if op == 1 {
        Ok(Instruction::CJAL(cj_imm(x) as i32))
    } else if op == 2 {
        Ok(Instruction::CLI(c_rd_of(x), ci_imm(x) as i32))
    } else if op == 3 {
        if c_rd_of(x) == 2 {
            Ok(Instruction::CADDI16SP(2, addi16sp_imm(x) as i32))
        } else {
            Ok(Instruction::CLUI(c_rd_of(x), (4096 * ci_imm(x)) as i32))
        }
    } else if op == 4 {
        let rs1 = c_rs1_prime(x);
        let opt = field(x, 10, 2);
        if opt == 0 {
            Ok(Instruction::CSRLI(rs1, ci_uimm(x) as i32))
        } else if opt == 1 {
            Ok(Instruction::CSRAI(rs1, ci_uimm(x) as i32))
        } else if opt == 2 {
            Ok(Instruction::CANDI(rs1, ci_imm(x) as i32))
        } else {
            let rs2 = c_rs2_prime(x);
            let f = field(x, 5, 2);
            if f == 0 {
                Ok(Instruction::CSUB(rs1, rs2))
            } else if f == 1 {
                Ok(Instruction::CXOR(rs1, rs2))
            } else if f == 2 {
                Ok(Instruction::COR(rs1, rs2))
            } else {
                Ok(Instruction::CAND(rs1, rs2))
            }
        }
    } else if op == 5 {
        Ok(Instruction::CJ(cj_imm(x) as i32))
    } else if op == 6 {
        Ok(Instruction::CBEQZ(c_rs1_prime(x), cb_imm(x) as i32))
    } else if op == 7 {
        Ok(Instruction::CBNEZ(c_rs1_prime(x), cb_imm(x) as i32))
    } else {
        Err("Invalid q1 opcode")
    }
}

/// The halfwords that `decode` accepts: `C.LUI` and `C.ADDI16SP` with `rd` zero
/// are refused.
pub open spec fn decodable(x: u32) -> bool {
    !(x as int / 8192 == 3 && c_rd_of(x) == 0)
}

proof fn lemma_fields(x: u32)
    ensures
        (x >> 7) & 0b1_1111 == field(x, 7, 5),
        (x >> 2) & 0b1_1111 == field(x, 2, 5),
        (x >> 7) & 0b111 == field(x, 7, 3),
        (x >> 2) & 0b111 == field(x, 2, 3),
        (x >> 10) & 0b11 == field(x, 10, 2),
        (x >> 5) & 0b11 == field(x, 5, 2),
        x >> 13 == x as int / 8192,
        field(x, 10, 2) < 4,
        field(x, 5, 2) < 4,
        0 <= field(x, 2, 3) < 8,
        0 <= field(x, 2, 5) < 32,
        0 <= field(x, 12, 1) < 2,
{
    vstd::arithmetic::power2::lemma2_to64();
    assert(
        ((x >> 7) & 0b1_1111 == (x / 128) % 32) &&
        ((x >> 2) & 0b1_1111 == (x / 4) % 32) &&
        ((x >> 7) & 0b111 == (x / 128) % 8) &&
        ((x >> 2) & 0b111 == (x / 4) % 8) &&
        ((x >> 10) & 0b11 == (x / 1024) % 4) &&
        ((x >> 5) & 0b11 == (x / 32) % 4)
    ) by (bit_vector);
    assert(x >> 13 == x / 8192) by (bit_vector);
}

/* CI format */
fn get_imm(inst: u32) -> (r: u32)
    ensures
        r as int == ci_uimm(inst),
        r < 64,
{
    proof {
        lemma_fields(inst);
        vstd::arithmetic::power2::lemma2_to64();
    }
    ((inst >> 2) & 0b1_1111) + bit_from_to(inst, 12, 5)
}

/// Reads the six unsigned bits `u` of a CI immediate as a two's complement number.
proof fn lemma_sext6(u: u32, v: u32)
    requires
        u < 64,
        v == (if (u >> 5u32) & 1 == 1 { u | (!0u32 << 6u32) } else { u }),
    ensures
        (v as i32) as int == u as int - 64 * (u as int / 32),
        ((v << 12u32) as i32) as int == 4096 * (u as int - 64 * (u as int / 32)),
{
    assert((v as i32) as int == u as int - 64 * (u as int / 32)) by (bit_vector)
        requires
            u < 64,
            v == (if (u >> 5u32) & 1 == 1 { u | (!0u32 << 6u32) } else { u }),
    ;
    assert(((v << 12u32) as i32) as int == 4096 * (u as int - 64 * (u as int / 32))) by (bit_vector)
        requires
            u < 64,
            v == (if (u >> 5u32) & 1 == 1 { u | (!0u32 << 6u32) } else { u }),
    ;
}

/* CJ format */
fn get_jimm(inst: u32) -> (r: Immediate)
    ensures
        r as int == cj_imm(inst),
        r == cj_imm(inst) as i32,
{
    proof {
        vstd::arithmetic::power2::lemma2_to64();
    }
    let u = bit_from_to(inst, 2, 5)
        + bit_from_to(inst, 3, 1)
        + bit_from_to(inst, 4, 2)
        + bit_from_to(inst, 5, 3)
        + bit_from_to(inst, 6, 7)
        + bit_from_to(inst, 7, 6)
        + bit_from_to(inst, 8, 10)
        + bit_from_to(inst, 9, 8)
        + bit_from_to(inst, 10, 9)
        + bit_from_to(inst, 11, 4)
        + bit_from_to(inst, 12, 11);
    let v = sign_extend(u, 12);
    proof {
        assert((v as i32) as int == u as int - 4096 * (u as int / 2048)) by (bit_vector)
            requires
                u < 4096,
                v == (if (u >> 11u32) & 1 == 1 { u | (!0u32 << 12u32) } else { u }),
        ;
    }
    v as Immediate
}

/* CB format */
fn get_bimm(inst: u32) -> (r: Immediate)
    ensures
        r as int == cb_imm(inst),
        r == cb_imm(inst) as i32,
{
    proof {
        vstd::arithmetic::power2::lemma2_to64();
    }
    let u = bit_from_to(inst, 2, 5)
        + bit_from_to(inst, 3, 1)
        + bit_from_to(inst, 4, 2)
        + bit_from_to(inst, 5, 6)
        + bit_from_to(inst, 6, 7)
        + bit_from_to(inst, 10, 3)
        + bit_from_to(inst, 11, 4)
        + bit_from_to(inst, 12, 8);
    let v = sign_extend(u, 9);
    proof {
        assert((v as i32) as int == u as int - 512 * (u as int / 256)) by (bit_vector)
            requires
                u < 512,
                v == (if (u >> 8u32) & 1 == 1 { u | (!0u32 << 9u32) } else { u }),
        ;
    }
    v as Immediate
}

fn get_addi16spimm(inst: u32) -> (r: Immediate)
    ensures
        r as int == addi16sp_imm(inst),
        r == addi16sp_imm(inst) as i32,
{
    proof {
        vstd::arithmetic::power2::lemma2_to64();
    }
    let u = bit_from_to(inst, 2, 5)
        + bit_from_to(inst, 3, 7)
        + bit_from_to(inst, 4, 8)
        + bit_from_to(inst, 5, 6)
        + bit_from_to(inst, 6, 4)
        + bit_from_to(inst, 12, 9);
    let v = sign_extend(u, 10);
    proof {
        assert((v as i32) as int == u as int - 1024 * (u as int / 512)) by (bit_vector)
            requires
                u < 1024,
                v == (if (u >> 9u32) & 1 == 1 { u | (!0u32 << 10u32) } else { u }),
        ;
    }
    v as Immediate
}

/* Valid for CI and CB */
fn get_rs(inst: u32) -> (r: RS1index)
    ensures
        r == c_rs1_prime(inst),
{
    proof {
        lemma_fields(inst);
        assert((inst >> 7) & 0b111 < 8) by (bit_vector);
    }
    (((inst >> 7) & 0b111) + 8) as RS1index
}

spec fn opcode_spec(x: u32) -> Result<OpCode, &'static str> {
    let op = x as int / 8192;
    if op == 0 {
        Ok(OpCode::ADDI)
    } else if op == 1 {
        Ok(OpCode::JAL)
    } else if op == 2 {
        Ok(OpCode::LI)
    } else if op == 3 {
        Ok(OpCode::LUI)
    } else if op == 4 {
        Ok(OpCode::ALU)
    } else if op == 5 {
        Ok(OpCode::J)
    } else if op == 6 {
        Ok(OpCode::BEQZ)
    } else if op == 7 {
        Ok(OpCode::BNEZ)
    } else {
        Err("Invalid q1 opcode")
    }
}

fn get_opcode(instruction: u32) -> (r: Result<OpCode, &'static str>)
    ensures
        r == opcode_spec(instruction),
{
    proof {
        lemma_fields(instruction);
    }
    match instruction >> 13 {
        0b000 => Ok(OpCode::ADDI),
        0b001 => Ok(OpCode::JAL),
        0b010 => Ok(OpCode::LI),
        0b011 => Ok(OpCode::LUI),
        0b100 => Ok(OpCode::ALU),
        0b101 => Ok(OpCode::J),
        0b110 => Ok(OpCode::BEQZ),
        0b111 => Ok(OpCode::BNEZ),
        _ => Err("Invalid q1 opcode"),
    }
}

/// Decodes a compressed instruction of quadrant 1.
pub fn decode(instruction: u32) -> (r: Result<Instruction, &'static str>)
    requires
        decodable(instruction),
    ensures
        r == decode_spec(instruction),
{
    proof {
        lemma_fields(instruction);
    }
    let op = get_opcode(instruction)?;
    match op {
        OpCode::ADDI => {
            if instruction == 0 {
                return Ok(Instruction::CNOP(0, 0));
            }
            let rdindex = ((instruction >> 7) & 0b1_1111) as RDindex;
            let u = get_imm(instruction);
            let v = sign_extend(u, 6);
            proof { lemma_sext6(u, v); }
            let imm = v as Immediate;
            Ok(Instruction::CADDI(rdindex, imm))
        }
        OpCode::JAL => {
            let imm = get_jimm(instruction);
            Ok(Instruction::CJAL(imm))
        }
        OpCode::LI => {
            let rdindex = ((instruction >> 7) & 0b1_1111) as RDindex;
            let u = get_imm(instruction);
            let v = sign_extend(u, 6);
            proof { lemma_sext6(u, v); }
            let imm = v as Immediate;
            Ok(Instruction::CLI(rdindex, imm))
        }
        OpCode::LUI => {
            let rdindex = ((instruction >> 7) & 0b1_1111) as RDindex;
            if rdindex == 2 {
                Ok(Instruction::CADDI16SP(2, get_addi16spimm(instruction)))
            } else {
                let u = get_imm(instruction);
                let v = sign_extend(u << 12, 18);
                proof {
                    let w = if (u >> 5u32) & 1 == 1 { u | (!0u32 << 6u32) } else { u };
                    lemma_sext6(u, w);
                    assert(v == w << 12u32) by (bit_vector)
                        requires
                            u < 64,
                            w == (if (u >> 5u32) & 1 == 1 { u | (!0u32 << 6u32) } else { u }),
                            v == (if ((u << 12u32) >> 17u32) & 1 == 1 { (u << 12u32) | (!0u32 << 18u32) } else { u << 12u32 }),
                    ;
                }
                Ok(Instruction::CLUI(rdindex, v as Immediate))
            }
        }
        OpCode::ALU => {
            let opt1110 = (instruction >> 10) & 0b11;
            let opt56 = (instruction >> 5) & 0b11;
            let imm = get_imm(instruction);
            let rs1index = get_rs(instruction);
            match opt1110 {
                0b00 => Ok(Instruction::CSRLI(rs1index, imm as Immediate)),
                0b01 => Ok(Instruction::CSRAI(rs1index, imm as Immediate)),
                0b10 => {
                    let v = sign_extend(imm, 6);
                    proof { lemma_sext6(imm, v); }
                    Ok(Instruction::CANDI(rs1index, v as Immediate))
                }
                _ => {
                    let rs2index = (((instruction >> 2) & 0b111) + 8) as RS1index;
                    match opt56 {
                        0b00 => Ok(Instruction::CSUB(rs1index, rs2index)),
                        0b01 => Ok(Instruction::CXOR(rs1index, rs2index)),
                        0b10 => Ok(Instruction::COR(rs1index, rs2index)),
                        _ => Ok(Instruction::CAND(rs1index, rs2index)),
                    }
                }
            }
        }
        OpCode::J => {
            let imm = get_jimm(instruction);
            Ok(Instruction::CJ(imm))
        }
        OpCode::BEQZ => {
            let rsindex = get_rs(instruction);
            let imm = get_bimm(instruction);
            Ok(Instruction::CBEQZ(rsindex, imm))
        }
        OpCode::BNEZ => {
            let rsindex = get_rs(instruction);
            let imm = get_bimm(instruction);
            Ok(Instruction::CBNEZ(rsindex, imm))
        }
    }
}

/// Quadrant 1 decoding refuses words wider than 16 bits; of the halfwords it
/// refuses exactly `C.LUI` with `rd` zero (major opcode 3, bits 11..7 zero), on
/// which `decode` is not called, and decodes every other one. What it gives is
/// compressed, and its registers are the fields of the format: `rd` from bits
/// 11..7 for C.ADDI, C.LI and C.LUI, and `x8`..`x15` from bits 9..7 and 4..2 for
/// the others.
pub proof fn law_q1_decode(x: u32)
    ensures
        !decodable(x) <==> (x < 0x1_0000 && x >> 13 == 3 && (x >> 7) & 0b1_1111 == 0),
        x >= 0x1_0000 ==> decode_spec(x) == Err::<Instruction, &'static str>("Invalid q1 opcode"),
        x < 0x1_0000 && decodable(x) ==> decode_spec(x) is Ok,
        decodable(x) && decode_spec(x) is Ok ==> {
            let i = decode_spec(x)->Ok_0;
            &&& i.spec_is_compressed()
            &&& match i {
                Instruction::CSRLI(r, _) | Instruction::CSRAI(r, _) | Instruction::CANDI(r, _)
                | Instruction::CBEQZ(r, _) | Instruction::CBNEZ(r, _) => r == c_rs1_prime(x) && 8 <= r <= 15,
                Instruction::CSUB(a, b) | Instruction::CXOR(a, b) | Instruction::COR(a, b)
                | Instruction::CAND(a, b) => a == c_rs1_prime(x) && b == c_rs2_prime(x) && 8 <= a <= 15
                    && 8 <= b <= 15,
                Instruction::CADDI(r, _) | Instruction::CLI(r, _) | Instruction::CLUI(r, _) => r == c_rd_of(x),
                _ => true,
            }
        },
{
    lemma_fields(x);
    vstd::arithmetic::power2::lemma2_to64();
    assert(0 <= field(x, 7, 3) < 8);
}

/// The jump offset of the CJ format is even, lies in -2048..=2046, and is
/// negative exactly when bit 12 is set.
pub proof fn law_cj_imm(x: u32)
    ensures
        cj_imm(x) % 2 == 0,
        -2048 <= cj_imm(x) <= 2046,
        cj_imm(x) < 0 <==> (x >> 12) & 1 == 1,
{
    vstd::arithmetic::power2::lemma2_to64();
    assert((x >> 12) & 1 == (x / 4096) % 2) by (bit_vector);
    assert(0 <= field(x, 2, 1) < 2 && 0 <= field(x, 3, 1) < 2 && 0 <= field(x, 4, 1) < 2 && 0 <= field(x, 5, 1) < 2);
    assert(0 <= field(x, 6, 1) < 2 && 0 <= field(x, 7, 1) < 2 && 0 <= field(x, 8, 1) < 2 && 0 <= field(x, 9, 1) < 2);
    assert(0 <= field(x, 10, 1) < 2 && 0 <= field(x, 11, 1) < 2 && 0 <= field(x, 12, 1) < 2);
}

} // verus!
