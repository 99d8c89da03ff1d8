//! Decoding of the 32-bit instruction words (quadrant 3, lowest bits `0b11`).
use vstd::prelude::*;
use crate::decoder::{Immediate, RDindex, RS1index, RS2index};
use crate::instructions::Instruction;
use crate::utils::{field, sign_extend};

verus! {

type Funct3 = u32;
type Funct5 = u32;
type Funct7 = u32;

/// The sign-extended 12-bit immediate of the I format: bits 31..20.
pub open spec fn imm_i(x: u32) -> int {
    field(x, 20, 12) - 4096 * field(x, 31, 1)
}

/// The unsigned 12-bit field that SYSTEM instructions carry in bits 31..20.
pub open spec fn imm_system(x: u32) -> int {
    field(x, 20, 12)
}

/// The sign-extended 12-bit immediate of the S format: bits 31..25 and 11..7.
pub open spec fn imm_s(x: u32) -> int {
    field(x, 7, 5) + 32 * field(x, 25, 7) - 4096 * field(x, 31, 1)
}

/// The immediate of the B format. Bits 4..1 come from bits 11..8 of the word,
/// bits 10..5 from bits 30..25 and bit 11 from bit 7; the value is sign-extended
/// from bit 11, and where bit 11 is clear, bit 31 of the word adds 4096.
pub open spec fn imm_b(x: u32) -> int {
    let low = 2 * field(x, 8, 4) + 32 * field(x, 25, 6) + 2048 * field(x, 7, 1);
    if field(x, 7, 1) == 1 {
        low - 4096
    } else {
        low + 4096 * field(x, 31, 1)
    }
}

/// The immediate of the U format: bits 31..12 of the word, bits 11..0 cleared,
/// read as a two's complement number.
pub open spec fn imm_u(x: u32) -> int {
    4096 * field(x, 12, 20) - 0x1_0000_0000 * field(x, 31, 1)
}

/// The immediate of the J format. Bits 10..1 come from bits 30..21 of the word,
/// bit 11 from bit 20 and bits 19..12 from bits 19..12; the value is
/// sign-extended from bit 19, and where bit 19 is clear, bit 31 of the word adds 2^20.
pub open spec fn imm_j(x: u32) -> int {
    let low = 2 * field(x, 21, 10) + 2048 * field(x, 20, 1) + 4096 * field(x, 12, 8);
    if field(x, 19, 1) == 1 {
        low - 0x10_0000
    } else {
        low + 0x10_0000 * field(x, 31, 1)
    }
}

pub open spec fn rd_of(x: u32) -> usize {
    field(x, 7, 5) as usize
}

pub open spec fn rs1_of(x: u32) -> usize {
    field(x, 15, 5) as usize
}

pub open spec fn rs2_of(x: u32) -> usize {
    field(x, 20, 5) as usize
}

pub open spec fn funct3_of(x: u32) -> int {
    field(x, 12, 3)
}

pub open spec fn funct5_of(x: u32) -> int {
    field(x, 27, 5)
}

pub open spec fn funct7_of(x: u32) -> int {
    field(x, 25, 7)
}

proof fn lemma_fields(x: u32)
    ensures
        (x >> 7) & 0x1f == field(x, 7, 5),
        (x >> 15) & 0x1f == field(x, 15, 5),
        (x >> 20) & 0x1f == field(x, 20, 5),
        (x >> 12) & 0x7 == field(x, 12, 3),
        (x >> 27) & 0x1f == field(x, 27, 5),
        (x >> 25) & 0x7f == field(x, 25, 7),
        (x >> 20) == field(x, 20, 12),
        (x >> 5) & 0x3 == field(x, 5, 2),
        (x >> 2) & 0x7 == field(x, 2, 3),
        field(x, 2, 5) == 8 * field(x, 5, 2) + field(x, 2, 3),
{
    vstd::arithmetic::power2::lemma2_to64();
    assert(
        ((x >> 7) & 0x1f == (x / 128) % 32) &&
        ((x >> 15) & 0x1f == (x / 32768) % 32) &&
        ((x >> 20) & 0x1f == (x / 0x10_0000) % 32) &&
        ((x >> 12) & 0x7 == (x / 4096) % 8) &&
        ((x >> 27) & 0x1f == (x / 0x800_0000) % 32) &&
        ((x >> 25) & 0x7f == (x / 0x200_0000) % 128) &&
        ((x >> 20) == (x / 0x10_0000) % 4096) &&
        ((x >> 5) & 0x3 == (x / 32) % 4) &&
        ((x >> 2) & 0x7 == (x / 4) % 8)
    ) by (bit_vector);
    assert((x / 4) % 32 == 8 * ((x / 32) % 4) + (x / 4) % 8) by (bit_vector);
}

fn immediate_i(instruction: u32) -> (r: Immediate)
    ensures
        r as int == imm_i(instruction),
        r == imm_i(instruction) as i32,
{
    let v = sign_extend(instruction >> 20, 12);
    proof {
        vstd::arithmetic::power2::lemma2_to64();
        let x = instruction;
        assert((v as i32) as int == (x / 0x10_0000) % 4096 - 4096 * ((x / 0x8000_0000) % 2))
            by (bit_vector)
            requires
                v == (if ((x >> 20) >> 11u32) & 1 == 1 { (x >> 20) | (!0u32 << 12u32) } else { x >> 20 }),
        ;
    }
    v as Immediate
}

fn immediate_system(instruction: u32) -> (r: u32)
    ensures
        r as int == imm_system(instruction),
        r == imm_system(instruction) as u32,
{
    proof { lemma_fields(instruction); }
    instruction >> 20
}

fn immediate_s(instruction: u32) -> (r: Immediate)
    ensures
        r as int == imm_s(instruction),
        r == imm_s(instruction) as i32,
{
    let v = sign_extend(
        ((instruction >> 25) << 5) | ((instruction >> 7) & 0b1_1111),
        12,
    );
    proof {
        vstd::arithmetic::power2::lemma2_to64();
        let x = instruction;
        let u = ((x >> 25) << 5) | ((x >> 7) & 0b1_1111);
        assert((v as i32) as int == (x / 128) % 32 + 32 * ((x / 0x200_0000) % 128) - 4096 * ((x / 0x8000_0000) % 2))
            by (bit_vector)
            requires
                u == ((x >> 25) << 5) | ((x >> 7) & 0b1_1111),
                v == (if (u >> 11u32) & 1 == 1 { u | (!0u32 << 12u32) } else { u }),
        ;
    }
    v as Immediate
}

fn immediate_b(instruction: u32) -> (r: Immediate)
    ensures
        r as int == imm_b(instruction),
        r == imm_b(instruction) as i32,
{
    let bits_4_1 = (instruction >> 8) & 0b1111;
    let bits_10_5 = (instruction >> 25) & 0b11_1111;
    let bits_11 = (instruction >> 7) & 0b1;
    let bits_12 = (instruction >> 31) & 0b1;
    let v = sign_extend(
        (bits_12 << 12) | (bits_11 << 11) | (bits_10_5 << 5) | (bits_4_1 << 1),
        12,
    );
    proof {
        vstd::arithmetic::power2::lemma2_to64();
        let x = instruction;
        let u = (bits_12 << 12) | (bits_11 << 11) | (bits_10_5 << 5) | (bits_4_1 << 1);
        assert((v as i32) as int == if (x / 128) % 2 == 1 { (2 * ((x / 256) % 16) + 32 * ((x / 0x200_0000) % 64) + 2048 * ((x / 128) % 2)) - 4096 } else { (2 * ((x / 256) % 16) + 32 * ((x / 0x200_0000) % 64) + 2048 * ((x / 128) % 2)) + 4096 * ((x / 0x8000_0000) % 2) })
            by (bit_vector)
            requires
                bits_4_1 == (x >> 8) & 0b1111,
                bits_10_5 == (x >> 25) & 0b11_1111,
                bits_11 == (x >> 7) & 0b1,
                bits_12 == (x >> 31) & 0b1,
                u == (bits_12 << 12) | (bits_11 << 11) | (bits_10_5 << 5) | (bits_4_1 << 1),
                v == (if (u >> 11u32) & 1 == 1 { u | (!0u32 << 12u32) } else { u }),
        ;
    }
    v as Immediate
}

fn immediate_u(instruction: u32) -> (r: Immediate)
    ensures
        r as int == imm_u(instruction),
        r == imm_u(instruction) as i32,
{
    proof {
        vstd::arithmetic::power2::lemma2_to64();
        let x = instruction;
        assert(((x & 0b1111_1111_1111_1111_1111_0000_0000_0000) as i32) as int
            == 4096 * ((x / 4096) % 0x10_0000) - 0x1_0000_0000 * ((x / 0x8000_0000) % 2))
            by (bit_vector);
    }
    (instruction & 0b1111_1111_1111_1111_1111_0000_0000_0000) as Immediate
}

fn immediate_j(instruction: u32) -> (r: Immediate)
    ensures
        r as int == imm_j(instruction),
        r == imm_j(instruction) as i32,
{
    let bits_10_1 = (instruction >> 21) & 0b11_1111_1111;
    let bits_11 = (instruction >> 20) & 0b1;
    let bits_19_12 = (instruction >> 12) & 0b1111_1111;
    let bits_20 = (instruction >> 31) & 0b1;
    let v = sign_extend(
        (bits_20 << 20) | (bits_19_12 << 12) | (bits_11 << 11) | (bits_10_1 << 1),
        20,
    );
    proof {
        vstd::arithmetic::power2::lemma2_to64();
        let x = instruction;
        let u = (bits_20 << 20) | (bits_19_12 << 12) | (bits_11 << 11) | (bits_10_1 << 1);
        assert((v as i32) as int == if (x / 0x8_0000) % 2 == 1 { (2 * ((x / 0x20_0000) % 1024) + 2048 * ((x / 0x10_0000) % 2) + 4096 * ((x / 4096) % 256)) - 0x10_0000 } else { (2 * ((x / 0x20_0000) % 1024) + 2048 * ((x / 0x10_0000) % 2) + 4096 * ((x / 4096) % 256)) + 0x10_0000 * ((x / 0x8000_0000) % 2) })
            by (bit_vector)
            requires
                bits_10_1 == (x >> 21) & 0b11_1111_1111,
                bits_11 == (x >> 20) & 0b1,
                bits_19_12 == (x >> 12) & 0b1111_1111,
                bits_20 == (x >> 31) & 0b1,
                u == (bits_20 << 20) | (bits_19_12 << 12) | (bits_11 << 11) | (bits_10_1 << 1),
                v == (if (u >> 19u32) & 1 == 1 { u | (!0u32 << 20u32) } else { u }),
        ;
    }
    v as Immediate
}

fn rs1(instruction: u32) -> (r: RS1index)
    ensures
        r == rs1_of(instruction),
{
    proof { lemma_fields(instruction); }
    ((instruction >> 15) & 0b1_1111) as RS1index
}

fn rs2(instruction: u32) -> (r: RS2index)
    ensures
        r == rs2_of(instruction),
{
    proof { lemma_fields(instruction); }
    ((instruction >> 20) & 0b1_1111) as RS2index
}

fn rd(instruction: u32) -> (r: RDindex)
    ensures
        r == rd_of(instruction),
{
    proof { lemma_fields(instruction); }
    ((instruction >> 7) & 0b1_1111) as RDindex
}

fn funct3(instruction: u32) -> (r: Funct3)
    ensures
        r == funct3_of(instruction),
        r < 8,
{
    proof {
        lemma_fields(instruction);
        assert((instruction >> 12) & 0x7 < 8) by (bit_vector);
    }
    ((instruction >> 12) & 0b111) as Funct3
}

fn funct5(instruction: u32) -> (r: Funct3)
    ensures
        r == funct5_of(instruction),
{
    proof { lemma_fields(instruction); }
    ((instruction >> 27) & 0b1_1111) as Funct5
}

fn funct7(instruction: u32) -> (r: Funct7)
    ensures
        r == funct7_of(instruction),
{
    proof { lemma_fields(instruction); }
    ((instruction >> 25) & 0b111_1111) as Funct7
}

#[derive(Debug, Clone, Copy, PartialEq, Eq, Structural)]
pub enum OpCode {
    LOAD,
    LOADFP,
    CUSTOM0,
    MISCMEM,
    OPIMM,
    AUIPC,
    OPIMM32,
    LEN48,
    STORE,
    STOREFP,
    CUSTOM1,
    AMO,
    OP,
    LUI,
    OP32,
    LEN64,
    MADD,
    MSUB,
    NMSUB,
    NMADD,
    OPFP,
    RESERVED1,
    CUSTOM2,
    LEN482,
    BRANCH,
    JALR,
    RESERVED2,
    JAL,
    SYSTEM,
    RESERVED3,
    CUSTOM3,
    LEN80,
}

/// The major opcode named by bits 6..2 of an instruction word.
pub open spec fn opcode_of(x: u32) -> OpCode {
    let f = field(x, 2, 5);
    if f == 0 {
        OpCode::LOAD
    } else if f == 1 {
        OpCode::LOADFP
    } else if f == 2 {
        OpCode::CUSTOM0
    } else if f == 3 {
        OpCode::MISCMEM
    } else if f == 4 {
        OpCode::OPIMM
    } else if f == 5 {
        OpCode::AUIPC
    } else if f == 6 {
        OpCode::OPIMM32
    } else if f == 7 {
        OpCode::LEN48
    } else if f == 8 {
        OpCode::STORE
    } else if f == 9 {
        OpCode::STOREFP
    } else if f == 10 {
        OpCode::CUSTOM1
    } else if f == 11 {
        OpCode::AMO
    } else if f == 12 {
        OpCode::OP
    } else if f == 13 {
        OpCode::LUI
    } else if f == 14 {
        OpCode::OP32
    } else if f == 15 {
        OpCode::LEN64
    } else if f == 16 {
        OpCode::MADD
    } else if f == 17 {
        OpCode::MSUB
    } else if f == 18 {
        OpCode::NMSUB
    } else if f == 19 {
        OpCode::NMADD
    } else if f == 20 {
        OpCode::OPFP
    } else if f == 21 {
        OpCode::RESERVED1
    } else if f == 22 {
        OpCode::CUSTOM2
    } else if f == 23 {
        OpCode::LEN482
    } else if f == 24 {
        OpCode::BRANCH
    } else if f == 25 {
        OpCode::JALR
    } else if f == 26 {
        OpCode::RESERVED2
    } else if f == 27 {
        OpCode::JAL
    } else if f == 28 {
        OpCode::SYSTEM
    } else if f == 29 {
        OpCode::RESERVED3
    } else if f == 30 {
        OpCode::CUSTOM3
    } else {
        OpCode::LEN80
    }
}

fn get_opcode(instruction: u32) -> (r: Result<OpCode, &'static str>)
    ensures
        r == Ok::<OpCode, &'static str>(opcode_of(instruction)),
{
    proof {
        lemma_fields(instruction);
        vstd::arithmetic::power2::lemma2_to64();
        assert(field(instruction, 5, 2) < 4 && field(instruction, 2, 3) < 8);
    }
    let op_upper_bits = (instruction >> 5) & 0b11;
    let op_lower_bits = (instruction >> 2) & 0b111;
    match op_upper_bits {
        0b00 => match op_lower_bits {
            0b000 => Ok(OpCode::LOAD),
            0b001 => Ok(OpCode::LOADFP),
            0b010 => Ok(OpCode::CUSTOM0),
            0b011 => Ok(OpCode::MISCMEM),
            0b100 => Ok(OpCode::OPIMM),
            0b101 => Ok(OpCode::AUIPC),
            0b110 => Ok(OpCode::OPIMM32),
            0b111 => Ok(OpCode::LEN48),
            _ => Ok(OpCode::LEN80),
        },
        0b01 => match op_lower_bits {
            0b000 => Ok(OpCode::STORE),
            0b001 => Ok(OpCode::STOREFP),
            0b010 => Ok(OpCode::CUSTOM1),
            0b011 => Ok(OpCode::AMO),
            0b100 => Ok(OpCode::OP),
            0b101 => Ok(OpCode::LUI),
            0b110 => Ok(OpCode::OP32),
            0b111 => Ok(OpCode::LEN64),
            _ => Ok(OpCode::LEN80),
        },
        0b10 => match op_lower_bits {
            0b000 => Ok(OpCode::MADD),
            0b001 => Ok(OpCode::MSUB),
            0b010 => Ok(OpCode::NMSUB),
            0b011 => Ok(OpCode::NMADD),
            0b100 => Ok(OpCode::OPFP),
            0b101 => Ok(OpCode::RESERVED1),
            0b110 => Ok(OpCode::CUSTOM2),
            0b111 => Ok(OpCode::LEN482),
            _ => Ok(OpCode::LEN80),
        },
        0b11 => match op_lower_bits {
            0b000 => Ok(OpCode::BRANCH),
            0b001 => Ok(OpCode::JALR),
            0b010 => Ok(OpCode::RESERVED2),
            0b011 => Ok(OpCode::JAL),
            0b100 => Ok(OpCode::SYSTEM),
            0b101 => Ok(OpCode::RESERVED3),
            0b110 => Ok(OpCode::CUSTOM3),
            0b111 => Ok(OpCode::LEN80),
            _ => Ok(OpCode::LEN80),
        },
        _ => Ok(OpCode::LEN80),
    }
}

/// The instruction that a 32-bit instruction word stands for, or why it stands for none.
pub open spec fn decode_spec(x: u32) -> Result<Instruction, &'static str> {
    let rd = rd_of(x);
    let rs1 = rs1_of(x);
    let rs2 = rs2_of(x);
    let f3 = funct3_of(x);
    let i = imm_i(x) as i32;
    match opcode_of(x) {
        OpCode::LOAD => {
            if f3 == 0 {
                Ok(Instruction::LB(rd, rs1, i))
            } else if f3 == 1 {
                Ok(Instruction::LH(rd, rs1, i))
            } else if f3 == 2 {
                Ok(Instruction::LW(rd, rs1, i))
            } else if f3 == 4 {
                Ok(Instruction::LBU(rd, rs1, i))
            } else if f3 == 5 {
                Ok(Instruction::LHU(rd, rs1, i))
            } else {
                Err("Invalid funct3 I-Type")
            }
        },
        OpCode::LOADFP => Err("Not implemented: LOADFP"),
        OpCode::CUSTOM0 => Err("Not implemented: CUSTOM0"),
        OpCode::MISCMEM => Ok(Instruction::FENCE(rd, rs1, i)),
        OpCode::OPIMM => {
            if f3 == 0 {
                Ok(Instruction::ADDI(rd, rs1, i))
            } else if f3 == 2 {
                Ok(Instruction::SLTI(rd, rs1, i))
            } else if f3 == 3 {
                Ok(Instruction::SLTIU(rd, rs1, i))
            } else if f3 == 4 {
                Ok(Instruction::XORI(rd, rs1, i))
            } else if f3 == 6 {
                Ok(Instruction::ORI(rd, rs1, i))
            } else if f3 == 7 {
                Ok(Instruction::ANDI(rd, rs1, i))
            } else if f3 == 1 {
                Ok(Instruction::SLLI(rd, rs1, i))
            } else if field(x, 30, 1) == 0 {
                Ok(Instruction::SRLI(rd, rs1, i))
            } else {
                Ok(Instruction::SRAI(rd, rs1, i))
            }
        },
        OpCode::AUIPC => Ok(Instruction::AUIPC(rd, imm_u(x) as i32)),
        OpCode::OPIMM32 => Err("Not implemented: OPIMM32"),
        OpCode::LEN48 => Err("Not implemented: LEN48"),
        OpCode::STORE => {
            let s = imm_s(x) as i32;
            if f3 == 0 {
                Ok(Instruction::SB(rs1, rs2, s))
            } else if f3 == 1 {
                Ok(Instruction::SH(rs1, rs2, s))
            } else if f3 == 2 {
                Ok(Instruction::SW(rs1, rs2, s))
            } else {
                Err("Invalid funct3 S-Type")
            }
        },
        OpCode::STOREFP => Err("Not implemented: STOREFP"),
        OpCode::CUSTOM1 => Err("Not implemented: CUSTOM1"),
        OpCode::AMO => {
            let f5 = funct5_of(x);
            if f5 == 0b00010 {
                Ok(Instruction::LRW(rd, rs1))
            } else if f5 == 0b00011 {
                Ok(Instruction::SCW(rd, rs1, rs2))
            } else if f5 == 0b00001 {
                Ok(Instruction::AMOSWAPW(rd, rs1, rs2))
            } else if f5 == 0b00000 {
                Ok(Instruction::AMOADDW(rd, rs1, rs2))
            } else if f5 == 0b00100 {
                Ok(Instruction::AMOXORW(rd, rs1, rs2))
            } else if f5 == 0b01100 {
                Ok(Instruction::AMOANDW(rd, rs1, rs2))
            } else if f5 == 0b01000 {
                Ok(Instruction::AMOORW(rd, rs1, rs2))
            } else if f5 == 0b10000 {
                Ok(Instruction::AMOMINW(rd, rs1, rs2))
            } else if f5 == 0b10100 {
                Ok(Instruction::AMOMAXW(rd, rs1, rs2))
            } else if f5 == 0b11000 {
                Ok(Instruction::AMOMINUW(rd, rs1, rs2))
            } else if f5 == 0b11100 {
                Ok(Instruction::AMOMAXUW(rd, rs1, rs2))
            } else {
                Err("Invalid funct5 AMO-Type")
            }
        },
        OpCode::OP => {
            let m = funct7_of(x) % 2 == 1;
            let base = funct7_of(x) == 0;
            if f3 == 0 {
                if m {
                    Ok(Instruction::MUL(rd, rs1, rs2))
                } else if base {
                    Ok(Instruction::ADD(rd, rs1, rs2))
                } else {
                    Ok(Instruction::SUB(rd, rs1, rs2))
                }
            } else if f3 == 1 {
                if m { Ok(Instruction::MULH(rd, rs1, rs2)) } else { Ok(Instruction::SLL(rd, rs1, rs2)) }
            } else if f3 == 2 {
                if m { Ok(Instruction::MULHSU(rd, rs1, rs2)) } else { Ok(Instruction::SLT(rd, rs1, rs2)) }
            } else if f3 == 3 {
                if m { Ok(Instruction::MULHU(rd, rs1, rs2)) } else { Ok(Instruction::SLTU(rd, rs1, rs2)) }
            } else if f3 == 4 {
                if m { Ok(Instruction::DIV(rd, rs1, rs2)) } else { Ok(Instruction::XOR(rd, rs1, rs2)) }
            } else if f3 == 5 {
                if m {
                    Ok(Instruction::DIVU(rd, rs1, rs2))
                } else if base {
                    Ok(Instruction::SRL(rd, rs1, rs2))
                } else {
                    Ok(Instruction::SRA(rd, rs1, rs2))
                }
            } else if f3 == 6 {
                if m { Ok(Instruction::REM(rd, rs1, rs2)) } else { Ok(Instruction::OR(rd, rs1, rs2)) }
            } else {
                if m { Ok(Instruction::REMU(rd, rs1, rs2)) } else { Ok(Instruction::AND(rd, rs1, rs2)) }
            }
        },
        OpCode::LUI => Ok(Instruction::LUI(rd, imm_u(x) as i32)),
        OpCode::OP32 => Err("Not implemented: OP32"),
        OpCode::LEN64 => Err("Not implemented: LEN64"),
        OpCode::MADD => Err("Not implemented: MADD"),
        OpCode::MSUB => Err("Not implemented: MSUB"),
        OpCode::NMSUB => Err("Not implemented: NMSUB"),
        OpCode::NMADD => Err("Not implemented: NMADD"),
        OpCode::OPFP => Err("Not implemented: OPFP"),
        OpCode::RESERVED1 => Err("Not implemented: RESERVED1"),
        OpCode::CUSTOM2 => Err("Not implemented: CUSTOM2"),
        OpCode::LEN482 => Err("Not implemented: LEN482"),
        OpCode::BRANCH => {
            let b = imm_b(x) as i32;
            if f3 == 0 {
                Ok(Instruction::BEQ(rs1, rs2, b))
            } else if f3 == 1 {
                Ok(Instruction::BNE(rs1, rs2, b))
            } else if f3 == 4 {
                Ok(Instruction::BLT(rs1, rs2, b))
            } else if f3 == 5 {
                Ok(Instruction::BGE(rs1, rs2, b))
            } else if f3 == 6 {
                Ok(Instruction::BLTU(rs1, rs2, b))
            } else if f3 == 7 {
                Ok(Instruction::BGEU(rs1, rs2, b))
            } else {
                Err("Invalid funct3 B-Type")
            }
        },
        OpCode::JALR => Ok(Instruction::JALR(rd, rs1, i)),
        OpCode::RESERVED2 => Err("Not implemented: RESERVED2"),
        OpCode::JAL => Ok(Instruction::JAL(rd, imm_j(x) as i32)),
        OpCode::SYSTEM => {
            let sys = imm_system(x) as u32;
            if f3 == 0 {
                if sys == 0 {
                    Ok(Instruction::ECALL())
                } else if sys == 1 {
                    Ok(Instruction::EBREAK())
                } else if sys == 0b0011_0000_0010 {
                    Ok(Instruction::MRET())
                } else if sys == 0b0001_0000_0101 {
                    Ok(Instruction::WFI())
                } else {
                    Err("Invalid SYSTEM instruction immediate")
                }
            } else if f3 == 1 {
                Ok(Instruction::CSRRW(rd, rs1, sys))
            } else if f3 == 2 {
                Ok(Instruction::CSRRS(rd, rs1, sys))
            } else if f3 == 3 {
                Ok(Instruction::CSRRC(rd, rs1, sys))
            } else if f3 == 5 {
                Ok(Instruction::CSRRWI(rd, rs1, sys))
            } else if f3 == 6 {
                Ok(Instruction::CSRRSI(rd, rs1, sys))
            } else if f3 == 7 {
                Ok(Instruction::CSRRCI(rd, rs1, sys))
            } else {
                Err("Invalid funct3 I-Type")
            }
        },
        OpCode::RESERVED3 => Err("Not implemented: RESERVED3"),
        OpCode::CUSTOM3 => Err("Not implemented: CUSTOM3"),
        OpCode::LEN80 => Err("Not implemented: LEN80"),
    }
}

#[allow(clippy::too_many_lines)]
/// Decodes a 32-bit instruction word.
pub fn decode(instruction: u32) -> (r: Result<Instruction, &'static str>)
    ensures
        r == decode_spec(instruction),
{
    proof {
        lemma_srli_bit(instruction);
        assert(forall|f: u32| #[trigger] (f & 1) == f % 2) by (bit_vector);
    }
    let op = get_opcode(instruction)?;

    match op {
        OpCode::LOAD => {
            /* All LOAD are I-Type instructions */
            let rd_index: RDindex = rd(instruction);
            let rs1: RS1index = rs1(instruction);
            let i_imm: Immediate = immediate_i(instruction);
            match funct3(instruction) {
                0b000 => Ok(Instruction::LB(rd_index, rs1, i_imm)),
                0b001 => Ok(Instruction::LH(rd_index, rs1, i_imm)),
                0b010 => Ok(Instruction::LW(rd_index, rs1, i_imm)),
                0b100 => Ok(Instruction::LBU(rd_index, rs1, i_imm)),
                0b101 => Ok(Instruction::LHU(rd_index, rs1, i_imm)),
                _ => Err("Invalid funct3 I-Type"),
            }
        }
        OpCode::LOADFP => Err("Not implemented: LOADFP"),
        OpCode::CUSTOM0 => Err("Not implemented: CUSTOM0"),
        OpCode::MISCMEM => {
            let rd_index: RDindex = rd(instruction);
            let rs1: RS1index = rs1(instruction);
            let i_imm: Immediate = immediate_i(instruction);
            Ok(Instruction::FENCE(rd_index, rs1, i_imm))
        }
        OpCode::OPIMM => {
            /* All OPIMM are I-Type instructions */
            let rd_index: RDindex = rd(instruction);
            let rs1: RS1index = rs1(instruction);
            let i_imm: Immediate = immediate_i(instruction);
            match funct3(instruction) {
                0b000 => Ok(Instruction::ADDI(rd_index, rs1, i_imm)),
                0b010 => Ok(Instruction::SLTI(rd_index, rs1, i_imm)),
                0b011 => Ok(Instruction::SLTIU(rd_index, rs1, i_imm)),
                0b100 => Ok(Instruction::XORI(rd_index, rs1, i_imm)),
                0b110 => Ok(Instruction::ORI(rd_index, rs1, i_imm)),
                0b111 => Ok(Instruction::ANDI(rd_index, rs1, i_imm)),
                0b001 => Ok(Instruction::SLLI(rd_index, rs1, i_imm)),
                0b101 => {
                    if (i_imm & 0b0100_0000_0000) == 0 {
                        Ok(Instruction::SRLI(rd_index, rs1, i_imm))
                    } else {
                        Ok(Instruction::SRAI(rd_index, rs1, i_imm))
                    }
                }
                _ => Ok(Instruction::SRAI(rd_index, rs1, i_imm)),
            }
        }
        OpCode::AUIPC => {
            /* U Type */
            let rd_index: RDindex = rd(instruction);
            let u_imm: Immediate = immediate_u(instruction);
            Ok(Instruction::AUIPC(rd_index, u_imm))
        }
        OpCode::OPIMM32 => Err("Not implemented: OPIMM32"),
        OpCode::LEN48 => Err("Not implemented: LEN48"),
        OpCode::STORE => {
            /* STOREs are S-Type */
            let rs1: RS1index = rs1(instruction);
            let rs2: RS2index = rs2(instruction);
            let s_imm: Immediate = immediate_s(instruction);
            match funct3(instruction) {
                0b000 => Ok(Instruction::SB(rs1, rs2, s_imm)),
                0b001 => Ok(Instruction::SH(rs1, rs2, s_imm)),
                0b010 => Ok(Instruction::SW(rs1, rs2, s_imm)),
                _ => Err("Invalid funct3 S-Type"),
            }
        }
        OpCode::STOREFP => Err("Not implemented: STOREFP"),
        OpCode::CUSTOM1 => Err("Not implemented: CUSTOM1"),
        OpCode::AMO => {
            let rd: RDindex = rd(instruction);
            let rs1: RS1index = rs1(instruction);
            let rs2: RS2index = rs2(instruction);
            match funct5(instruction) {
                0b00010 => Ok(Instruction::LRW(rd, rs1)),
                0b00011 => Ok(Instruction::SCW(rd, rs1, rs2)),
                0b00001 => Ok(Instruction::AMOSWAPW(rd, rs1, rs2)),
                0b00000 => Ok(Instruction::AMOADDW(rd, rs1, rs2)),
                0b00100 => Ok(Instruction::AMOXORW(rd, rs1, rs2)),
                0b01100 => Ok(Instruction::AMOANDW(rd, rs1, rs2)),
                0b01000 => Ok(Instruction::AMOORW(rd, rs1, rs2)),
                0b10000 => Ok(Instruction::AMOMINW(rd, rs1, rs2)),
                0b10100 => Ok(Instruction::AMOMAXW(rd, rs1, rs2)),
                0b11000 => Ok(Instruction::AMOMINUW(rd, rs1, rs2)),
                0b11100 => Ok(Instruction::AMOMAXUW(rd, rs1, rs2)),
                _ => Err("Invalid funct5 AMO-Type"),
            }
        }
        OpCode::OP => {
            /* All OP are R-Type instructions */
            let rd_index: RDindex = rd(instruction);
            let rs1: RS1index = rs1(instruction);
            let rs2: RS2index = rs2(instruction);

            let is_m_extension = funct7(instruction) & 0b1 == 1;
            match funct3(instruction) {
                0b000 => {
                    if is_m_extension {
                        return Ok(Instruction::MUL(rd_index, rs1, rs2));
                    }
                    if funct7(instruction) == 0 {
                        Ok(Instruction::ADD(rd_index, rs1, rs2))
                    } else {
                        Ok(Instruction::SUB(rd_index, rs1, rs2))
                    }
                }
                0b001 => {
                    if is_m_extension {
                        return Ok(Instruction::MULH(rd_index, rs1, rs2));
                    }
                    Ok(Instruction::SLL(rd_index, rs1, rs2))
                }
                0b010 => {
                    if is_m_extension {
                        return Ok(Instruction::MULHSU(rd_index, rs1, rs2));
                    }
                    Ok(Instruction::SLT(rd_index, rs1, rs2))
                }
                0b011 => {
                    if is_m_extension {
                        return Ok(Instruction::MULHU(rd_index, rs1, rs2));
                    }
                    Ok(Instruction::SLTU(rd_index, rs1, rs2))
                }
                0b100 => {
                    if is_m_extension {
                        return Ok(Instruction::DIV(rd_index, rs1, rs2));
                    }
                    Ok(Instruction::XOR(rd_index, rs1, rs2))
                }
                0b101 => {
                    if is_m_extension {
                        return Ok(Instruction::DIVU(rd_index, rs1, rs2));
                    }
                    if funct7(instruction) == 0 {
                        Ok(Instruction::SRL(rd_index, rs1, rs2))
                    } else {
                        Ok(Instruction::SRA(rd_index, rs1, rs2))
                    }
                }
                0b110 => {
                    if is_m_extension {
                        return Ok(Instruction::REM(rd_index, rs1, rs2));
                    }
                    Ok(Instruction::OR(rd_index, rs1, rs2))
                }
                0b111 => {
                    if is_m_extension {
                        return Ok(Instruction::REMU(rd_index, rs1, rs2));
                    }
                    Ok(Instruction::AND(rd_index, rs1, rs2))
                }
                _ => Ok(Instruction::AND(rd_index, rs1, rs2)),
            }
        }
        OpCode::LUI => {
            /* U Type */
            let rd_index: RDindex = rd(instruction);
            let u_imm: Immediate = immediate_u(instruction);
            Ok(Instruction::LUI(rd_index, u_imm))
        }
        OpCode::OP32 => Err("Not implemented: OP32"),
        OpCode::LEN64 => Err("Not implemented: LEN64"),
        OpCode::MADD => Err("Not implemented: MADD"),
        OpCode::MSUB => Err("Not implemented: MSUB"),
        OpCode::NMSUB => Err("Not implemented: NMSUB"),
        OpCode::NMADD => Err("Not implemented: NMADD"),
        OpCode::OPFP => Err("Not implemented: OPFP"),
        OpCode::RESERVED1 => Err("Not implemented: RESERVED1"),
        OpCode::CUSTOM2 => Err("Not implemented: CUSTOM2"),
        OpCode::LEN482 => Err("Not implemented: LEN482"),
        OpCode::BRANCH => {
            /* B-Type instructions */
            let rs1: RS1index = rs1(instruction);
            let rs2: RS2index = rs2(instruction);
            let b_imm: Immediate = immediate_b(instruction);
            match funct3(instruction) {
                0b000 => Ok(Instruction::BEQ(rs1, rs2, b_imm)),
                0b001 => Ok(Instruction::BNE(rs1, rs2, b_imm)),
                0b100 => Ok(Instruction::BLT(rs1, rs2, b_imm)),
                0b101 => Ok(Instruction::BGE(rs1, rs2, b_imm)),
                0b110 => Ok(Instruction::BLTU(rs1, rs2, b_imm)),
                0b111 => Ok(Instruction::BGEU(rs1, rs2, b_imm)),
                _ => Err("Invalid funct3 B-Type"),
            }
        }
        OpCode::JALR => {
            /* I-Type instruction */
            let rd_index: RDindex = rd(instruction);
            let rs1: RS1index = rs1(instruction);
            let i_imm: Immediate = immediate_i(instruction);
            Ok(Instruction::JALR(rd_index, rs1, i_imm))
        }
        OpCode::RESERVED2 => Err("Not implemented: RESERVED2"),
        OpCode::JAL => {
            let rd_index: RDindex = rd(instruction);
            let j_imm: Immediate = immediate_j(instruction);
            Ok(Instruction::JAL(rd_index, j_imm))
        }
        OpCode::SYSTEM => {
            /* I-Type instruction */
            let rd_index: RDindex = rd(instruction);
            let rs1: RS1index = rs1(instruction);
            let sys_imm: u32 = immediate_system(instruction);
            match funct3(instruction) {
                0b000 => match sys_imm {
                    0b0000_0000_0000 => Ok(Instruction::ECALL()),
                    0b0000_0000_0001 => Ok(Instruction::EBREAK()),
                    0b0011_0000_0010 => Ok(Instruction::MRET()),
                    0b0001_0000_0101 => Ok(Instruction::WFI()),
                    _ => Err("Invalid SYSTEM instruction immediate"),
                },
                0b001 => Ok(Instruction::CSRRW(rd_index, rs1, sys_imm)),
                0b010 => Ok(Instruction::CSRRS(rd_index, rs1, sys_imm)),
                0b011 => Ok(Instruction::CSRRC(rd_index, rs1, sys_imm)),
                0b101 => {
                    /* This instruction repurposes rs1 as immediate */
                    Ok(Instruction::CSRRWI(rd_index, rs1, sys_imm))
                }
                0b110 => {
                    /* This instruction repurposes rs1 as immediate */
                    Ok(Instruction::CSRRSI(rd_index, rs1, sys_imm))
                }
                0b111 => {
                    /* This instruction repurposes rs1 as immediate */
                    Ok(Instruction::CSRRCI(rd_index, rs1, sys_imm))
                }
                _ => Err("Invalid funct3 I-Type"),
            }
        }
        OpCode::RESERVED3 => Err("Not implemented: RESERVED3"),
        OpCode::CUSTOM3 => Err("Not implemented: CUSTOM3"),
        OpCode::LEN80 => Err("Not implemented: LEN80"),
    }
}


proof fn lemma_srli_bit(x: u32)
    ensures
        ((imm_i(x) as i32) & 0b0100_0000_0000 == 0) == (field(x, 30, 1) == 0),
{
    vstd::arithmetic::power2::lemma2_to64();
    assert((((x / 0x10_0000) % 4096 - 4096 * ((x / 0x8000_0000) % 2)) as i32) & 0b0100_0000_0000 == 0
        <==> (x / 0x4000_0000) % 2 == 0) by (bit_vector);
}

/// The major opcode is read from bits 6..2 alone (`get_opcode` gives it for
/// every word).
pub proof fn law_opcode_bits(x: u32)
    ensures
        opcode_of(x) == opcode_of(x & 0b111_1100),
{
    vstd::arithmetic::power2::lemma2_to64();
    let y = x & 0b111_1100;
    assert((x / 4) % 32 == (y / 4) % 32) by (bit_vector)
        requires y == x & 0b111_1100;
    assert(field(x, 2, 5) == field(y, 2, 5));
}

} // verus!
