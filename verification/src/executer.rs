//! Execution of one instruction: what it does to the register file and to memory.
use vstd::prelude::*;
use crate::instructions::{decompress, expansion, regs_in_range, Instruction};
use crate::memory::{byte_of, halfword_of, word_of, Memory};
use crate::periph::MmapPeripheral;
use crate::register::{Register, RegisterView, CSR_COUNT};
use crate::utils::{sign_extend, sign_extended};

verus! {

/// Machine exception program counter, the return address of `MRET`.
pub const MEPC: usize = 0x341;

/// `i` reduced modulo 2^32.
pub open spec fn wrap(i: int) -> u32 {
    (i % 0x1_0000_0000) as u32
}

/// `x` read as a two's complement number.
pub open spec fn signed(x: u32) -> int {
    if x < 0x8000_0000 {
        x as int
    } else {
        x as int - 0x1_0000_0000
    }
}

/// Integer division rounding towards zero.
pub open spec fn tdiv(a: int, b: int) -> int {
    let q = abs(a) / abs(b);
    if (a < 0) != (b < 0) { -q } else { q }
}

/// The remainder of `tdiv`: it takes the sign of the dividend.
pub open spec fn trem(a: int, b: int) -> int {
    let r = abs(a) % abs(b);
    if a < 0 { -r } else { r }
}

pub open spec fn abs(a: int) -> int {
    if a < 0 { -a } else { a }
}

/// Bytes taken by an instruction: 2 for a compressed one, 4 otherwise.
pub open spec fn inst_len(inst: Instruction) -> int {
    if inst.spec_is_compressed() { 2 } else { 4 }
}

/// The instruction that is executed for `inst`: its expansion when it is compressed.
pub open spec fn base_inst(inst: Instruction) -> Instruction {
    if inst.spec_is_compressed() { expansion(inst) } else { inst }
}

/// The register file with `rd` set to `v` (unless `rd` is `x0`) and the program
/// counter set to `pc`.
pub open spec fn with_rd(r: RegisterView, rd: usize, v: u32, pc: u32) -> RegisterView {
    RegisterView { x: if rd == 0 { r.x } else { r.x.update(rd as int, v) }, csr: r.csr, pc }
}

/// The value that an instruction computing on registers alone writes to its
/// destination register.
pub open spec fn alu_value(b: Instruction, x: Seq<u32>, pc: u32) -> u32 {
    match b {
        Instruction::LUI(_, imm) => wrap(imm as int),
        Instruction::AUIPC(_, imm) => wrap(pc + imm),
        Instruction::ADDI(_, rs1, imm) => wrap(x[rs1 as int] + imm),
        Instruction::SLTI(_, rs1, imm) => if signed(x[rs1 as int]) < imm { 1 } else { 0 },
        Instruction::SLTIU(_, rs1, imm) => if x[rs1 as int] < wrap(imm as int) { 1 } else { 0 },
        Instruction::XORI(_, rs1, imm) => x[rs1 as int] ^ wrap(imm as int),
        Instruction::ORI(_, rs1, imm) => x[rs1 as int] | wrap(imm as int),
        Instruction::ANDI(_, rs1, imm) => x[rs1 as int] & wrap(imm as int),
        Instruction::SLLI(_, rs1, imm) => x[rs1 as int] << (wrap(imm as int) % 32),
        Instruction::SRLI(_, rs1, imm) => x[rs1 as int] >> (wrap(imm as int) % 32),
        Instruction::SRAI(_, rs1, imm) => ((x[rs1 as int] as i32) >> (wrap(imm as int) % 32)) as u32,
        Instruction::ADD(_, rs1, rs2) => wrap(x[rs1 as int] + x[rs2 as int]),
        Instruction::SUB(_, rs1, rs2) => wrap(x[rs1 as int] - x[rs2 as int]),
        Instruction::SLL(_, rs1, rs2) => x[rs1 as int] << (x[rs2 as int] % 32),
        Instruction::SLT(_, rs1, rs2) => if signed(x[rs1 as int]) < signed(x[rs2 as int]) { 1 } else { 0 },
        Instruction::SLTU(_, rs1, rs2) => if x[rs1 as int] < x[rs2 as int] { 1 } else { 0 },
        Instruction::XOR(_, rs1, rs2) => x[rs1 as int] ^ x[rs2 as int],
        Instruction::SRL(_, rs1, rs2) => x[rs1 as int] >> (x[rs2 as int] % 32),
        Instruction::SRA(_, rs1, rs2) => ((x[rs1 as int] as i32) >> (x[rs2 as int] % 32)) as u32,
        Instruction::OR(_, rs1, rs2) => x[rs1 as int] | x[rs2 as int],
        Instruction::AND(_, rs1, rs2) => x[rs1 as int] & x[rs2 as int],
        Instruction::MUL(_, rs1, rs2) => wrap(x[rs1 as int] * x[rs2 as int]),
        Instruction::MULH(_, rs1, rs2) => wrap((signed(x[rs1 as int]) * signed(x[rs2 as int])) / 0x1_0000_0000),
        Instruction::MULHSU(_, rs1, rs2) => wrap((signed(x[rs1 as int]) * x[rs2 as int]) / 0x1_0000_0000),
        Instruction::MULHU(_, rs1, rs2) => wrap((x[rs1 as int] * x[rs2 as int]) / 0x1_0000_0000),
        Instruction::DIV(_, rs1, rs2) => {
            let a = x[rs1 as int];
            let d = x[rs2 as int];
            if d == 0 { 0xFFFF_FFFF } else { wrap(tdiv(signed(a), signed(d))) }
        },
        Instruction::DIVU(_, rs1, rs2) => {
            let d = x[rs2 as int];
            if d == 0 { 0xFFFF_FFFF } else { x[rs1 as int] / d }
        },
        Instruction::REM(_, rs1, rs2) => {
            let a = x[rs1 as int];
            let d = x[rs2 as int];
            if d == 0 { a } else { wrap(trem(signed(a), signed(d))) }
        },
        Instruction::REMU(_, rs1, rs2) => {
            let d = x[rs2 as int];
            if d == 0 { x[rs1 as int] } else { x[rs1 as int] % d }
        },
        _ => 0,
    }
}

/// The instructions that compute on registers alone and write their destination.
pub open spec fn is_alu(b: Instruction) -> bool {
    match b {
        Instruction::LUI(..) | Instruction::AUIPC(..) | Instruction::ADDI(..) | Instruction::SLTI(..)
        | Instruction::SLTIU(..) | Instruction::XORI(..) | Instruction::ORI(..) | Instruction::ANDI(..)
        | Instruction::SLLI(..) | Instruction::SRLI(..) | Instruction::SRAI(..) | Instruction::ADD(..)
        | Instruction::SUB(..) | Instruction::SLL(..) | Instruction::SLT(..) | Instruction::SLTU(..)
        | Instruction::XOR(..) | Instruction::SRL(..) | Instruction::SRA(..) | Instruction::OR(..)
        | Instruction::AND(..) | Instruction::MUL(..) | Instruction::MULH(..) | Instruction::MULHSU(..)
        | Instruction::MULHU(..) | Instruction::DIV(..) | Instruction::DIVU(..) | Instruction::REM(..)
        | Instruction::REMU(..) => true,
        _ => false,
    }
}

/// The destination register of an instruction, `0` where it has none.
pub open spec fn dest(b: Instruction) -> usize {
    match b {
        Instruction::LUI(rd, _) | Instruction::AUIPC(rd, _) | Instruction::JAL(rd, _)
        | Instruction::CADDI4SPN(rd, _) | Instruction::CNOP(rd, _) | Instruction::CADDI(rd, _)
        | Instruction::CLI(rd, _) | Instruction::CADDI16SP(rd, _) | Instruction::CLUI(rd, _)
        | Instruction::CSRLI(rd, _) | Instruction::CSRAI(rd, _) | Instruction::CANDI(rd, _)
        | Instruction::CSLLI(rd, _) | Instruction::CFLDSP(rd, _) | Instruction::CLWSP(rd, _)
        | Instruction::CFLWSP(rd, _) | Instruction::CSUB(rd, _) | Instruction::CXOR(rd, _)
        | Instruction::COR(rd, _) | Instruction::CAND(rd, _) | Instruction::CMV(rd, _)
        | Instruction::CADD(rd, _) | Instruction::LRW(rd, _) => rd,
        Instruction::JALR(rd, _, _) | Instruction::LB(rd, _, _) | Instruction::LH(rd, _, _)
        | Instruction::LW(rd, _, _) | Instruction::LBU(rd, _, _) | Instruction::LHU(rd, _, _)
        | Instruction::ADDI(rd, _, _) | Instruction::SLTI(rd, _, _) | Instruction::SLTIU(rd, _, _)
        | Instruction::XORI(rd, _, _) | Instruction::ORI(rd, _, _) | Instruction::ANDI(rd, _, _)
        | Instruction::SLLI(rd, _, _) | Instruction::SRLI(rd, _, _) | Instruction::SRAI(rd, _, _)
        | Instruction::ADD(rd, _, _) | Instruction::SUB(rd, _, _) | Instruction::SLL(rd, _, _)
        | Instruction::SLT(rd, _, _) | Instruction::SLTU(rd, _, _) | Instruction::XOR(rd, _, _)
        | Instruction::SRL(rd, _, _) | Instruction::SRA(rd, _, _) | Instruction::OR(rd, _, _)
        | Instruction::AND(rd, _, _) | Instruction::FENCE(rd, _, _) | Instruction::CSRRW(rd, _, _)
        | Instruction::CSRRS(rd, _, _) | Instruction::CSRRC(rd, _, _) | Instruction::CSRRWI(rd, _, _)
        | Instruction::CSRRSI(rd, _, _) | Instruction::CSRRCI(rd, _, _) | Instruction::MUL(rd, _, _)
        | Instruction::MULH(rd, _, _) | Instruction::MULHSU(rd, _, _) | Instruction::MULHU(rd, _, _)
        | Instruction::DIV(rd, _, _) | Instruction::DIVU(rd, _, _) | Instruction::REM(rd, _, _)
        | Instruction::REMU(rd, _, _) | Instruction::SCW(rd, _, _) | Instruction::AMOSWAPW(rd, _, _)
        | Instruction::AMOADDW(rd, _, _) | Instruction::AMOXORW(rd, _, _) | Instruction::AMOANDW(rd, _, _)
        | Instruction::AMOORW(rd, _, _) | Instruction::AMOMINW(rd, _, _) | Instruction::AMOMAXW(rd, _, _)
        | Instruction::AMOMINUW(rd, _, _) | Instruction::AMOMAXUW(rd, _, _)
        | Instruction::CFLD(rd, _, _) | Instruction::CLQ(rd, _, _) | Instruction::CLW(rd, _, _)
        | Instruction::CFLW(rd, _, _) | Instruction::CLD(rd, _, _) | Instruction::CFSD(rd, _, _)
        | Instruction::CSQ(rd, _, _) | Instruction::CSW(rd, _, _) | Instruction::CFSW(rd, _, _)
        | Instruction::CSD(rd, _, _) => rd,
        _ => 0,
    }
}

proof fn lemma_signed(a: u32)
    ensures
        (a as i32) as int == signed(a),
{
    assert((a as i32) as int == (if a < 0x8000_0000 { a as int } else { a as int - 0x1_0000_0000 }))
        by (bit_vector);
}

proof fn lemma_imm(i: i32)
    ensures
        i as u32 == wrap(i as int),
{
    assert((i as u32) as int == (if i >= 0 { i as int } else { i as int + 0x1_0000_0000 })) by (bit_vector);
}

/// The high word of the product of two integers in the range of 64-bit products,
/// by way of a non-negative offset: `floor(p / 2^32)` reduced modulo 2^32.
fn high_word(p: i128) -> (r: u32)
    requires
        -0x8000_0000_0000_0000 <= p < 0x8000_0000_0000_0000,
    ensures
        r == wrap(p as int / 0x1_0000_0000),
{
    let n: u128 = (p + 0x1_0000_0000_0000_0000i128) as u128;
    let q = n / 0x1_0000_0000;
    proof {
        let pi = p as int;
        assert((pi + 0x1_0000_0000_0000_0000) / 0x1_0000_0000 == pi / 0x1_0000_0000 + 0x1_0000_0000) by (nonlinear_arith);
        assert((pi / 0x1_0000_0000 + 0x1_0000_0000) % 0x1_0000_0000 == (pi / 0x1_0000_0000) % 0x1_0000_0000) by (nonlinear_arith);
    }
    (q % 0x1_0000_0000) as u32
}

/// Absolute value of a 32-bit two's complement number, as an unsigned number.
fn abs_u64(x: u32) -> (r: u64)
    ensures
        r as int == abs(signed(x)),
{
    proof { lemma_signed(x); }
    let v = x as i32 as i64;
    if v < 0 { (-v) as u64 } else { v as u64 }
}

/// The value that an instruction computing on registers alone writes to its
/// destination register.
fn alu(reg: &Register, b: &Instruction) -> (r: u32)
    requires
        is_alu(*b),
        regs_in_range(*b),
        reg.wf(),
    ensures
        r == alu_value(*b, reg@.x, reg@.pc),
{
    proof { reg.lemma_view_shape(); }
    match *b {
        Instruction::LUI(_, imm) => {
            proof { lemma_imm(imm); }
            imm as u32
        }
        Instruction::AUIPC(_, imm) => reg.pc().wrapping_add_signed(imm),
        Instruction::ADDI(_, rs1, imm) => reg.read(rs1).wrapping_add_signed(imm),
        Instruction::SLTI(_, rs1, imm) => {
            let a = reg.read(rs1);
            proof { lemma_signed(a); }
            if (a as i32) < imm { 1 } else { 0 }
        }
        Instruction::SLTIU(_, rs1, imm) => {
            proof { lemma_imm(imm); }
            if reg.read(rs1) < (imm as u32) { 1 } else { 0 }
        }
        Instruction::XORI(_, rs1, imm) => {
            proof { lemma_imm(imm); }
            reg.read(rs1) ^ (imm as u32)
        }
        Instruction::ORI(_, rs1, imm) => {
            proof { lemma_imm(imm); }
            reg.read(rs1) | (imm as u32)
        }
        Instruction::ANDI(_, rs1, imm) => {
            proof { lemma_imm(imm); }
            reg.read(rs1) & (imm as u32)
        }
        Instruction::SLLI(_, rs1, imm) => {
            proof { lemma_imm(imm); }
            reg.read(rs1) << ((imm as u32) % 32)
        }
        Instruction::SRLI(_, rs1, imm) => {
            proof { lemma_imm(imm); }
            reg.read(rs1) >> ((imm as u32) % 32)
        }
        Instruction::SRAI(_, rs1, imm) => {
            proof { lemma_imm(imm); }
            ((reg.read(rs1) as i32) >> ((imm as u32) % 32)) as u32
        }
        Instruction::ADD(_, rs1, rs2) => reg.read(rs1).wrapping_add(reg.read(rs2)),
        Instruction::SUB(_, rs1, rs2) => reg.read(rs1).wrapping_sub(reg.read(rs2)),
        Instruction::SLL(_, rs1, rs2) => reg.read(rs1) << (reg.read(rs2) % 32),
        Instruction::SLT(_, rs1, rs2) => {
            let a = reg.read(rs1);
            let c = reg.read(rs2);
            proof { lemma_signed(a); lemma_signed(c); }
            if (a as i32) < (c as i32) { 1 } else { 0 }
        }
        Instruction::SLTU(_, rs1, rs2) => if reg.read(rs1) < reg.read(rs2) { 1 } else { 0 },
        Instruction::XOR(_, rs1, rs2) => reg.read(rs1) ^ reg.read(rs2),
        Instruction::SRL(_, rs1, rs2) => reg.read(rs1) >> (reg.read(rs2) % 32),
        Instruction::SRA(_, rs1, rs2) => ((reg.read(rs1) as i32) >> (reg.read(rs2) % 32)) as u32,
        Instruction::OR(_, rs1, rs2) => reg.read(rs1) | reg.read(rs2),
        Instruction::AND(_, rs1, rs2) => reg.read(rs1) & reg.read(rs2),
        Instruction::MUL(_, rs1, rs2) => reg.read(rs1).wrapping_mul(reg.read(rs2)),
        Instruction::MULH(_, rs1, rs2) => {
            let a = reg.read(rs1);
            let c = reg.read(rs2);
            proof { lemma_signed(a); lemma_signed(c); }
            let sa = a as i32 as i128;
            let sc = c as i32 as i128;
            assert(-0x8000_0000_0000_0000 <= sa * sc < 0x8000_0000_0000_0000) by (nonlinear_arith)
                requires -0x8000_0000 <= sa < 0x8000_0000, -0x8000_0000 <= sc < 0x8000_0000;
            high_word(sa * sc)
        }
        Instruction::MULHSU(_, rs1, rs2) => {
            let a = reg.read(rs1);
            let c = reg.read(rs2);
            proof { lemma_signed(a); }
            let sa = a as i32 as i128;
            let uc = c as i128;
            assert(-0x8000_0000_0000_0000 <= sa * uc < 0x8000_0000_0000_0000) by (nonlinear_arith)
                requires -0x8000_0000 <= sa < 0x8000_0000, 0 <= uc < 0x1_0000_0000;
            high_word(sa * uc)
        }
        Instruction::MULHU(_, rs1, rs2) => {
            let a = reg.read(rs1) as u64;
            let c = reg.read(rs2) as u64;
            assert(a * c < 0x1_0000_0000 * 0x1_0000_0000) by (nonlinear_arith)
                requires a < 0x1_0000_0000, c < 0x1_0000_0000;
            assert((a * c) / 0x1_0000_0000 < 0x1_0000_0000) by (nonlinear_arith)
                requires a * c < 0x1_0000_0000 * 0x1_0000_0000;
            ((a * c) / 0x1_0000_0000) as u32
        }
        Instruction::DIV(_, rs1, rs2) => {
            let a = reg.read(rs1);
            let d = reg.read(rs2);
            if d == 0 {
                0xFFFF_FFFF
            } else {
                proof { lemma_signed(a); lemma_signed(d); }
                let aa = abs_u64(a);
                let da = abs_u64(d);
                let q = aa / da;
                assert(q <= 0x8000_0000) by (nonlinear_arith)
                    requires q == aa / da, aa <= 0x8000_0000, da >= 1;
                if ((a as i32) < 0) != ((d as i32) < 0) {
                    (0u32).wrapping_sub(q as u32)
                } else {
                    q as u32
                }
            }
        }
        Instruction::DIVU(_, rs1, rs2) => {
            let d = reg.read(rs2);
            if d == 0 { 0xFFFF_FFFF } else { reg.read(rs1) / d }
        }
        Instruction::REM(_, rs1, rs2) => {
            let a = reg.read(rs1);
            let d = reg.read(rs2);
            if d == 0 {
                a
            } else {
                proof { lemma_signed(a); lemma_signed(d); }
                let aa = abs_u64(a);
                let da = abs_u64(d);
                let m = aa % da;
                assert(m < 0x8000_0001) by (nonlinear_arith)
                    requires m == aa % da, aa <= 0x8000_0000, da >= 1;
                if (a as i32) < 0 {
                    (0u32).wrapping_sub(m as u32)
                } else {
                    m as u32
                }
            }
        }
        Instruction::REMU(_, rs1, rs2) => {
            let d = reg.read(rs2);
            if d == 0 { reg.read(rs1) } else { reg.read(rs1) % d }
        }
        _ => 0,
    }
}

/// The effective address of a load or store: `x[rs1] + imm` modulo 2^32.
pub open spec fn effective(x: Seq<u32>, rs1: usize, imm: i32) -> int {
    wrap(x[rs1 as int] + imm) as int
}

/// The address and width in bytes of the memory read that an instruction makes.
pub open spec fn load_access(r: RegisterView, b: Instruction) -> Option<(int, int)> {
    match b {
        Instruction::LB(_, rs1, imm) | Instruction::LBU(_, rs1, imm) => Some((effective(r.x, rs1, imm), 1)),
        Instruction::LH(_, rs1, imm) | Instruction::LHU(_, rs1, imm) => Some((effective(r.x, rs1, imm), 2)),
        Instruction::LW(_, rs1, imm) => Some((effective(r.x, rs1, imm), 4)),
        Instruction::LRW(_, rs1) | Instruction::AMOSWAPW(_, rs1, _) | Instruction::AMOADDW(_, rs1, _)
        | Instruction::AMOXORW(_, rs1, _) | Instruction::AMOANDW(_, rs1, _) | Instruction::AMOORW(_, rs1, _)
        | Instruction::AMOMINW(_, rs1, _) | Instruction::AMOMAXW(_, rs1, _) | Instruction::AMOMINUW(_, rs1, _)
        | Instruction::AMOMAXUW(_, rs1, _) => Some((r.x[rs1 as int] as int, 4)),
        _ => None,
    }
}

/// The address and width in bytes of the memory write that an instruction makes.
pub open spec fn store_target(r: RegisterView, b: Instruction) -> Option<(int, int)> {
    match b {
        Instruction::SB(rs1, _, imm) => Some((effective(r.x, rs1, imm), 1)),
        Instruction::SH(rs1, _, imm) => Some((effective(r.x, rs1, imm), 2)),
        Instruction::SW(rs1, _, imm) => Some((effective(r.x, rs1, imm), 4)),
        Instruction::SCW(_, rs1, _) | Instruction::AMOSWAPW(_, rs1, _) | Instruction::AMOADDW(_, rs1, _)
        | Instruction::AMOXORW(_, rs1, _) | Instruction::AMOANDW(_, rs1, _) | Instruction::AMOORW(_, rs1, _)
        | Instruction::AMOMINW(_, rs1, _) | Instruction::AMOMAXW(_, rs1, _) | Instruction::AMOMINUW(_, rs1, _)
        | Instruction::AMOMAXUW(_, rs1, _) => Some((r.x[rs1 as int] as int, 4)),
        _ => None,
    }
}

/// The value that an instruction writes to memory, given the word `loaded` that
/// it read (atomic memory operations combine the two).
pub open spec fn store_value(r: RegisterView, b: Instruction, loaded: u32) -> u32 {
    match b {
        Instruction::SB(_, rs2, _) | Instruction::SH(_, rs2, _) | Instruction::SW(_, rs2, _)
        | Instruction::SCW(_, _, rs2) | Instruction::AMOSWAPW(_, _, rs2) => r.x[rs2 as int],
        Instruction::AMOADDW(_, _, rs2) => wrap(loaded + r.x[rs2 as int]),
        Instruction::AMOXORW(_, _, rs2) => loaded ^ r.x[rs2 as int],
        Instruction::AMOANDW(_, _, rs2) => loaded & r.x[rs2 as int],
        Instruction::AMOORW(_, _, rs2) => loaded | r.x[rs2 as int],
        Instruction::AMOMINW(_, _, rs2) =>
            if signed(loaded) <= signed(r.x[rs2 as int]) { loaded } else { r.x[rs2 as int] },
        Instruction::AMOMAXW(_, _, rs2) =>
            if signed(loaded) >= signed(r.x[rs2 as int]) { loaded } else { r.x[rs2 as int] },
        Instruction::AMOMINUW(_, _, rs2) => if loaded <= r.x[rs2 as int] { loaded } else { r.x[rs2 as int] },
        Instruction::AMOMAXUW(_, _, rs2) => if loaded >= r.x[rs2 as int] { loaded } else { r.x[rs2 as int] },
        _ => 0,
    }
}

/// The instructions that read or write memory.
pub open spec fn is_mem(b: Instruction) -> bool {
    is_load(b) || is_store(b) || is_amo(b)
}

/// The value that a memory instruction writes to its destination register, given
/// the value `loaded` that it read.
pub open spec fn mem_dest_value(b: Instruction, loaded: u32) -> u32 {
    match b {
        Instruction::LB(..) => sign_extended(loaded, 8),
        Instruction::LH(..) => sign_extended(loaded, 16),
        Instruction::SCW(..) => 0,
        _ => loaded,
    }
}

/// The memory accesses of the instruction stay inside the memory map: every byte
/// it reads is readable and every byte it writes is writable.
pub open spec fn access_ok<P: MmapPeripheral>(m: Memory<P>, r: RegisterView, b: Instruction) -> bool {
    &&& load_access(r, b) matches Some((a, w)) ==> {
        &&& a + w <= usize::MAX + 1
        &&& forall|i: int| a <= i < a + w ==> m.readable(i)
    }
    &&& store_target(r, b) matches Some((a, w)) ==> {
        &&& a + w <= usize::MAX + 1
        &&& forall|i: int| a <= i < a + w ==> m.writable(i)
    }
}

/// What the value `v` read by the instruction can be: nothing is read (`0`), or
/// the value has the width of the access and each of its bytes, low byte first,
/// is an answer of a read at its address: what the memory holds there, or in the
/// UART window what the device answers.
pub open spec fn loaded_ok<P: MmapPeripheral>(m: Memory<P>, r: RegisterView, b: Instruction, v: u32) -> bool {
    match load_access(r, b) {
        None => v == 0,
        Some((a, w)) => {
            if w == 1 {
                &&& v < 256
                &&& m.byte(a) is Some ==> v == m.byte(a)->0
                &&& m.read_answer(a, byte_of(v, 0))
            } else if w == 2 {
                &&& v < 0x1_0000
                &&& m.byte(a) is Some && m.byte(a + 1) is Some ==> v as int == halfword_of(
                    m.byte(a)->0,
                    m.byte(a + 1)->0,
                )
                &&& m.read_answer(a, byte_of(v, 0))
                &&& m.read_answer(a + 1, byte_of(v, 1))
            } else {
                &&& m.word(a) is Some ==> v == m.word(a)->0
                &&& forall|k: int| 0 <= k < 4 ==> #[trigger] m.read_answer(a + k, byte_of(v, k))
            }
        },
    }
}

/// `m1` is `m0` after the `w` low bytes of `v` were written at `a`, low byte first:
/// RAM takes them, and in the UART window the device takes them, in that order.
pub open spec fn stored<P: MmapPeripheral>(m0: Memory<P>, m1: Memory<P>, a: int, w: int, v: u32) -> bool {
    &&& m1.wf()
    &&& m1.same_layout(&m0)
    &&& m1.rom@ == m0.rom@
    &&& forall|addr: int| #![trigger m1.byte(addr)]
        !(a <= addr < a + w) ==> m1.byte(addr) == m0.byte(addr)
    &&& forall|k: int| #![trigger m1.byte(a + k)]
        0 <= k < w ==> m1.byte(a + k) == m0.byte_after_write(a + k, byte_of(v, k))
    &&& (forall|i: int| #![auto] a <= i < a + w ==> !m0.in_uart(i) || m0.in_ram(i)) ==> m1.uart == m0.uart
    &&& m0.uart_stored(a, w, v, m1.uart)
}

/// What an instruction does to memory, given the value `v` it read.
pub open spec fn memory_effect<P: MmapPeripheral>(
    m0: Memory<P>,
    m1: Memory<P>,
    r: RegisterView,
    b: Instruction,
    v: u32,
) -> bool {
    match store_target(r, b) {
        None => m1 == m0,
        Some((a, w)) => stored(m0, m1, a, w, store_value(r, b, v)),
    }
}

/// The loads: `LB`, `LBU`, `LH`, `LHU`, `LW` and `LR.W`.
pub open spec fn is_load(b: Instruction) -> bool {
    b matches Instruction::LB(..) || b matches Instruction::LBU(..) || b matches Instruction::LH(..)
        || b matches Instruction::LHU(..) || b matches Instruction::LW(..) || b matches Instruction::LRW(..)
}

fn exec_lb<P: MmapPeripheral>(
    reg: &mut Register,
    mem: &mut Memory<P>,
    b: &Instruction,
    next: u32,
) -> (loaded: u32)
    requires
        old(reg).wf(),
        old(mem).wf(),
        *b matches Instruction::LB(..),
        regs_in_range(*b),
        access_ok(*old(mem), old(reg)@, *b),
    ensures
        final(reg).wf(),
        final(reg)@ == with_rd(old(reg)@, dest(*b), mem_dest_value(*b, loaded), next),
        loaded_ok(*old(mem), old(reg)@, *b, loaded),
        memory_effect(*old(mem), *final(mem), old(reg)@, *b, loaded),
{
    proof { reg.lemma_view_shape(); }
    match *b {
        Instruction::LB(rd, rs1, imm) => {
            let a = reg.read(rs1).wrapping_add_signed(imm) as usize;
            let v = mem.read_byte(a);
            reg.write(rd, sign_extend(v, 8));
            reg.set_pc(next);
            v
        }
        _ => 0,
    }
}

fn exec_lbu<P: MmapPeripheral>(
    reg: &mut Register,
    mem: &mut Memory<P>,
    b: &Instruction,
    next: u32,
) -> (loaded: u32)
    requires
        old(reg).wf(),
        old(mem).wf(),
        *b matches Instruction::LBU(..),
        regs_in_range(*b),
        access_ok(*old(mem), old(reg)@, *b),
    ensures
        final(reg).wf(),
        final(reg)@ == with_rd(old(reg)@, dest(*b), mem_dest_value(*b, loaded), next),
        loaded_ok(*old(mem), old(reg)@, *b, loaded),
        memory_effect(*old(mem), *final(mem), old(reg)@, *b, loaded),
{
    proof { reg.lemma_view_shape(); }
    match *b {
        Instruction::LBU(rd, rs1, imm) => {
            let a = reg.read(rs1).wrapping_add_signed(imm) as usize;
            let v = mem.read_byte(a);
            reg.write(rd, v);
            reg.set_pc(next);
            v
        }
        _ => 0,
    }
}

fn exec_lh<P: MmapPeripheral>(
    reg: &mut Register,
    mem: &mut Memory<P>,
    b: &Instruction,
    next: u32,
) -> (loaded: u32)
    requires
        old(reg).wf(),
        old(mem).wf(),
        *b matches Instruction::LH(..),
        regs_in_range(*b),
        access_ok(*old(mem), old(reg)@, *b),
    ensures
        final(reg).wf(),
        final(reg)@ == with_rd(old(reg)@, dest(*b), mem_dest_value(*b, loaded), next),
        loaded_ok(*old(mem), old(reg)@, *b, loaded),
        memory_effect(*old(mem), *final(mem), old(reg)@, *b, loaded),
{
    proof { reg.lemma_view_shape(); }
    match *b {
        Instruction::LH(rd, rs1, imm) => {
            let a = reg.read(rs1).wrapping_add_signed(imm) as usize;
            assert(mem.readable(a as int) && mem.readable(a + 1));
            let v = mem.read_halfword(a);
            reg.write(rd, sign_extend(v, 16));
            reg.set_pc(next);
            v
        }
        _ => 0,
    }
}

fn exec_lhu<P: MmapPeripheral>(
    reg: &mut Register,
    mem: &mut Memory<P>,
    b: &Instruction,
    next: u32,
) -> (loaded: u32)
    requires
        old(reg).wf(),
        old(mem).wf(),
        *b matches Instruction::LHU(..),
        regs_in_range(*b),
        access_ok(*old(mem), old(reg)@, *b),
    ensures
        final(reg).wf(),
        final(reg)@ == with_rd(old(reg)@, dest(*b), mem_dest_value(*b, loaded), next),
        loaded_ok(*old(mem), old(reg)@, *b, loaded),
        memory_effect(*old(mem), *final(mem), old(reg)@, *b, loaded),
{
    proof { reg.lemma_view_shape(); }
    match *b {
        Instruction::LHU(rd, rs1, imm) => {
            let a = reg.read(rs1).wrapping_add_signed(imm) as usize;
            assert(mem.readable(a as int) && mem.readable(a + 1));
            let v = mem.read_halfword(a);
            reg.write(rd, v);
            reg.set_pc(next);
            v
        }
        _ => 0,
    }
}

fn exec_lw<P: MmapPeripheral>(
    reg: &mut Register,
    mem: &mut Memory<P>,
    b: &Instruction,
    next: u32,
) -> (loaded: u32)
    requires
        old(reg).wf(),
        old(mem).wf(),
        *b matches Instruction::LW(..),
        regs_in_range(*b),
        access_ok(*old(mem), old(reg)@, *b),
    ensures
        final(reg).wf(),
        final(reg)@ == with_rd(old(reg)@, dest(*b), mem_dest_value(*b, loaded), next),
        loaded_ok(*old(mem), old(reg)@, *b, loaded),
        memory_effect(*old(mem), *final(mem), old(reg)@, *b, loaded),
{
    proof { reg.lemma_view_shape(); }
    match *b {
        Instruction::LW(rd, rs1, imm) => {
            let a = reg.read(rs1).wrapping_add_signed(imm) as usize;
            let v = mem.read_word(a);
            reg.write(rd, v);
            reg.set_pc(next);
            v
        }
        _ => 0,
    }
}

fn exec_lrw<P: MmapPeripheral>(
    reg: &mut Register,
    mem: &mut Memory<P>,
    b: &Instruction,
    next: u32,
) -> (loaded: u32)
    requires
        old(reg).wf(),
        old(mem).wf(),
        *b matches Instruction::LRW(..),
        regs_in_range(*b),
        access_ok(*old(mem), old(reg)@, *b),
    ensures
        final(reg).wf(),
        final(reg)@ == with_rd(old(reg)@, dest(*b), mem_dest_value(*b, loaded), next),
        loaded_ok(*old(mem), old(reg)@, *b, loaded),
        memory_effect(*old(mem), *final(mem), old(reg)@, *b, loaded),
{
    proof { reg.lemma_view_shape(); }
    match *b {
        Instruction::LRW(rd, rs1) => {
            let a = reg.read(rs1) as usize;
            let v = mem.read_word(a);
            reg.write(rd, v);
            reg.set_pc(next);
            v
        }
        _ => 0,
    }
}

fn exec_load<P: MmapPeripheral>(
    reg: &mut Register,
    mem: &mut Memory<P>,
    b: &Instruction,
    next: u32,
) -> (loaded: u32)
    requires
        old(reg).wf(),
        old(mem).wf(),
        is_load(*b),
        regs_in_range(*b),
        access_ok(*old(mem), old(reg)@, *b),
    ensures
        final(reg).wf(),
        final(reg)@ == with_rd(old(reg)@, dest(*b), mem_dest_value(*b, loaded), next),
        loaded_ok(*old(mem), old(reg)@, *b, loaded),
        memory_effect(*old(mem), *final(mem), old(reg)@, *b, loaded),
{
    match *b {
        Instruction::LB(..) => exec_lb(reg, mem, b, next),
        Instruction::LBU(..) => exec_lbu(reg, mem, b, next),
        Instruction::LH(..) => exec_lh(reg, mem, b, next),
        Instruction::LHU(..) => exec_lhu(reg, mem, b, next),
        Instruction::LW(..) => exec_lw(reg, mem, b, next),
        Instruction::LRW(..) => exec_lrw(reg, mem, b, next),
        _ => 0,
    }
}

/// The stores: `SB`, `SH`, `SW` and `SC.W`.
pub open spec fn is_store(b: Instruction) -> bool {
    b matches Instruction::SB(..) || b matches Instruction::SH(..) || b matches Instruction::SW(..)
        || b matches Instruction::SCW(..)
}

fn exec_sb<P: MmapPeripheral>(
    reg: &mut Register,
    mem: &mut Memory<P>,
    b: &Instruction,
    next: u32,
) -> (loaded: u32)
    requires
        old(reg).wf(),
        old(mem).wf(),
        *b matches Instruction::SB(..),
        regs_in_range(*b),
        access_ok(*old(mem), old(reg)@, *b),
    ensures
        final(reg).wf(),
        final(reg)@ == with_rd(old(reg)@, dest(*b), mem_dest_value(*b, loaded), next),
        loaded_ok(*old(mem), old(reg)@, *b, loaded),
        memory_effect(*old(mem), *final(mem), old(reg)@, *b, loaded),
{
    proof { reg.lemma_view_shape(); }
    match *b {
        Instruction::SB(rs1, rs2, imm) => {
            let a = reg.read(rs1).wrapping_add_signed(imm) as usize;
            let c = reg.read(rs2);
            mem.write_byte(a, c);
            reg.set_pc(next);
            proof {
                assert(a + 0 == a as int);
            }
            0
        }
        _ => 0,
    }
}

fn exec_sh<P: MmapPeripheral>(
    reg: &mut Register,
    mem: &mut Memory<P>,
    b: &Instruction,
    next: u32,
) -> (loaded: u32)
    requires
        old(reg).wf(),
        old(mem).wf(),
        *b matches Instruction::SH(..),
        regs_in_range(*b),
        access_ok(*old(mem), old(reg)@, *b),
    ensures
        final(reg).wf(),
        final(reg)@ == with_rd(old(reg)@, dest(*b), mem_dest_value(*b, loaded), next),
        loaded_ok(*old(mem), old(reg)@, *b, loaded),
        memory_effect(*old(mem), *final(mem), old(reg)@, *b, loaded),
{
    proof { reg.lemma_view_shape(); }
    match *b {
        Instruction::SH(rs1, rs2, imm) => {
            let a = reg.read(rs1).wrapping_add_signed(imm) as usize;
            let c = reg.read(rs2);
            assert(mem.writable(a as int) && mem.writable(a + 1));
            mem.write_halfword(a, c);
            reg.set_pc(next);
            0
        }
        _ => 0,
    }
}

fn exec_sw<P: MmapPeripheral>(
    reg: &mut Register,
    mem: &mut Memory<P>,
    b: &Instruction,
    next: u32,
) -> (loaded: u32)
    requires
        old(reg).wf(),
        old(mem).wf(),
        *b matches Instruction::SW(..),
        regs_in_range(*b),
        access_ok(*old(mem), old(reg)@, *b),
    ensures
        final(reg).wf(),
        final(reg)@ == with_rd(old(reg)@, dest(*b), mem_dest_value(*b, loaded), next),
        loaded_ok(*old(mem), old(reg)@, *b, loaded),
        memory_effect(*old(mem), *final(mem), old(reg)@, *b, loaded),
{
    proof { reg.lemma_view_shape(); }
    match *b {
        Instruction::SW(rs1, rs2, imm) => {
            let a = reg.read(rs1).wrapping_add_signed(imm) as usize;
            let c = reg.read(rs2);
            mem.write_word(a, c);
            reg.set_pc(next);
            0
        }
        _ => 0,
    }
}

fn exec_scw<P: MmapPeripheral>(
    reg: &mut Register,
    mem: &mut Memory<P>,
    b: &Instruction,
    next: u32,
) -> (loaded: u32)
    requires
        old(reg).wf(),
        old(mem).wf(),
        *b matches Instruction::SCW(..),
        regs_in_range(*b),
        access_ok(*old(mem), old(reg)@, *b),
    ensures
        final(reg).wf(),
        final(reg)@ == with_rd(old(reg)@, dest(*b), mem_dest_value(*b, loaded), next),
        loaded_ok(*old(mem), old(reg)@, *b, loaded),
        memory_effect(*old(mem), *final(mem), old(reg)@, *b, loaded),
{
    proof { reg.lemma_view_shape(); }
    match *b {
        Instruction::SCW(rd, rs1, rs2) => {
            let a = reg.read(rs1) as usize;
            let c = reg.read(rs2);
            mem.write_word(a, c);
            reg.write(rd, 0);
            reg.set_pc(next);
            0
        }
        _ => 0,
    }
}

fn exec_store<P: MmapPeripheral>(
    reg: &mut Register,
    mem: &mut Memory<P>,
    b: &Instruction,
    next: u32,
) -> (loaded: u32)
    requires
        old(reg).wf(),
        old(mem).wf(),
        is_store(*b),
        regs_in_range(*b),
        access_ok(*old(mem), old(reg)@, *b),
    ensures
        final(reg).wf(),
        final(reg)@ == with_rd(old(reg)@, dest(*b), mem_dest_value(*b, loaded), next),
        loaded_ok(*old(mem), old(reg)@, *b, loaded),
        memory_effect(*old(mem), *final(mem), old(reg)@, *b, loaded),
{
    match *b {
        Instruction::SB(..) => exec_sb(reg, mem, b, next),
        Instruction::SH(..) => exec_sh(reg, mem, b, next),
        Instruction::SW(..) => exec_sw(reg, mem, b, next),
        Instruction::SCW(..) => exec_scw(reg, mem, b, next),
        _ => 0,
    }
}

/// The atomic memory operations that read, combine and write back a word.
pub open spec fn is_amo(b: Instruction) -> bool {
    b matches Instruction::AMOSWAPW(..) || b matches Instruction::AMOADDW(..)
        || b matches Instruction::AMOXORW(..) || b matches Instruction::AMOANDW(..)
        || b matches Instruction::AMOORW(..) || b matches Instruction::AMOMINW(..)
        || b matches Instruction::AMOMAXW(..) || b matches Instruction::AMOMINUW(..)
        || b matches Instruction::AMOMAXUW(..)
}

fn exec_amoswapw<P: MmapPeripheral>(
    reg: &mut Register,
    mem: &mut Memory<P>,
    b: &Instruction,
    next: u32,
) -> (loaded: u32)
    requires
        old(reg).wf(),
        old(mem).wf(),
        *b matches Instruction::AMOSWAPW(..),
        regs_in_range(*b),
        access_ok(*old(mem), old(reg)@, *b),
    ensures
        final(reg).wf(),
        final(reg)@ == with_rd(old(reg)@, dest(*b), mem_dest_value(*b, loaded), next),
        loaded_ok(*old(mem), old(reg)@, *b, loaded),
        memory_effect(*old(mem), *final(mem), old(reg)@, *b, loaded),
{
    proof { reg.lemma_view_shape(); }
    match *b {
        Instruction::AMOSWAPW(rd, rs1, rs2) => {
            let a = reg.read(rs1) as usize;
            let c = reg.read(rs2);
            let v = mem.read_word(a);
            proof { lemma_signed(v); lemma_signed(c); }
            let new = c;
            mem.write_word(a, new);
            reg.write(rd, v);
            reg.set_pc(next);
            v
        }
        _ => 0,
    }
}

fn exec_amoaddw<P: MmapPeripheral>(
    reg: &mut Register,
    mem: &mut Memory<P>,
    b: &Instruction,
    next: u32,
) -> (loaded: u32)
    requires
        old(reg).wf(),
        old(mem).wf(),
        *b matches Instruction::AMOADDW(..),
        regs_in_range(*b),
        access_ok(*old(mem), old(reg)@, *b),
    ensures
        final(reg).wf(),
        final(reg)@ == with_rd(old(reg)@, dest(*b), mem_dest_value(*b, loaded), next),
        loaded_ok(*old(mem), old(reg)@, *b, loaded),
        memory_effect(*old(mem), *final(mem), old(reg)@, *b, loaded),
{
    proof { reg.lemma_view_shape(); }
    match *b {
        Instruction::AMOADDW(rd, rs1, rs2) => {
            let a = reg.read(rs1) as usize;
            let c = reg.read(rs2);
            let v = mem.read_word(a);
            proof { lemma_signed(v); lemma_signed(c); }
            let new = v.wrapping_add(c);
            mem.write_word(a, new);
            reg.write(rd, v);
            reg.set_pc(next);
            v
        }
        _ => 0,
    }
}

fn exec_amoxorw<P: MmapPeripheral>(
    reg: &mut Register,
    mem: &mut Memory<P>,
    b: &Instruction,
    next: u32,
) -> (loaded: u32)
    requires
        old(reg).wf(),
        old(mem).wf(),
        *b matches Instruction::AMOXORW(..),
        regs_in_range(*b),
        access_ok(*old(mem), old(reg)@, *b),
    ensures
        final(reg).wf(),
        final(reg)@ == with_rd(old(reg)@, dest(*b), mem_dest_value(*b, loaded), next),
        loaded_ok(*old(mem), old(reg)@, *b, loaded),
        memory_effect(*old(mem), *final(mem), old(reg)@, *b, loaded),
{
    proof { reg.lemma_view_shape(); }
    match *b {
        Instruction::AMOXORW(rd, rs1, rs2) => {
            let a = reg.read(rs1) as usize;
            let c = reg.read(rs2);
            let v = mem.read_word(a);
            proof { lemma_signed(v); lemma_signed(c); }
            let new = v ^ c;
            mem.write_word(a, new);
            reg.write(rd, v);
            reg.set_pc(next);
            v
        }
        _ => 0,
    }
}

fn exec_amoandw<P: MmapPeripheral>(
    reg: &mut Register,
    mem: &mut Memory<P>,
    b: &Instruction,
    next: u32,
) -> (loaded: u32)
    requires
        old(reg).wf(),
        old(mem).wf(),
        *b matches Instruction::AMOANDW(..),
        regs_in_range(*b),
        access_ok(*old(mem), old(reg)@, *b),
    ensures
        final(reg).wf(),
        final(reg)@ == with_rd(old(reg)@, dest(*b), mem_dest_value(*b, loaded), next),
        loaded_ok(*old(mem), old(reg)@, *b, loaded),
        memory_effect(*old(mem), *final(mem), old(reg)@, *b, loaded),
{
    proof { reg.lemma_view_shape(); }
    match *b {
        Instruction::AMOANDW(rd, rs1, rs2) => {
            let a = reg.read(rs1) as usize;
            let c = reg.read(rs2);
            let v = mem.read_word(a);
            proof { lemma_signed(v); lemma_signed(c); }
            let new = v & c;
            mem.write_word(a, new);
            reg.write(rd, v);
            reg.set_pc(next);
            v
        }
        _ => 0,
    }
}

fn exec_amoorw<P: MmapPeripheral>(
    reg: &mut Register,
    mem: &mut Memory<P>,
    b: &Instruction,
    next: u32,
) -> (loaded: u32)
    requires
        old(reg).wf(),
        old(mem).wf(),
        *b matches Instruction::AMOORW(..),
        regs_in_range(*b),
        access_ok(*old(mem), old(reg)@, *b),
    ensures
        final(reg).wf(),
        final(reg)@ == with_rd(old(reg)@, dest(*b), mem_dest_value(*b, loaded), next),
        loaded_ok(*old(mem), old(reg)@, *b, loaded),
        memory_effect(*old(mem), *final(mem), old(reg)@, *b, loaded),
{
    proof { reg.lemma_view_shape(); }
    match *b {
        Instruction::AMOORW(rd, rs1, rs2) => {
            let a = reg.read(rs1) as usize;
            let c = reg.read(rs2);
            let v = mem.read_word(a);
            proof { lemma_signed(v); lemma_signed(c); }
            let new = v | c;
            mem.write_word(a, new);
            reg.write(rd, v);
            reg.set_pc(next);
            v
        }
        _ => 0,
    }
}

fn exec_amominw<P: MmapPeripheral>(
    reg: &mut Register,
    mem: &mut Memory<P>,
    b: &Instruction,
    next: u32,
) -> (loaded: u32)
    requires
        old(reg).wf(),
        old(mem).wf(),
        *b matches Instruction::AMOMINW(..),
        regs_in_range(*b),
        access_ok(*old(mem), old(reg)@, *b),
    ensures
        final(reg).wf(),
        final(reg)@ == with_rd(old(reg)@, dest(*b), mem_dest_value(*b, loaded), next),
        loaded_ok(*old(mem), old(reg)@, *b, loaded),
        memory_effect(*old(mem), *final(mem), old(reg)@, *b, loaded),
{
    proof { reg.lemma_view_shape(); }
    match *b {
        Instruction::AMOMINW(rd, rs1, rs2) => {
            let a = reg.read(rs1) as usize;
            let c = reg.read(rs2);
            let v = mem.read_word(a);
            proof { lemma_signed(v); lemma_signed(c); }
            let new = if (v as i32) <= (c as i32) { v } else { c };
            mem.write_word(a, new);
            reg.write(rd, v);
            reg.set_pc(next);
            v
        }
        _ => 0,
    }
}

fn exec_amomaxw<P: MmapPeripheral>(
    reg: &mut Register,
    mem: &mut Memory<P>,
    b: &Instruction,
    next: u32,
) -> (loaded: u32)
    requires
        old(reg).wf(),
        old(mem).wf(),
        *b matches Instruction::AMOMAXW(..),
        regs_in_range(*b),
        access_ok(*old(mem), old(reg)@, *b),
    ensures
        final(reg).wf(),
        final(reg)@ == with_rd(old(reg)@, dest(*b), mem_dest_value(*b, loaded), next),
        loaded_ok(*old(mem), old(reg)@, *b, loaded),
        memory_effect(*old(mem), *final(mem), old(reg)@, *b, loaded),
{
    proof { reg.lemma_view_shape(); }
    match *b {
        Instruction::AMOMAXW(rd, rs1, rs2) => {
            let a = reg.read(rs1) as usize;
            let c = reg.read(rs2);
            let v = mem.read_word(a);
            proof { lemma_signed(v); lemma_signed(c); }
            let new = if (v as i32) >= (c as i32) { v } else { c };
            mem.write_word(a, new);
            reg.write(rd, v);
            reg.set_pc(next);
            v
        }
        _ => 0,
    }
}

fn exec_amominuw<P: MmapPeripheral>(
    reg: &mut Register,
    mem: &mut Memory<P>,
    b: &Instruction,
    next: u32,
) -> (loaded: u32)
    requires
        old(reg).wf(),
        old(mem).wf(),
        *b matches Instruction::AMOMINUW(..),
        regs_in_range(*b),
        access_ok(*old(mem), old(reg)@, *b),
    ensures
        final(reg).wf(),
        final(reg)@ == with_rd(old(reg)@, dest(*b), mem_dest_value(*b, loaded), next),
        loaded_ok(*old(mem), old(reg)@, *b, loaded),
        memory_effect(*old(mem), *final(mem), old(reg)@, *b, loaded),
{
    proof { reg.lemma_view_shape(); }
    match *b {
        Instruction::AMOMINUW(rd, rs1, rs2) => {
            let a = reg.read(rs1) as usize;
            let c = reg.read(rs2);
            let v = mem.read_word(a);
            proof { lemma_signed(v); lemma_signed(c); }
            let new = if v <= c { v } else { c };
            mem.write_word(a, new);
            reg.write(rd, v);
            reg.set_pc(next);
            v
        }
        _ => 0,
    }
}

fn exec_amomaxuw<P: MmapPeripheral>(
    reg: &mut Register,
    mem: &mut Memory<P>,
    b: &Instruction,
    next: u32,
) -> (loaded: u32)
    requires
        old(reg).wf(),
        old(mem).wf(),
        *b matches Instruction::AMOMAXUW(..),
        regs_in_range(*b),
        access_ok(*old(mem), old(reg)@, *b),
    ensures
        final(reg).wf(),
        final(reg)@ == with_rd(old(reg)@, dest(*b), mem_dest_value(*b, loaded), next),
        loaded_ok(*old(mem), old(reg)@, *b, loaded),
        memory_effect(*old(mem), *final(mem), old(reg)@, *b, loaded),
{
    proof { reg.lemma_view_shape(); }
    match *b {
        Instruction::AMOMAXUW(rd, rs1, rs2) => {
            let a = reg.read(rs1) as usize;
            let c = reg.read(rs2);
            let v = mem.read_word(a);
            proof { lemma_signed(v); lemma_signed(c); }
            let new = if v >= c { v } else { c };
            mem.write_word(a, new);
            reg.write(rd, v);
            reg.set_pc(next);
            v
        }
        _ => 0,
    }
}

fn exec_amo<P: MmapPeripheral>(
    reg: &mut Register,
    mem: &mut Memory<P>,
    b: &Instruction,
    next: u32,
) -> (loaded: u32)
    requires
        old(reg).wf(),
        old(mem).wf(),
        is_amo(*b),
        regs_in_range(*b),
        access_ok(*old(mem), old(reg)@, *b),
    ensures
        final(reg).wf(),
        final(reg)@ == with_rd(old(reg)@, dest(*b), mem_dest_value(*b, loaded), next),
        loaded_ok(*old(mem), old(reg)@, *b, loaded),
        memory_effect(*old(mem), *final(mem), old(reg)@, *b, loaded),
{
    match *b {
        Instruction::AMOSWAPW(..) => exec_amoswapw(reg, mem, b, next),
        Instruction::AMOADDW(..) => exec_amoaddw(reg, mem, b, next),
        Instruction::AMOXORW(..) => exec_amoxorw(reg, mem, b, next),
        Instruction::AMOANDW(..) => exec_amoandw(reg, mem, b, next),
        Instruction::AMOORW(..) => exec_amoorw(reg, mem, b, next),
        Instruction::AMOMINW(..) => exec_amominw(reg, mem, b, next),
        Instruction::AMOMAXW(..) => exec_amomaxw(reg, mem, b, next),
        Instruction::AMOMINUW(..) => exec_amominuw(reg, mem, b, next),
        Instruction::AMOMAXUW(..) => exec_amomaxuw(reg, mem, b, next),
        _ => 0,
    }
}

/// The register file after a jump, branch, system or CSR instruction; `next` is
/// the address of the following instruction.
pub open spec fn control_next(r: RegisterView, b: Instruction, next: u32) -> RegisterView {
    let x = r.x;
    let taken = |c: bool, imm: i32| RegisterView { pc: if c { wrap(r.pc + imm) } else { next }, ..r };
    match b {
        Instruction::JAL(rd, imm) => with_rd(r, rd, next, wrap(r.pc + imm)),
        Instruction::JALR(rd, rs1, imm) => with_rd(r, rd, next, wrap(x[rs1 as int] + imm) & 0xFFFF_FFFE),
        Instruction::BEQ(rs1, rs2, imm) => taken(x[rs1 as int] == x[rs2 as int], imm),
        Instruction::BNE(rs1, rs2, imm) => taken(x[rs1 as int] != x[rs2 as int], imm),
        Instruction::BLT(rs1, rs2, imm) => taken(signed(x[rs1 as int]) < signed(x[rs2 as int]), imm),
        Instruction::BGE(rs1, rs2, imm) => taken(signed(x[rs1 as int]) >= signed(x[rs2 as int]), imm),
        Instruction::BLTU(rs1, rs2, imm) => taken(x[rs1 as int] < x[rs2 as int], imm),
        Instruction::BGEU(rs1, rs2, imm) => taken(x[rs1 as int] >= x[rs2 as int], imm),
        Instruction::MRET() => RegisterView { pc: r.csr[MEPC as int], ..r },
        Instruction::CSRRW(rd, rs1, c) => RegisterView {
            csr: r.csr.update(c as int, x[rs1 as int]),
            ..with_rd(r, rd, r.csr[c as int], next)
        },
        Instruction::CSRRS(rd, rs1, c) => RegisterView {
            csr: r.csr.update(c as int, r.csr[c as int] | x[rs1 as int]),
            ..with_rd(r, rd, r.csr[c as int], next)
        },
        Instruction::CSRRC(rd, rs1, c) => RegisterView {
            csr: r.csr.update(c as int, r.csr[c as int] & !x[rs1 as int]),
            ..with_rd(r, rd, r.csr[c as int], next)
        },
        Instruction::CSRRWI(rd, zimm, c) => RegisterView {
            csr: r.csr.update(c as int, zimm as u32),
            ..with_rd(r, rd, r.csr[c as int], next)
        },
        Instruction::CSRRSI(rd, zimm, c) => RegisterView {
            csr: r.csr.update(c as int, r.csr[c as int] | zimm as u32),
            ..with_rd(r, rd, r.csr[c as int], next)
        },
        Instruction::CSRRCI(rd, zimm, c) => RegisterView {
            csr: r.csr.update(c as int, r.csr[c as int] & !(zimm as u32)),
            ..with_rd(r, rd, r.csr[c as int], next)
        },
        // FENCE, ECALL, EBREAK and WFI only move on
        _ => RegisterView { pc: next, ..r },
    }
}

/// The instructions handled by `control_next`.
pub open spec fn is_control(b: Instruction) -> bool {
    match b {
        Instruction::JAL(..) | Instruction::JALR(..) | Instruction::BEQ(..) | Instruction::BNE(..)
        | Instruction::BLT(..) | Instruction::BGE(..) | Instruction::BLTU(..) | Instruction::BGEU(..)
        | Instruction::FENCE(..) | Instruction::ECALL() | Instruction::EBREAK() | Instruction::MRET()
        | Instruction::WFI() | Instruction::CSRRW(..) | Instruction::CSRRS(..) | Instruction::CSRRC(..)
        | Instruction::CSRRWI(..) | Instruction::CSRRSI(..) | Instruction::CSRRCI(..) => true,
        _ => false,
    }
}

/// The instructions that can be executed: the 32-bit ones and the compressed ones
/// that have a 32-bit expansion.
pub open spec fn executable(inst: Instruction) -> bool {
    !inst.spec_is_compressed() || inst.spec_has_expansion()
}

/// The register file after `inst` was executed, given the value `loaded` that it
/// read from memory.
pub open spec fn exec_spec(r: RegisterView, inst: Instruction, loaded: u32) -> RegisterView {
    let b = base_inst(inst);
    let next = wrap(r.pc + inst_len(inst));
    if is_alu(b) {
        with_rd(r, dest(b), alu_value(b, r.x, r.pc), next)
    } else if is_mem(b) {
        with_rd(r, dest(b), mem_dest_value(b, loaded), next)
    } else {
        control_next(r, b, next)
    }
}

fn exec_jal(reg: &mut Register, b: &Instruction, next: u32)
    requires
        old(reg).wf(),
        *b matches Instruction::JAL(..),
        regs_in_range(*b),
    ensures
        final(reg).wf(),
        final(reg)@ == control_next(old(reg)@, *b, next),
{
    proof { reg.lemma_view_shape(); }
    let pc = reg.pc();
    match *b {
        Instruction::JAL(rd, imm) => {
            reg.write(rd, next);
            reg.set_pc(pc.wrapping_add_signed(imm));
        }
        _ => {
            reg.set_pc(next);
        }
    }
}

fn exec_jalr(reg: &mut Register, b: &Instruction, next: u32)
    requires
        old(reg).wf(),
        *b matches Instruction::JALR(..),
        regs_in_range(*b),
    ensures
        final(reg).wf(),
        final(reg)@ == control_next(old(reg)@, *b, next),
{
    proof { reg.lemma_view_shape(); }
    let pc = reg.pc();
    match *b {
        Instruction::JALR(rd, rs1, imm) => {
            let target = reg.read(rs1).wrapping_add_signed(imm) & 0xFFFF_FFFE;
            reg.write(rd, next);
            reg.set_pc(target);
        }
        _ => {
            reg.set_pc(next);
        }
    }
}

fn exec_beq(reg: &mut Register, b: &Instruction, next: u32)
    requires
        old(reg).wf(),
        *b matches Instruction::BEQ(..),
        regs_in_range(*b),
    ensures
        final(reg).wf(),
        final(reg)@ == control_next(old(reg)@, *b, next),
{
    proof { reg.lemma_view_shape(); }
    let pc = reg.pc();
    match *b {
        Instruction::BEQ(rs1, rs2, imm) => {
            let t = reg.read(rs1) == reg.read(rs2);
            reg.set_pc(if t { pc.wrapping_add_signed(imm) } else { next });
        }
        _ => {
            reg.set_pc(next);
        }
    }
}

fn exec_bne(reg: &mut Register, b: &Instruction, next: u32)
    requires
        old(reg).wf(),
        *b matches Instruction::BNE(..),
        regs_in_range(*b),
    ensures
        final(reg).wf(),
        final(reg)@ == control_next(old(reg)@, *b, next),
{
    proof { reg.lemma_view_shape(); }
    let pc = reg.pc();
    match *b {
        Instruction::BNE(rs1, rs2, imm) => {
            let t = reg.read(rs1) != reg.read(rs2);
            reg.set_pc(if t { pc.wrapping_add_signed(imm) } else { next });
        }
        _ => {
            reg.set_pc(next);
        }
    }
}

fn exec_blt(reg: &mut Register, b: &Instruction, next: u32)
    requires
        old(reg).wf(),
        *b matches Instruction::BLT(..),
        regs_in_range(*b),
    ensures
        final(reg).wf(),
        final(reg)@ == control_next(old(reg)@, *b, next),
{
    proof { reg.lemma_view_shape(); }
    let pc = reg.pc();
    match *b {
        Instruction::BLT(rs1, rs2, imm) => {
            let a = reg.read(rs1);
            let c = reg.read(rs2);
            proof { lemma_signed(a); lemma_signed(c); }
            let t = (a as i32) < (c as i32);
            reg.set_pc(if t { pc.wrapping_add_signed(imm) } else { next });
        }
        _ => {
            reg.set_pc(next);
        }
    }
}

fn exec_bge(reg: &mut Register, b: &Instruction, next: u32)
    requires
        old(reg).wf(),
        *b matches Instruction::BGE(..),
        regs_in_range(*b),
    ensures
        final(reg).wf(),
        final(reg)@ == control_next(old(reg)@, *b, next),
{
    proof { reg.lemma_view_shape(); }
    let pc = reg.pc();
    match *b {
        Instruction::BGE(rs1, rs2, imm) => {
            let a = reg.read(rs1);
            let c = reg.read(rs2);
            proof { lemma_signed(a); lemma_signed(c); }
            let t = (a as i32) >= (c as i32);
            reg.set_pc(if t { pc.wrapping_add_signed(imm) } else { next });
        }
        _ => {
            reg.set_pc(next);
        }
    }
}

fn exec_bltu(reg: &mut Register, b: &Instruction, next: u32)
    requires
        old(reg).wf(),
        *b matches Instruction::BLTU(..),
        regs_in_range(*b),
    ensures
        final(reg).wf(),
        final(reg)@ == control_next(old(reg)@, *b, next),
{
    proof { reg.lemma_view_shape(); }
    let pc = reg.pc();
    match *b {
        Instruction::BLTU(rs1, rs2, imm) => {
            let t = reg.read(rs1) < reg.read(rs2);
            reg.set_pc(if t { pc.wrapping_add_signed(imm) } else { next });
        }
        _ => {
            reg.set_pc(next);
        }
    }
}

fn exec_bgeu(reg: &mut Register, b: &Instruction, next: u32)
    requires
        old(reg).wf(),
        *b matches Instruction::BGEU(..),
        regs_in_range(*b),
    ensures
        final(reg).wf(),
        final(reg)@ == control_next(old(reg)@, *b, next),
{
    proof { reg.lemma_view_shape(); }
    let pc = reg.pc();
    match *b {
        Instruction::BGEU(rs1, rs2, imm) => {
            let t = reg.read(rs1) >= reg.read(rs2);
            reg.set_pc(if t { pc.wrapping_add_signed(imm) } else { next });
        }
        _ => {
            reg.set_pc(next);
        }
    }
}

fn exec_mret(reg: &mut Register, b: &Instruction, next: u32)
    requires
        old(reg).wf(),
        *b matches Instruction::MRET(..),
        regs_in_range(*b),
    ensures
        final(reg).wf(),
        final(reg)@ == control_next(old(reg)@, *b, next),
{
    proof { reg.lemma_view_shape(); }
    let pc = reg.pc();
    match *b {
        Instruction::MRET() => {
            let target = reg.read_csr(MEPC);
            reg.set_pc(target);
        }
        _ => {
            reg.set_pc(next);
        }
    }
}

fn exec_csrrw(reg: &mut Register, b: &Instruction, next: u32)
    requires
        old(reg).wf(),
        *b matches Instruction::CSRRW(..),
        regs_in_range(*b),
    ensures
        final(reg).wf(),
        final(reg)@ == control_next(old(reg)@, *b, next),
{
    proof { reg.lemma_view_shape(); }
    let pc = reg.pc();
    match *b {
        Instruction::CSRRW(rd, rs1, c) => {
            let old = reg.read_csr(c as usize);
            let v = reg.read(rs1);
            reg.write_csr(c as usize, v);
            reg.write(rd, old);
            reg.set_pc(next);
        }
        _ => {
            reg.set_pc(next);
        }
    }
}

fn exec_csrrs(reg: &mut Register, b: &Instruction, next: u32)
    requires
        old(reg).wf(),
        *b matches Instruction::CSRRS(..),
        regs_in_range(*b),
    ensures
        final(reg).wf(),
        final(reg)@ == control_next(old(reg)@, *b, next),
{
    proof { reg.lemma_view_shape(); }
    let pc = reg.pc();
    match *b {
        Instruction::CSRRS(rd, rs1, c) => {
            let old = reg.read_csr(c as usize);
            let v = reg.read(rs1);
            reg.write_csr(c as usize, old | v);
            reg.write(rd, old);
            reg.set_pc(next);
        }
        _ => {
            reg.set_pc(next);
        }
    }
}

fn exec_csrrc(reg: &mut Register, b: &Instruction, next: u32)
    requires
        old(reg).wf(),
        *b matches Instruction::CSRRC(..),
        regs_in_range(*b),
    ensures
        final(reg).wf(),
        final(reg)@ == control_next(old(reg)@, *b, next),
{
    proof { reg.lemma_view_shape(); }
    let pc = reg.pc();
    match *b {
        Instruction::CSRRC(rd, rs1, c) => {
            let old = reg.read_csr(c as usize);
            let v = reg.read(rs1);
            reg.write_csr(c as usize, old & !v);
            reg.write(rd, old);
            reg.set_pc(next);
        }
        _ => {
            reg.set_pc(next);
        }
    }
}

fn exec_csrrwi(reg: &mut Register, b: &Instruction, next: u32)
    requires
        old(reg).wf(),
        *b matches Instruction::CSRRWI(..),
        regs_in_range(*b),
    ensures
        final(reg).wf(),
        final(reg)@ == control_next(old(reg)@, *b, next),
{
    proof { reg.lemma_view_shape(); }
    let pc = reg.pc();
    match *b {
        Instruction::CSRRWI(rd, zimm, c) => {
            let old = reg.read_csr(c as usize);
            reg.write_csr(c as usize, zimm as u32);
            reg.write(rd, old);
            reg.set_pc(next);
        }
        _ => {
            reg.set_pc(next);
        }
    }
}

fn exec_csrrsi(reg: &mut Register, b: &Instruction, next: u32)
    requires
        old(reg).wf(),
        *b matches Instruction::CSRRSI(..),
        regs_in_range(*b),
    ensures
        final(reg).wf(),
        final(reg)@ == control_next(old(reg)@, *b, next),
{
    proof { reg.lemma_view_shape(); }
    let pc = reg.pc();
    match *b {
        Instruction::CSRRSI(rd, zimm, c) => {
            let old = reg.read_csr(c as usize);
            reg.write_csr(c as usize, old | zimm as u32);
            reg.write(rd, old);
            reg.set_pc(next);
        }
        _ => {
            reg.set_pc(next);
        }
    }
}

fn exec_csrrci(reg: &mut Register, b: &Instruction, next: u32)
    requires
        old(reg).wf(),
        *b matches Instruction::CSRRCI(..),
        regs_in_range(*b),
    ensures
        final(reg).wf(),
        final(reg)@ == control_next(old(reg)@, *b, next),
{
    proof { reg.lemma_view_shape(); }
    let pc = reg.pc();
    match *b {
        Instruction::CSRRCI(rd, zimm, c) => {
            let old = reg.read_csr(c as usize);
            reg.write_csr(c as usize, old & !(zimm as u32));
            reg.write(rd, old);
            reg.set_pc(next);
        }
        _ => {
            reg.set_pc(next);
        }
    }
}

fn exec_control(reg: &mut Register, b: &Instruction, next: u32)
    requires
        old(reg).wf(),
        is_control(*b),
        regs_in_range(*b),
    ensures
        final(reg).wf(),
        final(reg)@ == control_next(old(reg)@, *b, next),
{
    match *b {
        Instruction::JAL(..) => exec_jal(reg, b, next),
        Instruction::JALR(..) => exec_jalr(reg, b, next),
        Instruction::BEQ(..) => exec_beq(reg, b, next),
        Instruction::BNE(..) => exec_bne(reg, b, next),
        Instruction::BLT(..) => exec_blt(reg, b, next),
        Instruction::BGE(..) => exec_bge(reg, b, next),
        Instruction::BLTU(..) => exec_bltu(reg, b, next),
        Instruction::BGEU(..) => exec_bgeu(reg, b, next),
        Instruction::MRET(..) => exec_mret(reg, b, next),
        Instruction::CSRRW(..) => exec_csrrw(reg, b, next),
        Instruction::CSRRS(..) => exec_csrrs(reg, b, next),
        Instruction::CSRRC(..) => exec_csrrc(reg, b, next),
        Instruction::CSRRWI(..) => exec_csrrwi(reg, b, next),
        Instruction::CSRRSI(..) => exec_csrrsi(reg, b, next),
        Instruction::CSRRCI(..) => exec_csrrci(reg, b, next),
        _ => {
            reg.set_pc(next);
        }
    }
}

fn is_alu_exec(b: &Instruction) -> (r: bool)
    ensures
        r == is_alu(*b),
{
    matches!(*b, Instruction::LUI(..) | Instruction::AUIPC(..) | Instruction::ADDI(..) | Instruction::SLTI(..) | Instruction::SLTIU(..) | Instruction::XORI(..) | Instruction::ORI(..) | Instruction::ANDI(..) | Instruction::SLLI(..) | Instruction::SRLI(..) | Instruction::SRAI(..) | Instruction::ADD(..) | Instruction::SUB(..) | Instruction::SLL(..) | Instruction::SLT(..) | Instruction::SLTU(..) | Instruction::XOR(..) | Instruction::SRL(..) | Instruction::SRA(..) | Instruction::OR(..) | Instruction::AND(..) | Instruction::MUL(..) | Instruction::MULH(..) | Instruction::MULHSU(..) | Instruction::MULHU(..) | Instruction::DIV(..) | Instruction::DIVU(..) | Instruction::REM(..) | Instruction::REMU(..))
}

fn is_load_exec(b: &Instruction) -> (r: bool)
    ensures
        r == is_load(*b),
{
    matches!(*b, Instruction::LB(..) | Instruction::LBU(..) | Instruction::LH(..) | Instruction::LHU(..) | Instruction::LW(..) | Instruction::LRW(..))
}

fn is_store_exec(b: &Instruction) -> (r: bool)
    ensures
        r == is_store(*b),
{
    matches!(*b, Instruction::SB(..) | Instruction::SH(..) | Instruction::SW(..) | Instruction::SCW(..))
}

fn is_amo_exec(b: &Instruction) -> (r: bool)
    ensures
        r == is_amo(*b),
{
    matches!(*b, Instruction::AMOSWAPW(..) | Instruction::AMOADDW(..) | Instruction::AMOXORW(..) | Instruction::AMOANDW(..) | Instruction::AMOORW(..) | Instruction::AMOMINW(..) | Instruction::AMOMAXW(..) | Instruction::AMOMINUW(..) | Instruction::AMOMAXUW(..))
}

fn dest_exec(b: &Instruction) -> (r: usize)
    requires
        is_alu(*b),
    ensures
        r == dest(*b),
{
    match *b {
        Instruction::LUI(rd, ..) => rd,
        Instruction::AUIPC(rd, ..) => rd,
        Instruction::ADDI(rd, ..) => rd,
        Instruction::SLTI(rd, ..) => rd,
        Instruction::SLTIU(rd, ..) => rd,
        Instruction::XORI(rd, ..) => rd,
        Instruction::ORI(rd, ..) => rd,
        Instruction::ANDI(rd, ..) => rd,
        Instruction::SLLI(rd, ..) => rd,
        Instruction::SRLI(rd, ..) => rd,
        Instruction::SRAI(rd, ..) => rd,
        Instruction::ADD(rd, ..) => rd,
        Instruction::SUB(rd, ..) => rd,
        Instruction::SLL(rd, ..) => rd,
        Instruction::SLT(rd, ..) => rd,
        Instruction::SLTU(rd, ..) => rd,
        Instruction::XOR(rd, ..) => rd,
        Instruction::SRL(rd, ..) => rd,
        Instruction::SRA(rd, ..) => rd,
        Instruction::OR(rd, ..) => rd,
        Instruction::AND(rd, ..) => rd,
        Instruction::MUL(rd, ..) => rd,
        Instruction::MULH(rd, ..) => rd,
        Instruction::MULHSU(rd, ..) => rd,
        Instruction::MULHU(rd, ..) => rd,
        Instruction::DIV(rd, ..) => rd,
        Instruction::DIVU(rd, ..) => rd,
        Instruction::REM(rd, ..) => rd,
        Instruction::REMU(rd, ..) => rd,
        _ => 0,
    }
}

/// Executes one instruction: a compressed one through its 32-bit expansion.
/// Gives back the value the instruction read from memory, `0` if it read none.
pub fn exec<P: MmapPeripheral>(reg: &mut Register, mem: &mut Memory<P>, inst: &Instruction) -> (loaded: u32)
    requires
        old(reg).wf(),
        old(mem).wf(),
        executable(*inst),
        regs_in_range(*inst),
        access_ok(*old(mem), old(reg)@, base_inst(*inst)),
    ensures
        final(reg).wf(),
        final(reg)@ == exec_spec(old(reg)@, *inst, loaded),
        loaded_ok(*old(mem), old(reg)@, base_inst(*inst), loaded),
        memory_effect(*old(mem), *final(mem), old(reg)@, base_inst(*inst), loaded),
{
    proof {
        if inst.spec_is_compressed() {
            crate::instructions::law_decompress(*inst);
        }
    }
    let (b, len) = if inst.is_compressed() {
        (decompress(inst), 2u32)
    } else {
        (*inst, 4u32)
    };
    let next = reg.pc().wrapping_add(len);
    if is_alu_exec(&b) {
        let v = alu(reg, &b);
        reg.write(dest_exec(&b), v);
        reg.set_pc(next);
        0
    } else if is_load_exec(&b) {
        exec_load(reg, mem, &b, next)
    } else if is_store_exec(&b) {
        exec_store(reg, mem, &b, next)
    } else if is_amo_exec(&b) {
        exec_amo(reg, mem, &b, next)
    } else {
        exec_control(reg, &b, next);
        0
    }
}

fn range_readable<P: MmapPeripheral>(mem: &Memory<P>, a: usize, w: usize) -> (r: bool)
    requires
        1 <= w <= 4,
    ensures
        r == (a + w <= usize::MAX + 1 && forall|i: int| a <= i < a + w ==> mem.readable(i)),
{
    if a > usize::MAX - (w - 1) {
        return false;
    }
    let mut k: usize = 0;
    while k < w
        invariant
            k <= w <= 4,
            a + w <= usize::MAX + 1,
            forall|i: int| a <= i < a + k ==> mem.readable(i),
        decreases w - k,
    {
        if !mem.is_readable(a + k) {
            return false;
        }
        k = k + 1;
    }
    true
}

fn range_writable<P: MmapPeripheral>(mem: &Memory<P>, a: usize, w: usize) -> (r: bool)
    requires
        1 <= w <= 4,
    ensures
        r == (a + w <= usize::MAX + 1 && forall|i: int| a <= i < a + w ==> mem.writable(i)),
{
    if a > usize::MAX - (w - 1) {
        return false;
    }
    let mut k: usize = 0;
    while k < w
        invariant
            k <= w <= 4,
            a + w <= usize::MAX + 1,
            forall|i: int| a <= i < a + k ==> mem.writable(i),
        decreases w - k,
    {
        if !mem.is_writable(a + k) {
            return false;
        }
        k = k + 1;
    }
    true
}

/// The address and width of the memory read of an instruction.
fn load_access_exec(reg: &Register, b: &Instruction) -> (r: Option<(usize, usize)>)
    requires
        reg.wf(),
        regs_in_range(*b),
    ensures
        match r {
            Some((a, w)) => load_access(reg@, *b) == Some((a as int, w as int)) && 1 <= w <= 4,
            None => load_access(reg@, *b) is None,
        },
{
    proof { reg.lemma_view_shape(); }
    match *b {
        Instruction::LB(_, rs1, imm) | Instruction::LBU(_, rs1, imm) =>
            Some((reg.read(rs1).wrapping_add_signed(imm) as usize, 1)),
        Instruction::LH(_, rs1, imm) | Instruction::LHU(_, rs1, imm) =>
            Some((reg.read(rs1).wrapping_add_signed(imm) as usize, 2)),
        Instruction::LW(_, rs1, imm) => Some((reg.read(rs1).wrapping_add_signed(imm) as usize, 4)),
        Instruction::LRW(_, rs1) | Instruction::AMOSWAPW(_, rs1, _) | Instruction::AMOADDW(_, rs1, _)
        | Instruction::AMOXORW(_, rs1, _) | Instruction::AMOANDW(_, rs1, _) | Instruction::AMOORW(_, rs1, _)
        | Instruction::AMOMINW(_, rs1, _) | Instruction::AMOMAXW(_, rs1, _) | Instruction::AMOMINUW(_, rs1, _)
        | Instruction::AMOMAXUW(_, rs1, _) => Some((reg.read(rs1) as usize, 4)),
        _ => None,
    }
}

/// The address and width of the memory write of an instruction.
fn store_target_exec(reg: &Register, b: &Instruction) -> (r: Option<(usize, usize)>)
    requires
        reg.wf(),
        regs_in_range(*b),
    ensures
        match r {
            Some((a, w)) => store_target(reg@, *b) == Some((a as int, w as int)) && 1 <= w <= 4,
            None => store_target(reg@, *b) is None,
        },
{
    proof { reg.lemma_view_shape(); }
    match *b {
        Instruction::SB(rs1, _, imm) => Some((reg.read(rs1).wrapping_add_signed(imm) as usize, 1)),
        Instruction::SH(rs1, _, imm) => Some((reg.read(rs1).wrapping_add_signed(imm) as usize, 2)),
        Instruction::SW(rs1, _, imm) => Some((reg.read(rs1).wrapping_add_signed(imm) as usize, 4)),
        Instruction::SCW(_, rs1, _) | Instruction::AMOSWAPW(_, rs1, _) | Instruction::AMOADDW(_, rs1, _)
        | Instruction::AMOXORW(_, rs1, _) | Instruction::AMOANDW(_, rs1, _) | Instruction::AMOORW(_, rs1, _)
        | Instruction::AMOMINW(_, rs1, _) | Instruction::AMOMAXW(_, rs1, _) | Instruction::AMOMINUW(_, rs1, _)
        | Instruction::AMOMAXUW(_, rs1, _) => Some((reg.read(rs1) as usize, 4)),
        _ => None,
    }
}

/// Whether the memory accesses of `b` stay inside the memory map.
pub fn access_allowed<P: MmapPeripheral>(mem: &Memory<P>, reg: &Register, b: &Instruction) -> (r: bool)
    requires
        reg.wf(),
        regs_in_range(*b),
    ensures
        r == access_ok(*mem, reg@, *b),
{
    let reads = match load_access_exec(reg, b) {
        Some((a, w)) => range_readable(mem, a, w),
        None => true,
    };
    let writes = match store_target_exec(reg, b) {
        Some((a, w)) => range_writable(mem, a, w),
        None => true,
    };
    reads && writes
}

/// Register `x0` reads as zero after every instruction.
pub proof fn law_x0_stays_zero(r: RegisterView, inst: Instruction, loaded: u32)
    requires
        r.x.len() == 32,
        r.x[0] == 0,
        regs_in_range(inst),
    ensures
        exec_spec(r, inst, loaded).x[0] == 0,
        exec_spec(r, inst, loaded).x.len() == 32,
{
    let b = base_inst(inst);
    if inst.spec_is_compressed() && inst.spec_has_expansion() {
        crate::instructions::law_decompress(inst);
    }
    assert(regs_in_range(b));
    let next = wrap(r.pc + inst_len(inst));
    let after = exec_spec(r, inst, loaded);
    assert(after.x == r.x || after.x == r.x.update(dest(b) as int, after.x[dest(b) as int]) && dest(b) != 0);
}

/// An instruction that neither jumps, branches nor returns from a trap moves the
/// program counter to the instruction right after it.
pub proof fn law_sequential_pc(r: RegisterView, inst: Instruction, loaded: u32)
    requires
        !is_control(base_inst(inst)) || base_inst(inst) matches Instruction::FENCE(..)
            || base_inst(inst) matches Instruction::ECALL() || base_inst(inst) matches Instruction::EBREAK()
            || base_inst(inst) matches Instruction::WFI() || base_inst(inst).spec_is_zicsr(),
    ensures
        exec_spec(r, inst, loaded).pc == wrap(r.pc + inst_len(inst)),
{
}

/// Executing an instruction never changes ROM, nor where RAM, ROM and the UART lie.
pub proof fn law_rom_unchanged<P: MmapPeripheral>(
    m0: Memory<P>,
    m1: Memory<P>,
    r: RegisterView,
    b: Instruction,
    loaded: u32,
)
    requires
        memory_effect(m0, m1, r, b, loaded),
    ensures
        m1.rom@ == m0.rom@,
        m1.same_layout(&m0),
{
}

} // verus!
