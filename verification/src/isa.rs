//! Laws of the instruction set, stated in terms of the fields of the
//! instructions and the words they come from: what executing an instruction
//! leaves in its destination register, what a word decodes to, what a compressed
//! instruction stands for, and how an instruction is listed.
use vstd::prelude::*;
use crate::decoder::{decoder_q0, decoder_q1, decoder_q2};
use crate::decoder::decoder_q3;
use crate::executer::{exec_spec, load_access, store_target, store_value};
use crate::instructions::Instruction;
use crate::register::RegisterView;

verus! {

/// The register file after an instruction that writes `v` to `rd` and moves the
/// program counter on by `len` bytes: no other register changes.
pub open spec fn writes_rd(r: RegisterView, after: RegisterView, rd: usize, v: int, len: int) -> bool {
    &&& after.x.len() == 32
    &&& after.x[rd as int] as int == v
    &&& forall|j: int| 0 <= j < 32 && j != rd ==> #[trigger] after.x[j] == r.x[j]
    &&& after.csr == r.csr
    &&& after.pc as int == (r.pc + len) % 0x1_0000_0000
}

/// Register-register arithmetic writes `rd` with the operation applied to
/// `x[rs1]` and `x[rs2]`, in that order, modulo 2^32, and moves on by 4 bytes.
/// In particular `SUB` gives back `x[rs1]` when `x[rs2]` is added to its result.
pub proof fn law_register_arithmetic(r: RegisterView, rd: usize, rs1: usize, rs2: usize, v: u32)
    requires
        r.x.len() == 32,
        0 < rd < 32,
        rs1 < 32,
        rs2 < 32,
    ensures
        ({
            let a = r.x[rs1 as int];
            let b = r.x[rs2 as int];
            &&& writes_rd(r, exec_spec(r, Instruction::ADD(rd, rs1, rs2), v), rd, (a + b) % 0x1_0000_0000, 4)
            &&& writes_rd(r, exec_spec(r, Instruction::SUB(rd, rs1, rs2), v), rd, (a - b) % 0x1_0000_0000, 4)
            &&& (exec_spec(r, Instruction::SUB(rd, rs1, rs2), v).x[rd as int] + b) % 0x1_0000_0000 == a
            &&& writes_rd(r, exec_spec(r, Instruction::XOR(rd, rs1, rs2), v), rd, (a ^ b) as int, 4)
            &&& writes_rd(r, exec_spec(r, Instruction::OR(rd, rs1, rs2), v), rd, (a | b) as int, 4)
            &&& writes_rd(r, exec_spec(r, Instruction::AND(rd, rs1, rs2), v), rd, (a & b) as int, 4)
            &&& writes_rd(r, exec_spec(r, Instruction::SLT(rd, rs1, rs2), v), rd,
                if (a as i32) < (b as i32) { 1 } else { 0 }, 4)
            &&& writes_rd(r, exec_spec(r, Instruction::SLTU(rd, rs1, rs2), v), rd, if a < b { 1 } else { 0 }, 4)
            &&& writes_rd(r, exec_spec(r, Instruction::SLL(rd, rs1, rs2), v), rd, (a << (b & 31)) as int, 4)
            &&& writes_rd(r, exec_spec(r, Instruction::SRL(rd, rs1, rs2), v), rd, (a >> (b & 31)) as int, 4)
            &&& writes_rd(r, exec_spec(r, Instruction::SRA(rd, rs1, rs2), v), rd,
                (((a as i32) >> (b & 31)) as u32) as int, 4)
            &&& writes_rd(r, exec_spec(r, Instruction::MUL(rd, rs1, rs2), v), rd, (a * b) % 0x1_0000_0000, 4)
        }),
{
    let a = r.x[rs1 as int];
    let b = r.x[rs2 as int];
    crate::bits::lemma_masks(b);
    crate::bits::lemma_as_signed(a);
    crate::bits::lemma_as_signed(b);
    let s = exec_spec(r, Instruction::SUB(rd, rs1, rs2), v).x[rd as int];
    assert(s as int == (a - b) % 0x1_0000_0000);
    assert((s + b) % 0x1_0000_0000 == a) by (nonlinear_arith)
        requires s as int == (a - b) % 0x1_0000_0000, a < 0x1_0000_0000;
}

/// Register-immediate arithmetic writes `rd` with the operation applied to
/// `x[rs1]` and the immediate (modulo 2^32, that is sign-extended to 32 bits;
/// shift amounts are its low five bits), and moves on by 4 bytes. `LUI` writes the immediate and
/// `AUIPC` the immediate plus the program counter.
pub proof fn law_immediate_arithmetic(r: RegisterView, rd: usize, rs1: usize, imm: i32, v: u32)
    requires
        r.x.len() == 32,
        0 < rd < 32,
        rs1 < 32,
    ensures
        ({
            let a = r.x[rs1 as int];
            let i = (imm as int % 0x1_0000_0000) as u32;
            &&& writes_rd(r, exec_spec(r, Instruction::ADDI(rd, rs1, imm), v), rd, (a + imm) % 0x1_0000_0000, 4)
            &&& writes_rd(r, exec_spec(r, Instruction::XORI(rd, rs1, imm), v), rd, (a ^ i) as int, 4)
            &&& writes_rd(r, exec_spec(r, Instruction::ORI(rd, rs1, imm), v), rd, (a | i) as int, 4)
            &&& writes_rd(r, exec_spec(r, Instruction::ANDI(rd, rs1, imm), v), rd, (a & i) as int, 4)
            &&& writes_rd(r, exec_spec(r, Instruction::SLTI(rd, rs1, imm), v), rd,
                if (a as i32) < imm { 1 } else { 0 }, 4)
            &&& writes_rd(r, exec_spec(r, Instruction::SLTIU(rd, rs1, imm), v), rd, if a < i { 1 } else { 0 }, 4)
            &&& writes_rd(r, exec_spec(r, Instruction::SLLI(rd, rs1, imm), v), rd, (a << (i & 31)) as int, 4)
            &&& writes_rd(r, exec_spec(r, Instruction::SRLI(rd, rs1, imm), v), rd, (a >> (i & 31)) as int, 4)
            &&& writes_rd(r, exec_spec(r, Instruction::SRAI(rd, rs1, imm), v), rd,
                (((a as i32) >> (i & 31)) as u32) as int, 4)
            &&& writes_rd(r, exec_spec(r, Instruction::LUI(rd, imm), v), rd, i as int, 4)
            &&& writes_rd(r, exec_spec(r, Instruction::AUIPC(rd, imm), v), rd, (r.pc + imm) % 0x1_0000_0000, 4)
        }),
{
    let a = r.x[rs1 as int];
    let i = (imm as int % 0x1_0000_0000) as u32;
    crate::bits::lemma_masks(i);
    crate::bits::lemma_as_signed(a);
}

/// The compressed arithmetic instructions compute on their destination register
/// as their first operand (`C.MV` and `C.LI` do not read it) and move on by 2
/// bytes: `C.ADD rd, rs2` adds `x[rs2]` to `x[rd]`, `C.MV rd, rs2` copies
/// `x[rs2]`, `C.SUB`, `C.XOR`, `C.OR`, `C.AND` combine `x[rd]` with `x[rs2]`,
/// `C.ADDI` and `C.ANDI` with the immediate, `C.LI` loads the immediate and
/// the shifts shift `x[rd]` by the immediate's low five bits.
pub proof fn law_compressed_arithmetic(r: RegisterView, rd: usize, rs2: usize, imm: i32, v: u32)
    requires
        r.x.len() == 32,
        r.x[0] == 0,
        0 < rd < 32,
        rs2 < 32,
    ensures
        ({
            let d = r.x[rd as int];
            let b = r.x[rs2 as int];
            let i = (imm as int % 0x1_0000_0000) as u32;
            &&& writes_rd(r, exec_spec(r, Instruction::CADD(rd, rs2), v), rd, (d + b) % 0x1_0000_0000, 2)
            &&& writes_rd(r, exec_spec(r, Instruction::CMV(rd, rs2), v), rd, b as int, 2)
            &&& writes_rd(r, exec_spec(r, Instruction::CSUB(rd, rs2), v), rd, (d - b) % 0x1_0000_0000, 2)
            &&& writes_rd(r, exec_spec(r, Instruction::CXOR(rd, rs2), v), rd, (d ^ b) as int, 2)
            &&& writes_rd(r, exec_spec(r, Instruction::COR(rd, rs2), v), rd, (d | b) as int, 2)
            &&& writes_rd(r, exec_spec(r, Instruction::CAND(rd, rs2), v), rd, (d & b) as int, 2)
            &&& writes_rd(r, exec_spec(r, Instruction::CADDI(rd, imm), v), rd, (d + imm) % 0x1_0000_0000, 2)
            &&& writes_rd(r, exec_spec(r, Instruction::CANDI(rd, imm), v), rd, (d & i) as int, 2)
            &&& writes_rd(r, exec_spec(r, Instruction::CLI(rd, imm), v), rd, i as int, 2)
            &&& writes_rd(r, exec_spec(r, Instruction::CLUI(rd, imm), v), rd, i as int, 2)
            &&& writes_rd(r, exec_spec(r, Instruction::CSLLI(rd, imm), v), rd, (d << (i & 31)) as int, 2)
            &&& writes_rd(r, exec_spec(r, Instruction::CSRLI(rd, imm), v), rd, (d >> (i & 31)) as int, 2)
            &&& writes_rd(r, exec_spec(r, Instruction::CSRAI(rd, imm), v), rd,
                (((d as i32) >> (i & 31)) as u32) as int, 2)
        }),
{
    let i = (imm as int % 0x1_0000_0000) as u32;
    crate::bits::lemma_masks(i);
}

/// The register fields of a 32-bit word: `rd` in bits 11..7, `rs1` in bits
/// 19..15 and `rs2` in bits 24..20.
pub open spec fn word_rd(x: u32) -> usize {
    ((x >> 7) & 31) as usize
}

pub open spec fn word_rs1(x: u32) -> usize {
    ((x >> 15) & 31) as usize
}

pub open spec fn word_rs2(x: u32) -> usize {
    ((x >> 20) & 31) as usize
}

proof fn lemma_word_regs(x: u32)
    ensures
        word_rd(x) == decoder_q3::rd_of(x),
        word_rs1(x) == decoder_q3::rs1_of(x),
        word_rs2(x) == decoder_q3::rs2_of(x),
{
    crate::bits::lemma_shifted_fields(x, 7);
    crate::bits::lemma_shifted_fields(x, 15);
    crate::bits::lemma_shifted_fields(x, 20);
}

proof fn lemma_word_functs(x: u32)
    ensures
        (x >> 12) & 7 == decoder_q3::funct3_of(x),
        x >> 25 == decoder_q3::funct7_of(x),
        (x >> 27) == decoder_q3::funct5_of(x),
        crate::utils::field(x, 2, 5) == (x >> 2) & 31,
{
    crate::bits::lemma_shifted_fields(x, 12);
    crate::bits::lemma_shifted_fields(x, 25);
    crate::bits::lemma_shifted_fields(x, 27);
    crate::bits::lemma_shifted_fields(x, 2);
    crate::bits::lemma_masks(x);
    crate::bits::lemma_masks(x >> 25);
    crate::bits::lemma_masks(x >> 27);
}

proof fn lemma_word_fields(x: u32)
    ensures
        word_rd(x) == decoder_q3::rd_of(x),
        word_rs1(x) == decoder_q3::rs1_of(x),
        word_rs2(x) == decoder_q3::rs2_of(x),
        (x >> 12) & 7 == decoder_q3::funct3_of(x),
        x >> 25 == decoder_q3::funct7_of(x),
        (x >> 27) == decoder_q3::funct5_of(x),
        crate::utils::field(x, 2, 5) == (x >> 2) & 31,
{
    lemma_word_regs(x);
    lemma_word_functs(x);
}

/// The I-format immediate is bits 31..20 read as a signed number.
#[verifier::spinoff_prover]
#[verifier::rlimit(30)]
proof fn lemma_imm_i(x: u32)
    ensures
        decoder_q3::imm_i(x) == ((x as i32) >> 20) as int,
{
    vstd::arithmetic::power2::lemma2_to64();
    crate::bits::lemma_shifted_fields(x, 20);
    crate::bits::lemma_shifted_fields(x, 31);
    crate::bits::lemma_masks(x);
    crate::bits::lemma_masks(x >> 20);
    crate::bits::lemma_masks(x >> 31);
    crate::bits::lemma_arith_shifts(x);
    if x >= 0x8000_0000 {
        assert(x >> 31 == 1);
    } else {
        assert(x >> 31 == 0);
    }
}

/// A branch word (opcode 0b1100011) decodes by its funct3 (bits 14..12): 0 to
/// `BEQ`, 1 to `BNE`, 4 to `BLT`, 5 to `BGE`, 6 to `BLTU`, 7 to `BGEU`, each
/// comparing `rs1` with `rs2`; 2 and 3 are refused.
#[verifier::spinoff_prover]
#[verifier::rlimit(30)]
pub proof fn law_decode_branches(x: u32)
    requires
        x & 0x7F == 0x63,
    ensures
        ({
            let f3 = (x >> 12) & 7;
            let (a, b) = (word_rs1(x), word_rs2(x));
            &&& f3 == 0 ==> (decoder_q3::decode_spec(x) matches Ok(Instruction::BEQ(p, q, _)) && p == a && q == b)
            &&& f3 == 1 ==> (decoder_q3::decode_spec(x) matches Ok(Instruction::BNE(p, q, _)) && p == a && q == b)
            &&& f3 == 4 ==> (decoder_q3::decode_spec(x) matches Ok(Instruction::BLT(p, q, _)) && p == a && q == b)
            &&& f3 == 5 ==> (decoder_q3::decode_spec(x) matches Ok(Instruction::BGE(p, q, _)) && p == a && q == b)
            &&& f3 == 6 ==> (decoder_q3::decode_spec(x) matches Ok(Instruction::BLTU(p, q, _)) && p == a && q == b)
            &&& f3 == 7 ==> (decoder_q3::decode_spec(x) matches Ok(Instruction::BGEU(p, q, _)) && p == a && q == b)
            &&& f3 == 2 || f3 == 3 ==> decoder_q3::decode_spec(x) is Err
        }),
{
    lemma_word_fields(x);
    crate::bits::lemma_opcodes(x);
}

/// A register-register word (opcode 0b0110011) decodes by funct7 (bits 31..25)
/// and funct3 (bits 14..12) as the RISC-V base and M extension tables give,
/// with the operands `rd`, `rs1`, `rs2` in that order.
#[verifier::spinoff_prover]
#[verifier::rlimit(30)]
pub proof fn law_decode_register_ops(x: u32)
    requires
        x & 0x7F == 0x33,
    ensures
        ({
            let f3 = (x >> 12) & 7;
            let f7 = x >> 25;
            let (d, a, b) = (word_rd(x), word_rs1(x), word_rs2(x));
            let r = decoder_q3::decode_spec(x);
            &&& f7 == 0 && f3 == 0 ==> r == Ok::<Instruction, &'static str>(Instruction::ADD(d, a, b))
            &&& f7 == 0x20 && f3 == 0 ==> r == Ok::<Instruction, &'static str>(Instruction::SUB(d, a, b))
            &&& f7 == 0 && f3 == 1 ==> r == Ok::<Instruction, &'static str>(Instruction::SLL(d, a, b))
            &&& f7 == 0 && f3 == 2 ==> r == Ok::<Instruction, &'static str>(Instruction::SLT(d, a, b))
            &&& f7 == 0 && f3 == 3 ==> r == Ok::<Instruction, &'static str>(Instruction::SLTU(d, a, b))
            &&& f7 == 0 && f3 == 4 ==> r == Ok::<Instruction, &'static str>(Instruction::XOR(d, a, b))
            &&& f7 == 0 && f3 == 5 ==> r == Ok::<Instruction, &'static str>(Instruction::SRL(d, a, b))
            &&& f7 == 0x20 && f3 == 5 ==> r == Ok::<Instruction, &'static str>(Instruction::SRA(d, a, b))
            &&& f7 == 0 && f3 == 6 ==> r == Ok::<Instruction, &'static str>(Instruction::OR(d, a, b))
            &&& f7 == 0 && f3 == 7 ==> r == Ok::<Instruction, &'static str>(Instruction::AND(d, a, b))
            &&& f7 == 1 && f3 == 0 ==> r == Ok::<Instruction, &'static str>(Instruction::MUL(d, a, b))
            &&& f7 == 1 && f3 == 1 ==> r == Ok::<Instruction, &'static str>(Instruction::MULH(d, a, b))
            &&& f7 == 1 && f3 == 2 ==> r == Ok::<Instruction, &'static str>(Instruction::MULHSU(d, a, b))
            &&& f7 == 1 && f3 == 3 ==> r == Ok::<Instruction, &'static str>(Instruction::MULHU(d, a, b))
            &&& f7 == 1 && f3 == 4 ==> r == Ok::<Instruction, &'static str>(Instruction::DIV(d, a, b))
            &&& f7 == 1 && f3 == 5 ==> r == Ok::<Instruction, &'static str>(Instruction::DIVU(d, a, b))
            &&& f7 == 1 && f3 == 6 ==> r == Ok::<Instruction, &'static str>(Instruction::REM(d, a, b))
            &&& f7 == 1 && f3 == 7 ==> r == Ok::<Instruction, &'static str>(Instruction::REMU(d, a, b))
            &&& f7 == 1 ==> r is Ok && r->Ok_0.spec_is_m()
            &&& (f7 == 0 || f7 == 0x20) ==> r is Ok && !r->Ok_0.spec_is_m()
        }),
{
    lemma_word_fields(x);
    crate::bits::lemma_opcodes(x);
}

/// A register-immediate word (opcode 0b0010011) decodes by funct3 (bits 14..12)
/// to `ADDI`, `SLLI`, `SLTI`, `SLTIU`, `XORI`, `SRLI`/`SRAI` (bit 30 clear/set),
/// `ORI` and `ANDI`, with `rd`, `rs1` and the immediate bits 31..20 read as a
/// signed number.
#[verifier::spinoff_prover]
#[verifier::rlimit(30)]
pub proof fn law_decode_immediate_ops(x: u32)
    requires
        x & 0x7F == 0x13,
    ensures
        ({
            let f3 = (x >> 12) & 7;
            let (d, a) = (word_rd(x), word_rs1(x));
            let i = (x as i32) >> 20;
            let r = decoder_q3::decode_spec(x);
            &&& f3 == 0 ==> r == Ok::<Instruction, &'static str>(Instruction::ADDI(d, a, i))
            &&& f3 == 1 ==> r == Ok::<Instruction, &'static str>(Instruction::SLLI(d, a, i))
            &&& f3 == 2 ==> r == Ok::<Instruction, &'static str>(Instruction::SLTI(d, a, i))
            &&& f3 == 3 ==> r == Ok::<Instruction, &'static str>(Instruction::SLTIU(d, a, i))
            &&& f3 == 4 ==> r == Ok::<Instruction, &'static str>(Instruction::XORI(d, a, i))
            &&& f3 == 5 && (x >> 30) & 1 == 0 ==> r == Ok::<Instruction, &'static str>(Instruction::SRLI(d, a, i))
            &&& f3 == 5 && (x >> 30) & 1 == 1 ==> r == Ok::<Instruction, &'static str>(Instruction::SRAI(d, a, i))
            &&& f3 == 6 ==> r == Ok::<Instruction, &'static str>(Instruction::ORI(d, a, i))
            &&& f3 == 7 ==> r == Ok::<Instruction, &'static str>(Instruction::ANDI(d, a, i))
        }),
{
    lemma_word_fields(x);
    vstd::arithmetic::power2::lemma2_to64();
    crate::bits::lemma_opcodes(x);
    crate::bits::lemma_shifted_fields(x, 30);
    lemma_imm_i(x);
}

/// A load word (opcode 0b0000011) decodes by funct3 to `LB`, `LH`, `LW`, `LBU`,
/// `LHU` (0, 1, 2, 4, 5) into `rd` from `rs1` plus the signed immediate in
/// bits 31..20; a store word (opcode 0b0100011)
/// to `SB`, `SH`, `SW` (0, 1, 2) of `rs2` at `rs1`.
#[verifier::spinoff_prover]
#[verifier::rlimit(30)]
pub proof fn law_decode_loads_stores(x: u32)
    ensures
        ({
            let f3 = (x >> 12) & 7;
            let (d, a, b) = (word_rd(x), word_rs1(x), word_rs2(x));
            let i = (x as i32) >> 20;
            let r = decoder_q3::decode_spec(x);
            &&& x & 0x7F == 0x03 ==> {
                &&& f3 == 0 ==> r == Ok::<Instruction, &'static str>(Instruction::LB(d, a, i))
                &&& f3 == 1 ==> r == Ok::<Instruction, &'static str>(Instruction::LH(d, a, i))
                &&& f3 == 2 ==> r == Ok::<Instruction, &'static str>(Instruction::LW(d, a, i))
                &&& f3 == 4 ==> r == Ok::<Instruction, &'static str>(Instruction::LBU(d, a, i))
                &&& f3 == 5 ==> r == Ok::<Instruction, &'static str>(Instruction::LHU(d, a, i))
            }
            &&& x & 0x7F == 0x23 ==> {
                &&& f3 == 0 ==> (r matches Ok(Instruction::SB(p, q, _)) && p == a && q == b)
                &&& f3 == 1 ==> (r matches Ok(Instruction::SH(p, q, _)) && p == a && q == b)
                &&& f3 == 2 ==> (r matches Ok(Instruction::SW(p, q, _)) && p == a && q == b)
            }
        }),
{
    lemma_word_fields(x);
    crate::bits::lemma_opcodes(x);
    lemma_imm_i(x);
}

proof fn lemma_bit(x: u32, k: u32)
    requires
        k < 32,
    ensures
        crate::utils::field(x, k as nat, 1) == (x >> k) & 1,
{
    crate::bits::lemma_shifted_fields(x, k);
}

/// `C.BEQZ rs', offset` and `C.BNEZ rs', offset` decode back to the register
/// `x8 + rs'` and the offset they were encoded with: offset bits 8, 4..3, 7..6,
/// 2..1 and 5 go to bits 12, 11..10, 6..5, 4..3 and 2 of the halfword (the CB
/// format), `rs'` to bits 9..7. `u` is the 9-bit two's complement offset.
#[verifier::spinoff_prover]
#[verifier::rlimit(30)]
pub proof fn law_cb_round_trip(rs: u32, u: u32)
    requires
        rs < 8,
        u < 512,
        u % 2 == 0,
    ensures
        ({
            let x = 0xC001u32 | (rs << 7) | (((u >> 8) & 1) << 12) | (((u >> 3) & 3) << 10)
                | (((u >> 6) & 3) << 5) | (((u >> 1) & 3) << 3) | (((u >> 5) & 1) << 2);
            let o = if u >= 256 { u - 512 } else { u as int };
            &&& decoder_q1::decode_spec(x) == Ok::<Instruction, &'static str>(Instruction::CBEQZ((rs + 8) as usize, o as i32))
            &&& decoder_q1::decode_spec(x | 0x2000) == Ok::<Instruction, &'static str>(
                Instruction::CBNEZ((rs + 8) as usize, o as i32),
            )
        }),
{
    let x = 0xC001u32 | (rs << 7) | (((u >> 8) & 1) << 12) | (((u >> 3) & 3) << 10)
        | (((u >> 6) & 3) << 5) | (((u >> 1) & 3) << 3) | (((u >> 5) & 1) << 2);
    let y = x | 0x2000;
    vstd::arithmetic::power2::lemma2_to64();
    assert(
        (x >> 2) & 1 == (u >> 5) & 1 && (x >> 3) & 1 == (u >> 1) & 1 && (x >> 4) & 1 == (u >> 2) & 1
        && (x >> 5) & 1 == (u >> 6) & 1 && (x >> 6) & 1 == (u >> 7) & 1 && (x >> 10) & 1 == (u >> 3) & 1
        && (x >> 11) & 1 == (u >> 4) & 1 && (x >> 12) & 1 == (u >> 8) & 1 && x >> 13 == 6 && (x >> 7) & 7 == rs
        && (y >> 2) & 1 == (u >> 5) & 1 && (y >> 3) & 1 == (u >> 1) & 1 && (y >> 4) & 1 == (u >> 2) & 1
        && (y >> 5) & 1 == (u >> 6) & 1 && (y >> 6) & 1 == (u >> 7) & 1 && (y >> 10) & 1 == (u >> 3) & 1
        && (y >> 11) & 1 == (u >> 4) & 1 && (y >> 12) & 1 == (u >> 8) & 1 && y >> 13 == 7 && (y >> 7) & 7 == rs
        && u == 2 * ((u >> 1) & 1) + 4 * ((u >> 2) & 1) + 8 * ((u >> 3) & 1) + 16 * ((u >> 4) & 1)
            + 32 * ((u >> 5) & 1) + 64 * ((u >> 6) & 1) + 128 * ((u >> 7) & 1) + 256 * ((u >> 8) & 1)
    ) by (bit_vector)
        requires
            rs < 8, u < 512, u % 2 == 0,
            x == 0xC001u32 | (rs << 7) | (((u >> 8) & 1) << 12) | (((u >> 3) & 3) << 10)
                | (((u >> 6) & 3) << 5) | (((u >> 1) & 3) << 3) | (((u >> 5) & 1) << 2),
            y == x | 0x2000;
    lemma_bit(x, 2); lemma_bit(x, 3); lemma_bit(x, 4); lemma_bit(x, 5); lemma_bit(x, 6);
    lemma_bit(x, 10); lemma_bit(x, 11); lemma_bit(x, 12);
    lemma_bit(y, 2); lemma_bit(y, 3); lemma_bit(y, 4); lemma_bit(y, 5); lemma_bit(y, 6);
    lemma_bit(y, 10); lemma_bit(y, 11); lemma_bit(y, 12);
    crate::bits::lemma_shifted_fields(x, 13);
    crate::bits::lemma_shifted_fields(y, 13);
    crate::bits::lemma_shifted_fields(x, 7);
    crate::bits::lemma_shifted_fields(y, 7);
    assert(crate::utils::field(x, 7, 3) == rs as int);
    assert(crate::utils::field(y, 7, 3) == rs as int);
    assert(decoder_q1::decodable(x) && decoder_q1::decodable(y));
}

/// `C.J offset` and `C.JAL offset` decode back to the offset they were encoded
/// with: offset bits 11, 4, 9..8, 10, 6, 7, 3..1 and 5 go to bits 12, 11, 10..9,
/// 8, 7, 6, 5..3 and 2 of the halfword (the CJ format). `u` is the 12-bit two's
/// complement offset.
#[verifier::spinoff_prover]
#[verifier::rlimit(30)]
pub proof fn law_cj_round_trip(u: u32)
    requires
        u < 4096,
        u % 2 == 0,
    ensures
        ({
            let x = 0xA001u32 | (((u >> 11) & 1) << 12) | (((u >> 4) & 1) << 11) | (((u >> 8) & 3) << 9)
                | (((u >> 10) & 1) << 8) | (((u >> 6) & 1) << 7) | (((u >> 7) & 1) << 6)
                | (((u >> 1) & 7) << 3) | (((u >> 5) & 1) << 2);
            let o = if u >= 2048 { u - 4096 } else { u as int };
            &&& decoder_q1::decode_spec(x) == Ok::<Instruction, &'static str>(Instruction::CJ(o as i32))
            &&& decoder_q1::decode_spec(x ^ 0x8000) == Ok::<Instruction, &'static str>(Instruction::CJAL(o as i32))
        }),
{
    let x = 0xA001u32 | (((u >> 11) & 1) << 12) | (((u >> 4) & 1) << 11) | (((u >> 8) & 3) << 9)
        | (((u >> 10) & 1) << 8) | (((u >> 6) & 1) << 7) | (((u >> 7) & 1) << 6)
        | (((u >> 1) & 7) << 3) | (((u >> 5) & 1) << 2);
    let y = x ^ 0x8000;
    vstd::arithmetic::power2::lemma2_to64();
    assert(
        (x >> 2) & 1 == (u >> 5) & 1 && (x >> 3) & 1 == (u >> 1) & 1 && (x >> 4) & 1 == (u >> 2) & 1
        && (x >> 5) & 1 == (u >> 3) & 1 && (x >> 6) & 1 == (u >> 7) & 1 && (x >> 7) & 1 == (u >> 6) & 1
        && (x >> 8) & 1 == (u >> 10) & 1 && (x >> 9) & 1 == (u >> 8) & 1 && (x >> 10) & 1 == (u >> 9) & 1
        && (x >> 11) & 1 == (u >> 4) & 1 && (x >> 12) & 1 == (u >> 11) & 1 && x >> 13 == 5
        && (y >> 2) & 1 == (u >> 5) & 1 && (y >> 3) & 1 == (u >> 1) & 1 && (y >> 4) & 1 == (u >> 2) & 1
        && (y >> 5) & 1 == (u >> 3) & 1 && (y >> 6) & 1 == (u >> 7) & 1 && (y >> 7) & 1 == (u >> 6) & 1
        && (y >> 8) & 1 == (u >> 10) & 1 && (y >> 9) & 1 == (u >> 8) & 1 && (y >> 10) & 1 == (u >> 9) & 1
        && (y >> 11) & 1 == (u >> 4) & 1 && (y >> 12) & 1 == (u >> 11) & 1 && y >> 13 == 1
        && u == 2 * ((u >> 1) & 1) + 4 * ((u >> 2) & 1) + 8 * ((u >> 3) & 1) + 16 * ((u >> 4) & 1)
            + 32 * ((u >> 5) & 1) + 64 * ((u >> 6) & 1) + 128 * ((u >> 7) & 1) + 256 * ((u >> 8) & 1)
            + 512 * ((u >> 9) & 1) + 1024 * ((u >> 10) & 1) + 2048 * ((u >> 11) & 1)
    ) by (bit_vector)
        requires
            u < 4096, u % 2 == 0,
            x == 0xA001u32 | (((u >> 11) & 1) << 12) | (((u >> 4) & 1) << 11) | (((u >> 8) & 3) << 9)
                | (((u >> 10) & 1) << 8) | (((u >> 6) & 1) << 7) | (((u >> 7) & 1) << 6)
                | (((u >> 1) & 7) << 3) | (((u >> 5) & 1) << 2),
            y == x ^ 0x8000;
    lemma_bit(x, 2); lemma_bit(x, 3); lemma_bit(x, 4); lemma_bit(x, 5); lemma_bit(x, 6); lemma_bit(x, 7);
    lemma_bit(x, 8); lemma_bit(x, 9); lemma_bit(x, 10); lemma_bit(x, 11); lemma_bit(x, 12);
    lemma_bit(y, 2); lemma_bit(y, 3); lemma_bit(y, 4); lemma_bit(y, 5); lemma_bit(y, 6); lemma_bit(y, 7);
    lemma_bit(y, 8); lemma_bit(y, 9); lemma_bit(y, 10); lemma_bit(y, 11); lemma_bit(y, 12);
    crate::bits::lemma_shifted_fields(x, 13);
    crate::bits::lemma_shifted_fields(y, 13);
    assert(decoder_q1::decodable(x) && decoder_q1::decodable(y));
}

/// `C.LI rd, imm` and `C.ADDI rd, imm` decode back to the register and the
/// immediate they were encoded with: immediate bit 5 goes to bit 12 and bits
/// 4..0 to bits 6..2 of the halfword (the CI format), `rd` to bits 11..7. `u`
/// is the 6-bit two's complement immediate.
#[verifier::spinoff_prover]
#[verifier::rlimit(30)]
pub proof fn law_ci_round_trip(rd: u32, u: u32)
    requires
        rd < 32,
        u < 64,
    ensures
        ({
            let x = 0x4001u32 | (((u >> 5) & 1) << 12) | (rd << 7) | ((u & 31) << 2);
            let o = if u >= 32 { u - 64 } else { u as int };
            &&& decoder_q1::decode_spec(x) == Ok::<Instruction, &'static str>(Instruction::CLI(rd as usize, o as i32))
            &&& decoder_q1::decode_spec(x ^ 0x4000) == Ok::<Instruction, &'static str>(
                Instruction::CADDI(rd as usize, o as i32),
            )
        }),
{
    let x = 0x4001u32 | (((u >> 5) & 1) << 12) | (rd << 7) | ((u & 31) << 2);
    let y = x ^ 0x4000;
    vstd::arithmetic::power2::lemma2_to64();
    assert(
        (x >> 12) & 1 == (u >> 5) & 1 && (x >> 2) & 31 == u & 31 && (x >> 7) & 31 == rd && x >> 13 == 2
        && (y >> 12) & 1 == (u >> 5) & 1 && (y >> 2) & 31 == u & 31 && (y >> 7) & 31 == rd && y >> 13 == 0
        && y != 0 && u == (u & 31) + 32 * ((u >> 5) & 1)
    ) by (bit_vector)
        requires
            rd < 32, u < 64,
            x == 0x4001u32 | (((u >> 5) & 1) << 12) | (rd << 7) | ((u & 31) << 2),
            y == x ^ 0x4000;
    lemma_bit(x, 12);
    lemma_bit(y, 12);
    crate::bits::lemma_shifted_fields(x, 13);
    crate::bits::lemma_shifted_fields(y, 13);
    crate::bits::lemma_shifted_fields(x, 2);
    crate::bits::lemma_shifted_fields(y, 2);
    crate::bits::lemma_shifted_fields(x, 7);
    crate::bits::lemma_shifted_fields(y, 7);
    assert(decoder_q1::decodable(x) && decoder_q1::decodable(y));
}

/// Branches leave the registers alone and go to the program counter plus the
/// offset, modulo 2^32, exactly when their comparison of `x[rs1]` with `x[rs2]`
/// holds (`BLT` and `BGE` compare as signed numbers, `BLTU` and `BGEU` as
/// unsigned ones), and to the next instruction otherwise. `C.BEQZ` and `C.BNEZ`
/// test `x[rs1]` against zero and fall through by 2 bytes.
pub proof fn law_branches(r: RegisterView, rs1: usize, rs2: usize, imm: i32, v: u32)
    requires
        r.x.len() == 32,
        r.x[0] == 0,
        rs1 < 32,
        rs2 < 32,
    ensures
        ({
            let a = r.x[rs1 as int];
            let b = r.x[rs2 as int];
            let target = (r.pc + imm) % 0x1_0000_0000;
            let next = (r.pc + 4) % 0x1_0000_0000;
            let goes = |i: Instruction, c: bool| {
                let after = exec_spec(r, i, v);
                &&& after.x == r.x
                &&& after.csr == r.csr
                &&& after.pc as int == if c { target } else { next }
            };
            &&& goes(Instruction::BEQ(rs1, rs2, imm), a == b)
            &&& goes(Instruction::BNE(rs1, rs2, imm), a != b)
            &&& goes(Instruction::BLT(rs1, rs2, imm), (a as i32) < (b as i32))
            &&& goes(Instruction::BGE(rs1, rs2, imm), (a as i32) >= (b as i32))
            &&& goes(Instruction::BLTU(rs1, rs2, imm), a < b)
            &&& goes(Instruction::BGEU(rs1, rs2, imm), a >= b)
            &&& exec_spec(r, Instruction::CBEQZ(rs1, imm), v).pc as int
                == if a == 0 { target } else { (r.pc + 2) % 0x1_0000_0000 }
            &&& exec_spec(r, Instruction::CBNEZ(rs1, imm), v).pc as int
                == if a != 0 { target } else { (r.pc + 2) % 0x1_0000_0000 }
        }),
{
    let a = r.x[rs1 as int];
    let b = r.x[rs2 as int];
    crate::bits::lemma_as_signed(a);
    crate::bits::lemma_as_signed(b);
}

/// Jumps write the address of the next instruction to `rd` and go to the
/// program counter plus the offset (`JAL`), or to `x[rs1]` plus the offset with
/// the lowest bit cleared (`JALR`), modulo 2^32. `C.J` and `C.JAL` jump by the
/// offset, the latter linking `ra`; `C.JR` and `C.JALR` go to `x[rs1]`, the
/// latter linking `ra`; the link of a compressed jump is 2 bytes on.
pub proof fn law_jumps(r: RegisterView, rd: usize, rs1: usize, imm: i32, v: u32)
    requires
        r.x.len() == 32,
        r.x[0] == 0,
        0 < rd < 32,
        rs1 < 32,
    ensures
        ({
            let a = r.x[rs1 as int];
            let t = (a + imm) % 0x1_0000_0000;
            let jal = exec_spec(r, Instruction::JAL(rd, imm), v);
            let jalr = exec_spec(r, Instruction::JALR(rd, rs1, imm), v);
            &&& jal.x[rd as int] as int == (r.pc + 4) % 0x1_0000_0000
            &&& jal.pc as int == (r.pc + imm) % 0x1_0000_0000
            &&& jalr.x[rd as int] as int == (r.pc + 4) % 0x1_0000_0000
            &&& jalr.pc as int == t - t % 2
            &&& exec_spec(r, Instruction::CJ(imm), v).pc as int == (r.pc + imm) % 0x1_0000_0000
            &&& exec_spec(r, Instruction::CJ(imm), v).x == r.x
            &&& exec_spec(r, Instruction::CJAL(imm), v).pc as int == (r.pc + imm) % 0x1_0000_0000
            &&& exec_spec(r, Instruction::CJAL(imm), v).x[1] as int == (r.pc + 2) % 0x1_0000_0000
            &&& exec_spec(r, Instruction::CJR(rs1), v).pc as int == a - a % 2
            &&& exec_spec(r, Instruction::CJALR(rs1), v).pc as int == a - a % 2
            &&& exec_spec(r, Instruction::CJALR(rs1), v).x[1] as int == (r.pc + 2) % 0x1_0000_0000
        }),
{
    let a = r.x[rs1 as int];
    let w = crate::executer::wrap(a + imm);
    crate::bits::lemma_masks(w);
    let w0 = crate::executer::wrap(a + 0);
    crate::bits::lemma_masks(w0);
}

/// CSR instructions write the old value of the CSR to `rd` and replace the CSR
/// by `x[rs1]` (`CSRRW`), set the bits of `x[rs1]` in it (`CSRRS`) or clear
/// them (`CSRRC`); the immediate forms use the 5-bit value of the `rs1` field.
pub proof fn law_csr(r: RegisterView, rd: usize, rs1: usize, c: u32, v: u32)
    requires
        r.x.len() == 32,
        r.x[0] == 0,
        r.csr.len() == 4096,
        0 < rd < 32,
        rs1 < 32,
        c < 4096,
    ensures
        ({
            let a = r.x[rs1 as int];
            let old = r.csr[c as int];
            let z = rs1 as u32;
            let w = exec_spec(r, Instruction::CSRRW(rd, rs1, c), v);
            let s = exec_spec(r, Instruction::CSRRS(rd, rs1, c), v);
            let k = exec_spec(r, Instruction::CSRRC(rd, rs1, c), v);
            let wi = exec_spec(r, Instruction::CSRRWI(rd, rs1, c), v);
            let si = exec_spec(r, Instruction::CSRRSI(rd, rs1, c), v);
            let ki = exec_spec(r, Instruction::CSRRCI(rd, rs1, c), v);
            &&& w.x[rd as int] == old && w.csr[c as int] == a
            &&& s.x[rd as int] == old && s.csr[c as int] == old | a
            &&& k.x[rd as int] == old && k.csr[c as int] == old & !a
            &&& wi.x[rd as int] == old && wi.csr[c as int] == z
            &&& si.x[rd as int] == old && si.csr[c as int] == old | z
            &&& ki.x[rd as int] == old && ki.csr[c as int] == old & !z
            &&& forall|j: int| 0 <= j < 4096 && j != c ==> #[trigger] w.csr[j] == r.csr[j]
        }),
{
}

/// Loads read from `x[rs1]` plus the offset, modulo 2^32, as many bytes as
/// their width, and write what they read to `rd`: `LB` and `LH` sign-extend
/// the byte or halfword, `LBU` and `LHU` zero-extend it, `LW` takes the word.
pub proof fn law_loads(r: RegisterView, rd: usize, rs1: usize, imm: i32, v: u32)
    requires
        r.x.len() == 32,
        0 < rd < 32,
        rs1 < 32,
    ensures
        ({
            let at = (r.x[rs1 as int] + imm) % 0x1_0000_0000;
            &&& load_access(r, Instruction::LB(rd, rs1, imm)) == Some((at, 1int))
            &&& load_access(r, Instruction::LBU(rd, rs1, imm)) == Some((at, 1int))
            &&& load_access(r, Instruction::LH(rd, rs1, imm)) == Some((at, 2int))
            &&& load_access(r, Instruction::LHU(rd, rs1, imm)) == Some((at, 2int))
            &&& load_access(r, Instruction::LW(rd, rs1, imm)) == Some((at, 4int))
            &&& v < 256 ==> writes_rd(r, exec_spec(r, Instruction::LB(rd, rs1, imm), v), rd,
                ((v as u8) as i8 as i32 as u32) as int, 4)
            &&& writes_rd(r, exec_spec(r, Instruction::LBU(rd, rs1, imm), v), rd, v as int, 4)
            &&& v < 0x1_0000 ==> writes_rd(r, exec_spec(r, Instruction::LH(rd, rs1, imm), v), rd,
                ((v as u16) as i16 as i32 as u32) as int, 4)
            &&& writes_rd(r, exec_spec(r, Instruction::LHU(rd, rs1, imm), v), rd, v as int, 4)
            &&& writes_rd(r, exec_spec(r, Instruction::LW(rd, rs1, imm), v), rd, v as int, 4)
        }),
{
    crate::bits::lemma_sign_extension(v);
}

/// Stores write the low 1, 2 or 4 bytes of `x[rs2]` at `x[rs1]` plus the offset,
/// modulo 2^32; the atomic memory operations write at `x[rs1]` the word read
/// there combined with `x[rs2]`.
pub proof fn law_stores(r: RegisterView, rd: usize, rs1: usize, rs2: usize, imm: i32, v: u32)
    requires
        r.x.len() == 32,
        rs1 < 32,
        rs2 < 32,
    ensures
        ({
            let at = (r.x[rs1 as int] + imm) % 0x1_0000_0000;
            let a = r.x[rs1 as int] as int;
            let b = r.x[rs2 as int];
            &&& store_target(r, Instruction::SB(rs1, rs2, imm)) == Some((at, 1int))
            &&& store_target(r, Instruction::SH(rs1, rs2, imm)) == Some((at, 2int))
            &&& store_target(r, Instruction::SW(rs1, rs2, imm)) == Some((at, 4int))
            &&& store_value(r, Instruction::SB(rs1, rs2, imm), v) == b
            &&& store_value(r, Instruction::SH(rs1, rs2, imm), v) == b
            &&& store_value(r, Instruction::SW(rs1, rs2, imm), v) == b
            &&& store_target(r, Instruction::AMOADDW(rd, rs1, rs2)) == Some((a, 4int))
            &&& store_value(r, Instruction::AMOSWAPW(rd, rs1, rs2), v) == b
            &&& store_value(r, Instruction::AMOADDW(rd, rs1, rs2), v) as int == (v + b) % 0x1_0000_0000
            &&& store_value(r, Instruction::AMOXORW(rd, rs1, rs2), v) == v ^ b
            &&& store_value(r, Instruction::AMOANDW(rd, rs1, rs2), v) == v & b
            &&& store_value(r, Instruction::AMOORW(rd, rs1, rs2), v) == v | b
            &&& store_value(r, Instruction::AMOMINW(rd, rs1, rs2), v) == if (v as i32) <= (b as i32) { v } else { b }
            &&& store_value(r, Instruction::AMOMAXW(rd, rs1, rs2), v) == if (v as i32) >= (b as i32) { v } else { b }
            &&& store_value(r, Instruction::AMOMINUW(rd, rs1, rs2), v) == if v <= b { v } else { b }
            &&& store_value(r, Instruction::AMOMAXUW(rd, rs1, rs2), v) == if v >= b { v } else { b }
        }),
{
    let b = r.x[rs2 as int];
    crate::bits::lemma_as_signed(v);
    crate::bits::lemma_as_signed(b);
}

proof fn lemma_wrap_signed(t: int)
    requires
        -0x8000_0000 <= t < 0x8000_0000,
    ensures
        (crate::executer::wrap(t) as i32) as int == t,
{
    let w = crate::executer::wrap(t);
    if t >= 0 {
        assert(t % 0x1_0000_0000 == t);
        assert(w as int == t);
        crate::bits::lemma_as_signed(w);
    } else {
        assert(t % 0x1_0000_0000 == t + 0x1_0000_0000);
        assert(w as int == t + 0x1_0000_0000);
        crate::bits::lemma_as_signed(w);
    }
}

/// Multiplication and division of the M extension. `MUL` gives the low word of
/// the product, `MULHU` the high word of the unsigned product and `MULH` that of
/// the signed one. Unsigned division and remainder give back the dividend:
/// `q * x[rs2] + r == x[rs1]` with `r < x[rs2]`. Signed division rounds towards
/// zero, so that `q * d + r == a` with `|r| < |d|` and `r` of the sign of `a`,
/// except that `i32::MIN / -1` gives `i32::MIN` with remainder 0. Division by
/// zero gives all ones and leaves the dividend as the remainder.
#[verifier::spinoff_prover]
#[verifier::rlimit(30)]
pub proof fn law_multiply_divide(r: RegisterView, rd: usize, rs1: usize, rs2: usize, v: u32)
    requires
        r.x.len() == 32,
        0 < rd < 32,
        rs1 < 32,
        rs2 < 32,
    ensures
        ({
            let a = r.x[rs1 as int];
            let b = r.x[rs2 as int];
            let sa = (a as i32) as int;
            let sb = (b as i32) as int;
            let at = |i: Instruction| exec_spec(r, i, v).x[rd as int];
            let q = at(Instruction::DIV(rd, rs1, rs2));
            let m = at(Instruction::REM(rd, rs1, rs2));
            let qu = at(Instruction::DIVU(rd, rs1, rs2));
            let mu = at(Instruction::REMU(rd, rs1, rs2));
            let qi = (q as i32) as int;
            let mi = (m as i32) as int;
            &&& at(Instruction::MULHU(rd, rs1, rs2)) as int == (a * b) / 0x1_0000_0000
            &&& at(Instruction::MULH(rd, rs1, rs2)) as int == ((sa * sb) / 0x1_0000_0000) % 0x1_0000_0000
            &&& b != 0 ==> qu * b + mu == a && mu < b
            &&& b == 0 ==> qu == 0xFFFF_FFFFu32 && mu == a && q == 0xFFFF_FFFFu32 && m == a
            &&& b != 0 && !(sa == -0x8000_0000 && sb == -1) ==> {
                &&& qi * sb + mi == sa
                &&& (-sb < mi < sb || sb < mi < -sb)
                &&& (mi == 0 || (mi < 0) == (sa < 0))
            }
            &&& sa == -0x8000_0000 && sb == -1 ==> q == a && m == 0
        }),
{
    let a = r.x[rs1 as int];
    let b = r.x[rs2 as int];
    let sa = (a as i32) as int;
    let sb = (b as i32) as int;
    crate::bits::lemma_as_signed(a);
    crate::bits::lemma_as_signed(b);
    assert(a * b <= 0xFFFF_FFFF * 0xFFFF_FFFF) by (nonlinear_arith)
        requires a <= 0xFFFF_FFFF, b <= 0xFFFF_FFFF;
    assert(0 <= (a * b) / 0x1_0000_0000 < 0x1_0000_0000) by (nonlinear_arith)
        requires 0 <= a * b <= 0xFFFF_FFFF * 0xFFFF_FFFF;
    if b != 0 {
        vstd::arithmetic::div_mod::lemma_fundamental_div_mod(a as int, b as int);
        vstd::arithmetic::div_mod::lemma_mod_pos_bound(a as int, b as int);
        let qd = a as int / b as int;
        let rm = a as int % b as int;
        assert(qd * b + rm == a) by (nonlinear_arith) requires a == b * qd + rm;
        let ab = crate::executer::abs(sa);
        let bb = crate::executer::abs(sb);
        vstd::arithmetic::div_mod::lemma_fundamental_div_mod(ab, bb);
        vstd::arithmetic::div_mod::lemma_mod_pos_bound(ab, bb);
        let qq = ab / bb;
        assert(0 <= qq <= ab) by (nonlinear_arith) requires ab >= 0, bb >= 1, qq == ab / bb;
        let t = crate::executer::tdiv(sa, sb);
        let u = crate::executer::trem(sa, sb);
        assert(t * sb + u == sa) by (nonlinear_arith)
            requires
                ab == bb * qq + ab % bb,
                ab == if sa < 0 { -sa } else { sa },
                bb == if sb < 0 { -sb } else { sb },
                t == if (sa < 0) != (sb < 0) { -qq } else { qq },
                u == if sa < 0 { -(ab % bb) } else { ab % bb };
        if bb >= 2 {
            vstd::arithmetic::div_mod::lemma_div_is_ordered_by_denominator(ab, 2, bb);
        }
        assert(bb <= 0x8000_0000 && ab <= 0x8000_0000);
        assert(-0x8000_0000 < u < 0x8000_0000);
        if !(sa == -0x8000_0000 && sb == -1) {
            assert(-0x8000_0000 <= t < 0x8000_0000) by (nonlinear_arith)
                requires
                    0 <= qq <= ab, ab <= 0x8000_0000, bb >= 1,
                    t == if (sa < 0) != (sb < 0) { -qq } else { qq },
                    ab == 0x8000_0000 && (sa < 0) == (sb < 0) ==> bb >= 2,
                    bb >= 2 ==> qq <= ab / 2,
                    -0x8000_0000 <= sa < 0x8000_0000,
                    ab == if sa < 0 { -sa } else { sa },
                    !(sa == -0x8000_0000 && sb == -1),
                    bb == if sb < 0 { -sb } else { sb };
            let qw = crate::executer::wrap(t);
            let mw = crate::executer::wrap(u);
            lemma_wrap_signed(t);
            lemma_wrap_signed(u);
        }
    }
}

/// The compressed stack and memory instructions: `C.ADDI4SPN` writes `sp` plus
/// the immediate to `rd`, `C.ADDI16SP` adds the immediate to `sp`; `C.LW` and
/// `C.SW` access the word at `x[rs1]` plus the offset, `C.LWSP` and `C.SWSP` the
/// word at `sp` plus the offset; the loads write the word read to `rd`.
pub proof fn law_compressed_memory(r: RegisterView, rd: usize, rs1: usize, rs2: usize, imm: i32, v: u32)
    requires
        r.x.len() == 32,
        0 < rd < 32,
        rs1 < 32,
        rs2 < 32,
    ensures
        ({
            let sp = r.x[2];
            let at = (r.x[rs1 as int] + imm) % 0x1_0000_0000;
            let at_sp = (sp + imm) % 0x1_0000_0000;
            let base = |i: Instruction| crate::executer::base_inst(i);
            &&& writes_rd(r, exec_spec(r, Instruction::CADDI4SPN(rd, imm), v), rd, at_sp, 2)
            &&& writes_rd(r, exec_spec(r, Instruction::CADDI16SP(2, imm), v), 2, at_sp, 2)
            &&& load_access(r, base(Instruction::CLW(rd, rs1, imm))) == Some((at, 4int))
            &&& writes_rd(r, exec_spec(r, Instruction::CLW(rd, rs1, imm), v), rd, v as int, 2)
            &&& load_access(r, base(Instruction::CLWSP(rd, imm))) == Some((at_sp, 4int))
            &&& writes_rd(r, exec_spec(r, Instruction::CLWSP(rd, imm), v), rd, v as int, 2)
            &&& store_target(r, base(Instruction::CSW(rs1, rs2, imm))) == Some((at, 4int))
            &&& store_value(r, base(Instruction::CSW(rs1, rs2, imm)), v) == r.x[rs2 as int]
            &&& store_target(r, base(Instruction::CSWSP(rs2, imm))) == Some((at_sp, 4int))
            &&& store_value(r, base(Instruction::CSWSP(rs2, imm)), v) == r.x[rs2 as int]
        }),
{
}

proof fn lemma_fields_at(x: u32, k: u32)
    requires
        k < 32,
    ensures
        crate::utils::field(x, k as nat, 1) == (x >> k) & 1,
        crate::utils::field(x, k as nat, 2) == (x >> k) & 3,
        crate::utils::field(x, k as nat, 3) == (x >> k) & 7,
        crate::utils::field(x, k as nat, 4) == (x >> k) & 15,
        crate::utils::field(x, k as nat, 5) == (x >> k) & 31,
{
    crate::bits::lemma_shifted_fields(x, k);
}

/// `C.LW rd', offset(rs1')` and `C.SW rs2', offset(rs1')` decode back to the
/// registers `x8 + rd'`, `x8 + rs1'` and the offset they were encoded with:
/// offset bits 5..3 go to bits 12..10, bit 2 to bit 6 and bit 6 to bit 5 (the
/// CL and CS formats), `rs1'` to bits 9..7 and `rd'`/`rs2'` to bits 4..2.
#[verifier::spinoff_prover]
#[verifier::rlimit(30)]
pub proof fn law_cl_cs_round_trip(rd: u32, rs1: u32, u: u32)
    requires
        rd < 8,
        rs1 < 8,
        u < 128,
        u % 4 == 0,
    ensures
        ({
            let x = 0x4000u32 | (((u >> 3) & 7) << 10) | (rs1 << 7) | (((u >> 2) & 1) << 6) | (((u >> 6) & 1) << 5)
                | (rd << 2);
            &&& decoder_q0::decode_spec(x) == Ok::<Instruction, &'static str>(
                Instruction::CLW((rd + 8) as usize, (rs1 + 8) as usize, u as i32),
            )
            &&& decoder_q0::decode_spec(x | 0x8000) == Ok::<Instruction, &'static str>(
                Instruction::CSW((rs1 + 8) as usize, (rd + 8) as usize, u as i32),
            )
        }),
{
    vstd::arithmetic::power2::lemma2_to64();
    let x = 0x4000u32 | (((u >> 3) & 7) << 10) | (rs1 << 7) | (((u >> 2) & 1) << 6) | (((u >> 6) & 1) << 5)
        | (rd << 2);
    let y = x | 0x8000;
    assert(
        (x >> 10) & 7 == (u >> 3) & 7 && (x >> 7) & 7 == rs1 && (x >> 6) & 1 == (u >> 2) & 1
        && (x >> 5) & 1 == (u >> 6) & 1 && (x >> 2) & 7 == rd && x >> 13 == 2
        && (y >> 10) & 7 == (u >> 3) & 7 && (y >> 7) & 7 == rs1 && (y >> 6) & 1 == (u >> 2) & 1
        && (y >> 5) & 1 == (u >> 6) & 1 && (y >> 2) & 7 == rd && y >> 13 == 6
        && u == 4 * ((u >> 2) & 1) + 8 * ((u >> 3) & 7) + 64 * ((u >> 6) & 1)
    ) by (bit_vector)
        requires
            rd < 8, rs1 < 8, u < 128, u % 4 == 0,
            x == 0x4000u32 | (((u >> 3) & 7) << 10) | (rs1 << 7) | (((u >> 2) & 1) << 6) | (((u >> 6) & 1) << 5)
                | (rd << 2),
            y == x | 0x8000;
    lemma_fields_at(x, 10); lemma_fields_at(x, 7); lemma_fields_at(x, 6); lemma_fields_at(x, 5); lemma_fields_at(x, 2);
    lemma_fields_at(y, 10); lemma_fields_at(y, 7); lemma_fields_at(y, 6); lemma_fields_at(y, 5); lemma_fields_at(y, 2);
    crate::bits::lemma_shifted_fields(x, 13);
    crate::bits::lemma_shifted_fields(y, 13);
}

/// `C.ADDI4SPN rd', imm` decodes back to `x8 + rd'` and the (non-zero, multiple of
/// 4) immediate it was encoded with: immediate bits 5..4 go to bits 12..11, bits
/// 9..6 to bits 10..7, bit 2 to bit 6 and bit 3 to bit 5 (the CIW format).
#[verifier::spinoff_prover]
#[verifier::rlimit(30)]
pub proof fn law_ciw_round_trip(rd: u32, u: u32)
    requires
        rd < 8,
        0 < u < 1024,
        u % 4 == 0,
    ensures
        decoder_q0::decode_spec(
            (((u >> 4) & 3) << 11) | (((u >> 6) & 15) << 7) | (((u >> 2) & 1) << 6) | (((u >> 3) & 1) << 5) | (rd << 2),
        ) == Ok::<Instruction, &'static str>(Instruction::CADDI4SPN((rd + 8) as usize, u as i32)),
{
    vstd::arithmetic::power2::lemma2_to64();
    let x = (((u >> 4) & 3) << 11) | (((u >> 6) & 15) << 7) | (((u >> 2) & 1) << 6) | (((u >> 3) & 1) << 5) | (rd << 2);
    assert(
        (x >> 11) & 3 == (u >> 4) & 3 && (x >> 7) & 15 == (u >> 6) & 15 && (x >> 6) & 1 == (u >> 2) & 1
        && (x >> 5) & 1 == (u >> 3) & 1 && (x >> 2) & 7 == rd && x >> 13 == 0 && x != 0
        && u == 4 * ((u >> 2) & 1) + 8 * ((u >> 3) & 1) + 16 * ((u >> 4) & 3) + 64 * ((u >> 6) & 15)
    ) by (bit_vector)
        requires
            rd < 8, 0 < u < 1024, u % 4 == 0,
            x == (((u >> 4) & 3) << 11) | (((u >> 6) & 15) << 7) | (((u >> 2) & 1) << 6) | (((u >> 3) & 1) << 5)
                | (rd << 2);
    lemma_fields_at(x, 11); lemma_fields_at(x, 7); lemma_fields_at(x, 6); lemma_fields_at(x, 5); lemma_fields_at(x, 2);
    crate::bits::lemma_shifted_fields(x, 13);
}

/// `C.LWSP rd, offset` and `C.SWSP rs2, offset` decode back to the register and
/// the offset they were encoded with: for `C.LWSP` offset bit 5 goes to bit 12,
/// bits 4..2 to bits 6..4 and bits 7..6 to bits 3..2; for `C.SWSP` offset bits
/// 5..2 go to bits 12..9 and bits 7..6 to bits 8..7.
#[verifier::spinoff_prover]
#[verifier::rlimit(30)]
pub proof fn law_stack_round_trip(rd: u32, u: u32)
    requires
        rd < 32,
        u < 256,
        u % 4 == 0,
    ensures
        decoder_q2::decode_spec(0x4002u32 | (((u >> 5) & 1) << 12) | (rd << 7) | (((u >> 2) & 7) << 4)
            | (((u >> 6) & 3) << 2)) == Ok::<Instruction, &'static str>(Instruction::CLWSP(rd as usize, u as i32)),
        decoder_q2::decode_spec(0xC002u32 | (((u >> 2) & 15) << 9) | (((u >> 6) & 3) << 7) | (rd << 2))
            == Ok::<Instruction, &'static str>(Instruction::CSWSP(rd as usize, u as i32)),
{
    vstd::arithmetic::power2::lemma2_to64();
    let x = 0x4002u32 | (((u >> 5) & 1) << 12) | (rd << 7) | (((u >> 2) & 7) << 4) | (((u >> 6) & 3) << 2);
    let y = 0xC002u32 | (((u >> 2) & 15) << 9) | (((u >> 6) & 3) << 7) | (rd << 2);
    assert(
        (x >> 12) & 1 == (u >> 5) & 1 && (x >> 7) & 31 == rd && (x >> 4) & 7 == (u >> 2) & 7
        && (x >> 2) & 3 == (u >> 6) & 3 && x >> 13 == 2
        && (y >> 9) & 15 == (u >> 2) & 15 && (y >> 7) & 3 == (u >> 6) & 3 && (y >> 2) & 31 == rd && y >> 13 == 6
        && u == 4 * ((u >> 2) & 7) + 32 * ((u >> 5) & 1) + 64 * ((u >> 6) & 3)
        && u == 4 * ((u >> 2) & 15) + 64 * ((u >> 6) & 3)
    ) by (bit_vector)
        requires
            rd < 32, u < 256, u % 4 == 0,
            x == 0x4002u32 | (((u >> 5) & 1) << 12) | (rd << 7) | (((u >> 2) & 7) << 4) | (((u >> 6) & 3) << 2),
            y == 0xC002u32 | (((u >> 2) & 15) << 9) | (((u >> 6) & 3) << 7) | (rd << 2);
    lemma_fields_at(x, 12); lemma_fields_at(x, 7); lemma_fields_at(x, 4); lemma_fields_at(x, 2);
    lemma_fields_at(y, 9); lemma_fields_at(y, 7); lemma_fields_at(y, 2);
    crate::bits::lemma_shifted_fields(x, 13);
    crate::bits::lemma_shifted_fields(y, 13);
}

/// In quadrant 2, major opcode 4 (bits 15..13 = 0b100) holds the register
/// moves and jumps: with bit 12 clear, `C.JR rd` where bits 6..2 are zero and
/// `C.MV rd, rs2` otherwise; with bit 12 set, `C.EBREAK` where both register
/// fields are zero, `C.JALR rd` where only bits 6..2 are, and `C.ADD rd, rs2`
/// otherwise. `rd` is bits 11..7 and `rs2` bits 6..2.
#[verifier::spinoff_prover]
#[verifier::rlimit(30)]
pub proof fn law_q2_moves(x: u32)
    requires
        x < 0x1_0000,
        x >> 13 == 4,
    ensures
        ({
            let rd = ((x >> 7) & 31) as usize;
            let rs2 = ((x >> 2) & 31) as usize;
            let r = decoder_q2::decode_spec(x);
            &&& (x >> 12) & 1 == 0 && rs2 == 0 ==> r == Ok::<Instruction, &'static str>(Instruction::CJR(rd))
            &&& (x >> 12) & 1 == 0 && rs2 != 0 ==> r == Ok::<Instruction, &'static str>(Instruction::CMV(rd, rs2))
            &&& (x >> 12) & 1 == 1 && rd == 0 && rs2 == 0 ==> r == Ok::<Instruction, &'static str>(Instruction::CEBREAK())
            &&& (x >> 12) & 1 == 1 && rd != 0 && rs2 == 0 ==> r == Ok::<Instruction, &'static str>(Instruction::CJALR(rd))
            &&& (x >> 12) & 1 == 1 && rs2 != 0 ==> r == Ok::<Instruction, &'static str>(Instruction::CADD(rd, rs2))
        }),
{
    vstd::arithmetic::power2::lemma2_to64();
    lemma_fields_at(x, 12); lemma_fields_at(x, 7); lemma_fields_at(x, 2);
    crate::bits::lemma_shifted_fields(x, 13);
}

/// A word whose two lowest bits are set is a 32-bit instruction; otherwise the
/// low halfword holds a compressed one, of quadrant 0, 1 or 2 as the two lowest
/// bits say.
pub proof fn law_quadrants(w: u32)
    ensures
        w & 3 == 3 ==> crate::decoder::decode_word(w) == decoder_q3::decode_spec(w),
        w & 3 == 0 ==> crate::decoder::decode_word(w) == decoder_q0::decode_spec(w & 0xFFFF),
        w & 3 == 1 && decoder_q1::decodable(w & 0xFFFF) ==> crate::decoder::decode_word(w)
            == decoder_q1::decode_spec(w & 0xFFFF),
        w & 3 == 2 ==> crate::decoder::decode_word(w) == decoder_q2::decode_spec(w & 0xFFFF),
{
    crate::bits::lemma_masks(w);
}

/// A SYSTEM word (opcode 0b1110011) with funct3 0 is `ECALL`, `EBREAK`, `MRET`
/// or `WFI` as bits 31..20 are 0, 1, 0x302 or 0x105; with funct3 1, 2, 3, 5, 6
/// or 7 it is `CSRRW`, `CSRRS`, `CSRRC`, `CSRRWI`, `CSRRSI` or `CSRRCI` with
/// `rd`, the `rs1` field and the CSR address in bits 31..20, each a Zicsr
/// instruction.
#[verifier::spinoff_prover]
#[verifier::rlimit(30)]
pub proof fn law_decode_system(x: u32)
    requires
        x & 0x7F == 0x73,
    ensures
        ({
            let f3 = (x >> 12) & 7;
            let (d, a) = (word_rd(x), word_rs1(x));
            let c = x >> 20;
            let r = decoder_q3::decode_spec(x);
            &&& f3 == 0 && c == 0 ==> r == Ok::<Instruction, &'static str>(Instruction::ECALL())
            &&& f3 == 0 && c == 1 ==> r == Ok::<Instruction, &'static str>(Instruction::EBREAK())
            &&& f3 == 0 && c == 0x302 ==> r == Ok::<Instruction, &'static str>(Instruction::MRET())
            &&& f3 == 0 && c == 0x105 ==> r == Ok::<Instruction, &'static str>(Instruction::WFI())
            &&& f3 == 1 ==> r == Ok::<Instruction, &'static str>(Instruction::CSRRW(d, a, c))
            &&& f3 == 2 ==> r == Ok::<Instruction, &'static str>(Instruction::CSRRS(d, a, c))
            &&& f3 == 3 ==> r == Ok::<Instruction, &'static str>(Instruction::CSRRC(d, a, c))
            &&& f3 == 5 ==> r == Ok::<Instruction, &'static str>(Instruction::CSRRWI(d, a, c))
            &&& f3 == 6 ==> r == Ok::<Instruction, &'static str>(Instruction::CSRRSI(d, a, c))
            &&& f3 == 7 ==> r == Ok::<Instruction, &'static str>(Instruction::CSRRCI(d, a, c))
            &&& f3 != 0 && f3 != 4 ==> r is Ok && r->Ok_0.spec_is_zicsr()
            &&& f3 == 4 ==> r is Err
        }),
{
    lemma_word_fields(x);
    vstd::arithmetic::power2::lemma2_to64();
    crate::bits::lemma_opcodes(x);
    crate::bits::lemma_shifted_fields(x, 20);
    crate::bits::lemma_masks(x);
    crate::bits::lemma_masks(x >> 20);
    assert(crate::utils::field(x, 20, 12) == (x / 0x10_0000) % 4096);
}

#[verifier::spinoff_prover]
#[verifier::rlimit(30)]
proof fn lemma_imm_s_u(x: u32)
    ensures
        decoder_q3::imm_s(x) == ((x as i32) >> 25) as int * 32 + ((x >> 7) & 31) as int,
        decoder_q3::imm_u(x) == ((x & 0xFFFF_F000) as i32) as int,
{
    vstd::arithmetic::power2::lemma2_to64();
    crate::bits::lemma_shifted_fields(x, 7);
    crate::bits::lemma_shifted_fields(x, 12);
    crate::bits::lemma_shifted_fields(x, 25);
    crate::bits::lemma_shifted_fields(x, 31);
    crate::bits::lemma_masks(x);
    crate::bits::lemma_masks(x >> 25);
    crate::bits::lemma_masks(x >> 31);
    crate::bits::lemma_arith_shifts(x);
    let u = x & 0xFFFF_F000;
    vstd::bits::lemma_u32_shl_is_mul(x >> 12, 12);
    crate::bits::lemma_as_signed(u);
    assert(crate::utils::field(x, 12, 20) == (x / 0x1000) % 0x10_0000);
    assert((x / 0x1000) % 0x10_0000 == x / 0x1000);
    if x >= 0x8000_0000 {
        assert(x >> 31 == 1);
    } else {
        assert(x >> 31 == 0);
    }
}

/// `LUI` and `AUIPC` take bits 31..12 of the word as the upper 20 bits of their
/// immediate; `JALR` jumps from `rs1` by the signed bits 31..20 and links `rd`;
/// a store's offset is the signed bits 31..25 followed by bits 11..7.
#[verifier::spinoff_prover]
#[verifier::rlimit(30)]
pub proof fn law_decode_immediates(x: u32)
    ensures
        ({
            let u = (x & 0xFFFF_F000) as i32;
            let i = (x as i32) >> 20;
            let s = ((x as i32) >> 25) as int * 32 + ((x >> 7) & 31) as int;
            let r = decoder_q3::decode_spec(x);
            &&& x & 0x7F == 0x37 ==> r == Ok::<Instruction, &'static str>(Instruction::LUI(word_rd(x), u))
            &&& x & 0x7F == 0x17 ==> r == Ok::<Instruction, &'static str>(Instruction::AUIPC(word_rd(x), u))
            &&& x & 0x7F == 0x67 ==> r == Ok::<Instruction, &'static str>(Instruction::JALR(word_rd(x), word_rs1(x), i))
            &&& x & 0x7F == 0x23 && (x >> 12) & 7 == 2 ==> r == Ok::<Instruction, &'static str>(
                Instruction::SW(word_rs1(x), word_rs2(x), s as i32),
            )
        }),
{
    lemma_word_fields(x);
    lemma_imm_i(x);
    lemma_imm_s_u(x);
    crate::bits::lemma_opcodes(x);
}

/// An AMO word (opcode 0b0101111) decodes by funct5 (bits 31..27): 0b00010 to
/// `LR.W`, 0b00011 to `SC.W`, 0b00001 to `AMOSWAP.W`, 0 to `AMOADD.W`, 0b00100
/// to `AMOXOR.W`, 0b01100 to `AMOAND.W`, 0b01000 to `AMOOR.W`, 0b10000 to
/// `AMOMIN.W`, 0b10100 to `AMOMAX.W`, 0b11000 to `AMOMINU.W` and 0b11100 to
/// `AMOMAXU.W`, with `rd`, `rs1` and `rs2` in that order.
#[verifier::spinoff_prover]
#[verifier::rlimit(30)]
pub proof fn law_decode_amo(x: u32)
    requires
        (x >> 2) & 31 == 11,
    ensures
        ({
            let f5 = x >> 27;
            let (d, a, b) = (word_rd(x), word_rs1(x), word_rs2(x));
            let r = decoder_q3::decode_spec(x);
            &&& f5 == 2 ==> r == Ok::<Instruction, &'static str>(Instruction::LRW(d, a))
            &&& f5 == 3 ==> r == Ok::<Instruction, &'static str>(Instruction::SCW(d, a, b))
            &&& f5 == 1 ==> r == Ok::<Instruction, &'static str>(Instruction::AMOSWAPW(d, a, b))
            &&& f5 == 0 ==> r == Ok::<Instruction, &'static str>(Instruction::AMOADDW(d, a, b))
            &&& f5 == 4 ==> r == Ok::<Instruction, &'static str>(Instruction::AMOXORW(d, a, b))
            &&& f5 == 12 ==> r == Ok::<Instruction, &'static str>(Instruction::AMOANDW(d, a, b))
            &&& f5 == 8 ==> r == Ok::<Instruction, &'static str>(Instruction::AMOORW(d, a, b))
            &&& f5 == 16 ==> r == Ok::<Instruction, &'static str>(Instruction::AMOMINW(d, a, b))
            &&& f5 == 20 ==> r == Ok::<Instruction, &'static str>(Instruction::AMOMAXW(d, a, b))
            &&& f5 == 24 ==> r == Ok::<Instruction, &'static str>(Instruction::AMOMINUW(d, a, b))
            &&& f5 == 28 ==> r == Ok::<Instruction, &'static str>(Instruction::AMOMAXUW(d, a, b))
        }),
{
    lemma_word_fields(x);
}

/// Quadrant 1, major opcode 4 (bits 15..13 = 0b100), computes on `x8 + rs1'`
/// (bits 9..7): bits 11..10 select `C.SRLI`, `C.SRAI` or `C.ANDI` (0, 1, 2), or
/// with 3 the register operations `C.SUB`, `C.XOR`, `C.OR`, `C.AND` as bits
/// 6..5 are 0, 1, 2, 3, with `rs2'` in bits 4..2. The shift amount is bit 12
/// followed by bits 6..2.
#[verifier::spinoff_prover]
#[verifier::rlimit(30)]
pub proof fn law_q1_arithmetic(x: u32)
    requires
        x < 0x1_0000,
        x >> 13 == 4,
    ensures
        ({
            let rs1 = (((x >> 7) & 7) + 8) as usize;
            let rs2 = (((x >> 2) & 7) + 8) as usize;
            let sel = (x >> 10) & 3;
            let f = (x >> 5) & 3;
            let shamt = (((x >> 12) & 1) * 32 + ((x >> 2) & 31)) as i32;
            let r = decoder_q1::decode_spec(x);
            &&& sel == 0 ==> r == Ok::<Instruction, &'static str>(Instruction::CSRLI(rs1, shamt))
            &&& sel == 1 ==> r == Ok::<Instruction, &'static str>(Instruction::CSRAI(rs1, shamt))
            &&& sel == 2 ==> (r matches Ok(Instruction::CANDI(p, _)) && p == rs1)
            &&& sel == 3 && f == 0 ==> r == Ok::<Instruction, &'static str>(Instruction::CSUB(rs1, rs2))
            &&& sel == 3 && f == 1 ==> r == Ok::<Instruction, &'static str>(Instruction::CXOR(rs1, rs2))
            &&& sel == 3 && f == 2 ==> r == Ok::<Instruction, &'static str>(Instruction::COR(rs1, rs2))
            &&& sel == 3 && f == 3 ==> r == Ok::<Instruction, &'static str>(Instruction::CAND(rs1, rs2))
        }),
{
    vstd::arithmetic::power2::lemma2_to64();
    crate::bits::lemma_shifted_fields(x, 13);
    crate::bits::lemma_shifted_fields(x, 12);
    crate::bits::lemma_shifted_fields(x, 10);
    crate::bits::lemma_shifted_fields(x, 7);
    crate::bits::lemma_shifted_fields(x, 5);
    crate::bits::lemma_shifted_fields(x, 2);
}

/// Quadrant 2, major opcode 0 (bits 15..13 = 0), is `C.SLLI rd, shamt` with `rd`
/// in bits 11..7 and the shift amount bit 12 followed by bits 6..2.
#[verifier::spinoff_prover]
#[verifier::rlimit(30)]
pub proof fn law_q2_slli(x: u32)
    requires
        x < 0x1_0000,
        x >> 13 == 0,
    ensures
        decoder_q2::decode_spec(x) == Ok::<Instruction, &'static str>(
            Instruction::CSLLI(((x >> 7) & 31) as usize, (((x >> 12) & 1) * 32 + ((x >> 2) & 31)) as i32),
        ),
{
    vstd::arithmetic::power2::lemma2_to64();
    crate::bits::lemma_shifted_fields(x, 13);
    crate::bits::lemma_shifted_fields(x, 12);
    crate::bits::lemma_shifted_fields(x, 7);
    crate::bits::lemma_shifted_fields(x, 2);
}

/// The offsets of branches and of `JAL`. A branch offset has bits 4..1 from bits
/// 11..8 of the word, bits 10..5 from bits 30..25 and bit 11 from bit 7; `JAL`'s
/// has bits 10..1 from bits 30..21, bit 11 from bit 20 and bits 19..12 from bits
/// 19..12. Both are even. The sign is taken from bit 7 (branches) or bit 19
/// (`JAL`) of the word, as the original emulator does; where that bit is clear,
/// bit 31 of the word adds 4096 or 2^20.
#[verifier::spinoff_prover]
#[verifier::rlimit(30)]
pub proof fn law_decode_offsets(x: u32)
    ensures
        ({
            let b7 = (x >> 7) & 1;
            let b19 = (x >> 19) & 1;
            let b31 = (x >> 31) & 1;
            let bo = 2 * ((x >> 8) & 15) + 32 * ((x >> 25) & 63) + 2048 * b7
                + if b7 == 1 { -4096 } else { 4096 * b31 };
            let jo = 2 * ((x >> 21) & 1023) + 2048 * ((x >> 20) & 1) + 4096 * ((x >> 12) & 0xFF)
                + if b19 == 1 { -0x10_0000 } else { 0x10_0000 * b31 };
            let r = decoder_q3::decode_spec(x);
            &&& x & 0x7F == 0x63 && (x >> 12) & 7 != 2 && (x >> 12) & 7 != 3 ==> r is Ok && match r->Ok_0 {
                Instruction::BEQ(_, _, o) | Instruction::BNE(_, _, o) | Instruction::BLT(_, _, o)
                | Instruction::BGE(_, _, o) | Instruction::BLTU(_, _, o) | Instruction::BGEU(_, _, o) => o == bo as i32,
                _ => false,
            }
            &&& x & 0x7F == 0x6F ==> r == Ok::<Instruction, &'static str>(Instruction::JAL(word_rd(x), jo as i32))
        }),
{
    vstd::arithmetic::power2::lemma2_to64();
    lemma_word_fields(x);
    crate::bits::lemma_opcodes(x);
    crate::bits::lemma_shifted_fields(x, 7);
    crate::bits::lemma_shifted_fields(x, 8);
    crate::bits::lemma_shifted_fields(x, 25);
    crate::bits::lemma_shifted_fields(x, 31);
    crate::bits::lemma_shifted_fields(x, 19);
    crate::bits::lemma_shifted_fields(x, 21);
    crate::bits::lemma_shifted_fields(x, 20);
    crate::bits::lemma_shifted_fields(x, 12);
}

/// Quadrant 1, major opcode 3 (bits 15..13 = 0b011): with `rd` (bits 11..7) = 2
/// it is `C.ADDI16SP`, whose immediate has bit 9 from bit 12, bit 4 from bit 6,
/// bit 6 from bit 5, bits 8..7 from bits 4..3 and bit 5 from bit 2; with any
/// other `rd` but zero it is `C.LUI rd`, whose immediate is bit 12 followed by
/// bits 6..2, signed, times 4096.
#[verifier::spinoff_prover]
#[verifier::rlimit(30)]
pub proof fn law_q1_upper(x: u32)
    requires
        x < 0x1_0000,
        x >> 13 == 3,
        (x >> 7) & 31 != 0,
    ensures
        ({
            let rd = ((x >> 7) & 31) as usize;
            let sp = 16 * ((x >> 6) & 1) + 64 * ((x >> 5) & 1) + 128 * ((x >> 3) & 1) + 256 * ((x >> 4) & 1)
                + 32 * ((x >> 2) & 1) - 512 * ((x >> 12) & 1);
            let lui = 4096 * (((x >> 2) & 31) - 32 * ((x >> 12) & 1));
            let r = decoder_q1::decode_spec(x);
            &&& rd == 2 ==> r == Ok::<Instruction, &'static str>(Instruction::CADDI16SP(2, sp as i32))
            &&& rd != 2 ==> r == Ok::<Instruction, &'static str>(Instruction::CLUI(rd, lui as i32))
        }),
{
    vstd::arithmetic::power2::lemma2_to64();
    crate::bits::lemma_shifted_fields(x, 13);
    crate::bits::lemma_shifted_fields(x, 12);
    crate::bits::lemma_shifted_fields(x, 7);
    crate::bits::lemma_shifted_fields(x, 6);
    crate::bits::lemma_shifted_fields(x, 5);
    crate::bits::lemma_shifted_fields(x, 4);
    crate::bits::lemma_shifted_fields(x, 3);
    crate::bits::lemma_shifted_fields(x, 2);
}

/// `MRET` returns to the address held in `mepc` (CSR 0x341); `ECALL`, `EBREAK`,
/// `WFI` and `FENCE` change nothing but the program counter, which moves on by 4.
pub proof fn law_system_control(r: RegisterView, rd: usize, rs1: usize, imm: i32, v: u32)
    requires
        r.x.len() == 32,
        r.csr.len() == 4096,
    ensures
        exec_spec(r, Instruction::MRET(), v) == (RegisterView { pc: r.csr[0x341], ..r }),
        exec_spec(r, Instruction::ECALL(), v) == (RegisterView { pc: ((r.pc + 4) % 0x1_0000_0000) as u32, ..r }),
        exec_spec(r, Instruction::EBREAK(), v) == (RegisterView { pc: ((r.pc + 4) % 0x1_0000_0000) as u32, ..r }),
        exec_spec(r, Instruction::WFI(), v) == (RegisterView { pc: ((r.pc + 4) % 0x1_0000_0000) as u32, ..r }),
        exec_spec(r, Instruction::FENCE(rd, rs1, imm), v) == (RegisterView {
            pc: ((r.pc + 4) % 0x1_0000_0000) as u32,
            ..r
        }),
{
}

} // verus!
