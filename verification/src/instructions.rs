//! The RISC-V instructions the emulator knows, their classification and the
//! expansion of compressed instructions into their 32-bit counterparts.
use vstd::prelude::*;
use crate::decoder::{Immediate, RDindex, RS1index, RS2index};
use crate::register::{abi_name, index_to_name};
use crate::text::{decimal, push_decimal, push_signed_decimal, signed_decimal};
use vstd::string::StringExecFns;

verus! {

#[allow(dead_code)]
#[derive(Debug, Clone, Copy, PartialEq, Eq, Structural)]
pub enum Instruction {
    /* RV32I */
    LUI(RDindex, Immediate),
    AUIPC(RDindex, Immediate),
    JAL(RDindex, Immediate),
    JALR(RDindex, RS1index, Immediate),
    BEQ(RS1index, RS2index, Immediate),
    BNE(RS1index, RS2index, Immediate),
    BLT(RS1index, RS2index, Immediate),
    BGE(RS1index, RS2index, Immediate),
    BLTU(RS1index, RS2index, Immediate),
    BGEU(RS1index, RS2index, Immediate),
    LB(RDindex, RS1index, Immediate),
    LH(RDindex, RS1index, Immediate),
    LW(RDindex, RS1index, Immediate),
    LBU(RDindex, RS1index, Immediate),
    LHU(RDindex, RS1index, Immediate),
    SB(RS1index, RS2index, Immediate),
    SH(RS1index, RS2index, Immediate),
    SW(RS1index, RS2index, Immediate),
    ADDI(RDindex, RS1index, Immediate),
    SLTI(RDindex, RS1index, Immediate),
    SLTIU(RDindex, RS1index, Immediate),
    XORI(RDindex, RS1index, Immediate),
    ORI(RDindex, RS1index, Immediate),
    ANDI(RDindex, RS1index, Immediate),
    SLLI(RDindex, RS1index, Immediate),
    SRLI(RDindex, RS1index, Immediate),
    SRAI(RDindex, RS1index, Immediate),
    ADD(RDindex, RS1index, RS2index),
    SUB(RDindex, RS1index, RS2index),
    SLL(RDindex, RS1index, RS2index),
    SLT(RDindex, RS1index, RS2index),
    SLTU(RDindex, RS1index, RS2index),
    XOR(RDindex, RS1index, RS2index),
    SRL(RDindex, RS1index, RS2index),
    SRA(RDindex, RS1index, RS2index),
    OR(RDindex, RS1index, RS2index),
    AND(RDindex, RS1index, RS2index),
    FENCE(RDindex, RS1index, Immediate),
    ECALL(),
    EBREAK(),
    MRET(),
    /* Zicsr */
    CSRRW(RDindex, RS1index, u32),
    CSRRS(RDindex, RS1index, u32),
    CSRRC(RDindex, RS1index, u32),
    CSRRWI(RDindex, RS1index, u32),
    CSRRSI(RDindex, RS1index, u32),
    CSRRCI(RDindex, RS1index, u32),
    /* M */
    MUL(RDindex, RS1index, RS2index),
    MULH(RDindex, RS1index, RS2index),
    MULHSU(RDindex, RS1index, RS2index),
    MULHU(RDindex, RS1index, RS2index),
    DIV(RDindex, RS1index, RS2index),
    DIVU(RDindex, RS1index, RS2index),
    REM(RDindex, RS1index, RS2index),
    REMU(RDindex, RS1index, RS2index),
    /* A */
    LRW(RDindex, RS1index),
    SCW(RDindex, RS1index, RS2index),
    AMOSWAPW(RDindex, RS1index, RS2index),
    AMOADDW(RDindex, RS1index, RS2index),
    AMOXORW(RDindex, RS1index, RS2index),
    AMOANDW(RDindex, RS1index, RS2index),
    AMOORW(RDindex, RS1index, RS2index),
    AMOMINW(RDindex, RS1index, RS2index),
    AMOMAXW(RDindex, RS1index, RS2index),
    AMOMINUW(RDindex, RS1index, RS2index),
    AMOMAXUW(RDindex, RS1index, RS2index),
    /* Compressed Q1 */
    CADDI4SPN(RDindex, Immediate),
    CFLD(RDindex, RS1index, Immediate),
    CLQ(RDindex, RS1index, Immediate),
    CLW(RDindex, RS1index, Immediate),
    CFLW(RDindex, RS1index, Immediate),
    CLD(RDindex, RS1index, Immediate),
    CFSD(RDindex, RS1index, Immediate),
    CSQ(RDindex, RS1index, Immediate),
    CSW(RDindex, RS1index, Immediate),
    CFSW(RDindex, RS1index, Immediate),
    CSD(RDindex, RS1index, Immediate),
    /* Compressed Q2 */
    CNOP(RDindex, Immediate),
    CADDI(RDindex, Immediate),
    CJAL(Immediate),
    CLI(RDindex, Immediate),
    CADDI16SP(RDindex, Immediate),
    CLUI(RDindex, Immediate),
    CSRLI(RDindex, Immediate),
    CSRAI(RDindex, Immediate),
    CANDI(RDindex, Immediate),
    CSUB(RDindex, RS2index),
    CXOR(RDindex, RS2index),
    COR(RDindex, RS2index),
    CAND(RDindex, RS2index),
    CJ(Immediate),
    CBEQZ(RS1index, Immediate),
    CBNEZ(RS1index, Immediate),
    /* Compressed Q3 */
    CSLLI(RDindex, Immediate),
    CFLDSP(RDindex, Immediate),
    CLWSP(RDindex, Immediate),
    CFLWSP(RDindex, Immediate),
    CJR(RS1index),
    CMV(RDindex, RS2index),
    CEBREAK(),
    CJALR(RS1index),
    CADD(RDindex, RS2index),
    CFSDSP(RS2index, Immediate),
    CSWSP(RS2index, Immediate),
    CFSWSP(RS2index, Immediate),
    /* Priv */
    WFI(),
}

impl Instruction {
    /// The instructions of the Zicsr extension.
    pub open spec fn spec_is_zicsr(self) -> bool {
        match self {
            Instruction::CSRRW(..) | Instruction::CSRRS(..) | Instruction::CSRRC(..)
            | Instruction::CSRRWI(..) | Instruction::CSRRSI(..) | Instruction::CSRRCI(..) => true,
            _ => false,
        }
    }

    /// The instructions of the M extension.
    pub open spec fn spec_is_m(self) -> bool {
        match self {
            Instruction::MUL(..) | Instruction::MULH(..) | Instruction::MULHSU(..)
            | Instruction::MULHU(..) | Instruction::DIV(..) | Instruction::DIVU(..)
            | Instruction::REM(..) | Instruction::REMU(..) => true,
            _ => false,
        }
    }

    /// The 16-bit instructions of the C extension.
    pub open spec fn spec_is_compressed(self) -> bool {
        match self {
            Instruction::CADDI4SPN(..) | Instruction::CFLD(..) | Instruction::CLQ(..)
            | Instruction::CLW(..) | Instruction::CFLW(..) | Instruction::CLD(..)
            | Instruction::CFSD(..) | Instruction::CSQ(..) | Instruction::CSW(..)
            | Instruction::CFSW(..) | Instruction::CSD(..) | Instruction::CNOP(..)
            | Instruction::CADDI(..) | Instruction::CJAL(..) | Instruction::CLI(..)
            | Instruction::CADDI16SP(..) | Instruction::CLUI(..) | Instruction::CSRLI(..)
            | Instruction::CSRAI(..) | Instruction::CANDI(..) | Instruction::CSUB(..)
            | Instruction::CXOR(..) | Instruction::COR(..) | Instruction::CAND(..)
            | Instruction::CJ(..) | Instruction::CBEQZ(..) | Instruction::CBNEZ(..)
            | Instruction::CSLLI(..) | Instruction::CFLDSP(..) | Instruction::CLWSP(..)
            | Instruction::CFLWSP(..) | Instruction::CJR(..) | Instruction::CMV(..)
            | Instruction::CEBREAK() | Instruction::CJALR(..) | Instruction::CADD(..)
            | Instruction::CFSDSP(..) | Instruction::CSWSP(..) | Instruction::CFSWSP(..) => true,
            _ => false,
        }
    }

    /// The compressed instructions that have a 32-bit expansion here: all of
    /// them but the floating point, 64-bit and 128-bit loads and stores and `C.NOP`.
    pub open spec fn spec_has_expansion(self) -> bool {
        &&& self.spec_is_compressed()
        &&& !(self matches Instruction::CFLD(..) || self matches Instruction::CLQ(..)
            || self matches Instruction::CFLW(..) || self matches Instruction::CLD(..)
            || self matches Instruction::CFSD(..) || self matches Instruction::CSQ(..)
            || self matches Instruction::CFSW(..) || self matches Instruction::CSD(..)
            || self matches Instruction::CNOP(..) || self matches Instruction::CFLDSP(..)
            || self matches Instruction::CFLWSP(..) || self matches Instruction::CFSDSP(..)
            || self matches Instruction::CFSWSP(..))
    }

    pub fn is_zicsr(&self) -> (r: bool)
        ensures
            r == self.spec_is_zicsr(),
    {
        matches!(
            self,
            Self::CSRRCI(..)
                | Self::CSRRW(..)
                | Self::CSRRS(..)
                | Self::CSRRC(..)
                | Self::CSRRWI(..)
                | Self::CSRRSI(..)
        )
    }

    pub fn is_m(&self) -> (r: bool)
        ensures
            r == self.spec_is_m(),
    {
        matches!(
            self,
            Self::MUL(..)
                | Self::MULH(..)
                | Self::MULHSU(..)
                | Self::MULHU(..)
                | Self::DIV(..)
                | Self::DIVU(..)
                | Self::REM(..)
                | Self::REMU(..)
        )
    }

    pub fn is_compressed(&self) -> (r: bool)
        ensures
            r == self.spec_is_compressed(),
    {
        matches!(
            self,
            Self::CADDI4SPN(..)
                | Self::CFLD(..)
                | Self::CLQ(..)
                | Self::CLW(..)
                | Self::CFLW(..)
                | Self::CLD(..)
                | Self::CFSD(..)
                | Self::CSQ(..)
                | Self::CSW(..)
                | Self::CFSW(..)
                | Self::CSD(..)
                | Self::CNOP(..)
                | Self::CADDI(..)
                | Self::CJAL(..)
                | Self::CLI(..)
                | Self::CADDI16SP(..)
                | Self::CLUI(..)
                | Self::CSRLI(..)
                | Self::CSRAI(..)
                | Self::CANDI(..)
                | Self::CSUB(..)
                | Self::CXOR(..)
                | Self::COR(..)
                | Self::CAND(..)
                | Self::CJ(..)
                | Self::CBEQZ(..)
                | Self::CBNEZ(..)
                | Self::CSLLI(..)
                | Self::CFLDSP(..)
                | Self::CLWSP(..)
                | Self::CFLWSP(..)
                | Self::CJR(..)
                | Self::CMV(..)
                | Self::CEBREAK()
                | Self::CJALR(..)
                | Self::CADD(..)
                | Self::CFSDSP(..)
                | Self::CSWSP(..)
                | Self::CFSWSP(..)
        )
    }
}

/// Every register index of the instruction names one of the 32 integer registers,
/// and every CSR address is below 4096.
pub open spec fn regs_in_range(inst: Instruction) -> bool {
    &&& reg_fields_in_range(inst)
    &&& match inst {
        Instruction::CSRRW(_, _, c) | Instruction::CSRRS(_, _, c) | Instruction::CSRRC(_, _, c)
        | Instruction::CSRRWI(_, _, c) | Instruction::CSRRSI(_, _, c) | Instruction::CSRRCI(_, _, c) => c < 4096,
        _ => true,
    }
}

/// Every register index of the instruction names one of the 32 integer registers.
pub open spec fn reg_fields_in_range(inst: Instruction) -> bool {
    match inst {
        Instruction::LUI(f0, _) => f0 < 32,
        Instruction::AUIPC(f0, _) => f0 < 32,
        Instruction::JAL(f0, _) => f0 < 32,
        Instruction::JALR(f0, f1, _) => f0 < 32 && f1 < 32,
        Instruction::BEQ(f0, f1, _) => f0 < 32 && f1 < 32,
        Instruction::BNE(f0, f1, _) => f0 < 32 && f1 < 32,
        Instruction::BLT(f0, f1, _) => f0 < 32 && f1 < 32,
        Instruction::BGE(f0, f1, _) => f0 < 32 && f1 < 32,
        Instruction::BLTU(f0, f1, _) => f0 < 32 && f1 < 32,
        Instruction::BGEU(f0, f1, _) => f0 < 32 && f1 < 32,
        Instruction::LB(f0, f1, _) => f0 < 32 && f1 < 32,
        Instruction::LH(f0, f1, _) => f0 < 32 && f1 < 32,
        Instruction::LW(f0, f1, _) => f0 < 32 && f1 < 32,
        Instruction::LBU(f0, f1, _) => f0 < 32 && f1 < 32,
        Instruction::LHU(f0, f1, _) => f0 < 32 && f1 < 32,
        Instruction::SB(f0, f1, _) => f0 < 32 && f1 < 32,
        Instruction::SH(f0, f1, _) => f0 < 32 && f1 < 32,
        Instruction::SW(f0, f1, _) => f0 < 32 && f1 < 32,
        Instruction::ADDI(f0, f1, _) => f0 < 32 && f1 < 32,
        Instruction::SLTI(f0, f1, _) => f0 < 32 && f1 < 32,
        Instruction::SLTIU(f0, f1, _) => f0 < 32 && f1 < 32,
        Instruction::XORI(f0, f1, _) => f0 < 32 && f1 < 32,
        Instruction::ORI(f0, f1, _) => f0 < 32 && f1 < 32,
        Instruction::ANDI(f0, f1, _) => f0 < 32 && f1 < 32,
        Instruction::SLLI(f0, f1, _) => f0 < 32 && f1 < 32,
        Instruction::SRLI(f0, f1, _) => f0 < 32 && f1 < 32,
        Instruction::SRAI(f0, f1, _) => f0 < 32 && f1 < 32,
        Instruction::ADD(f0, f1, f2) => f0 < 32 && f1 < 32 && f2 < 32,
        Instruction::SUB(f0, f1, f2) => f0 < 32 && f1 < 32 && f2 < 32,
        Instruction::SLL(f0, f1, f2) => f0 < 32 && f1 < 32 && f2 < 32,
        Instruction::SLT(f0, f1, f2) => f0 < 32 && f1 < 32 && f2 < 32,
        Instruction::SLTU(f0, f1, f2) => f0 < 32 && f1 < 32 && f2 < 32,
        Instruction::XOR(f0, f1, f2) => f0 < 32 && f1 < 32 && f2 < 32,
        Instruction::SRL(f0, f1, f2) => f0 < 32 && f1 < 32 && f2 < 32,
        Instruction::SRA(f0, f1, f2) => f0 < 32 && f1 < 32 && f2 < 32,
        Instruction::OR(f0, f1, f2) => f0 < 32 && f1 < 32 && f2 < 32,
        Instruction::AND(f0, f1, f2) => f0 < 32 && f1 < 32 && f2 < 32,
        Instruction::FENCE(f0, f1, _) => f0 < 32 && f1 < 32,
        Instruction::CSRRW(f0, f1, f2) => f0 < 32 && f1 < 32,
        Instruction::CSRRS(f0, f1, f2) => f0 < 32 && f1 < 32,
        Instruction::CSRRC(f0, f1, f2) => f0 < 32 && f1 < 32,
        Instruction::CSRRWI(f0, f1, f2) => f0 < 32 && f1 < 32,
        Instruction::CSRRSI(f0, f1, f2) => f0 < 32 && f1 < 32,
        Instruction::CSRRCI(f0, f1, f2) => f0 < 32 && f1 < 32,
        Instruction::MUL(f0, f1, f2) => f0 < 32 && f1 < 32 && f2 < 32,
        Instruction::MULH(f0, f1, f2) => f0 < 32 && f1 < 32 && f2 < 32,
        Instruction::MULHSU(f0, f1, f2) => f0 < 32 && f1 < 32 && f2 < 32,
        Instruction::MULHU(f0, f1, f2) => f0 < 32 && f1 < 32 && f2 < 32,
        Instruction::DIV(f0, f1, f2) => f0 < 32 && f1 < 32 && f2 < 32,
        Instruction::DIVU(f0, f1, f2) => f0 < 32 && f1 < 32 && f2 < 32,
        Instruction::REM(f0, f1, f2) => f0 < 32 && f1 < 32 && f2 < 32,
        Instruction::REMU(f0, f1, f2) => f0 < 32 && f1 < 32 && f2 < 32,
        Instruction::LRW(f0, f1) => f0 < 32 && f1 < 32,
        Instruction::SCW(f0, f1, f2) => f0 < 32 && f1 < 32 && f2 < 32,
        Instruction::AMOSWAPW(f0, f1, f2) => f0 < 32 && f1 < 32 && f2 < 32,
        Instruction::AMOADDW(f0, f1, f2) => f0 < 32 && f1 < 32 && f2 < 32,
        Instruction::AMOXORW(f0, f1, f2) => f0 < 32 && f1 < 32 && f2 < 32,
        Instruction::AMOANDW(f0, f1, f2) => f0 < 32 && f1 < 32 && f2 < 32,
        Instruction::AMOORW(f0, f1, f2) => f0 < 32 && f1 < 32 && f2 < 32,
        Instruction::AMOMINW(f0, f1, f2) => f0 < 32 && f1 < 32 && f2 < 32,
        Instruction::AMOMAXW(f0, f1, f2) => f0 < 32 && f1 < 32 && f2 < 32,
        Instruction::AMOMINUW(f0, f1, f2) => f0 < 32 && f1 < 32 && f2 < 32,
        Instruction::AMOMAXUW(f0, f1, f2) => f0 < 32 && f1 < 32 && f2 < 32,
        Instruction::CADDI4SPN(f0, _) => f0 < 32,
        Instruction::CFLD(f0, f1, _) => f0 < 32 && f1 < 32,
        Instruction::CLQ(f0, f1, _) => f0 < 32 && f1 < 32,
        Instruction::CLW(f0, f1, _) => f0 < 32 && f1 < 32,
        Instruction::CFLW(f0, f1, _) => f0 < 32 && f1 < 32,
        Instruction::CLD(f0, f1, _) => f0 < 32 && f1 < 32,
        Instruction::CFSD(f0, f1, _) => f0 < 32 && f1 < 32,
        Instruction::CSQ(f0, f1, _) => f0 < 32 && f1 < 32,
        Instruction::CSW(f0, f1, _) => f0 < 32 && f1 < 32,
        Instruction::CFSW(f0, f1, _) => f0 < 32 && f1 < 32,
        Instruction::CSD(f0, f1, _) => f0 < 32 && f1 < 32,
        Instruction::CNOP(f0, _) => f0 < 32,
        Instruction::CADDI(f0, _) => f0 < 32,
        Instruction::CLI(f0, _) => f0 < 32,
        Instruction::CADDI16SP(f0, _) => f0 < 32,
        Instruction::CLUI(f0, _) => f0 < 32,
        Instruction::CSRLI(f0, _) => f0 < 32,
        Instruction::CSRAI(f0, _) => f0 < 32,
        Instruction::CANDI(f0, _) => f0 < 32,
        Instruction::CSUB(f0, f1) => f0 < 32 && f1 < 32,
        Instruction::CXOR(f0, f1) => f0 < 32 && f1 < 32,
        Instruction::COR(f0, f1) => f0 < 32 && f1 < 32,
        Instruction::CAND(f0, f1) => f0 < 32 && f1 < 32,
        Instruction::CBEQZ(f0, _) => f0 < 32,
        Instruction::CBNEZ(f0, _) => f0 < 32,
        Instruction::CSLLI(f0, _) => f0 < 32,
        Instruction::CFLDSP(f0, _) => f0 < 32,
        Instruction::CLWSP(f0, _) => f0 < 32,
        Instruction::CFLWSP(f0, _) => f0 < 32,
        Instruction::CJR(f0) => f0 < 32,
        Instruction::CMV(f0, f1) => f0 < 32 && f1 < 32,
        Instruction::CJALR(f0) => f0 < 32,
        Instruction::CADD(f0, f1) => f0 < 32 && f1 < 32,
        Instruction::CFSDSP(f0, _) => f0 < 32,
        Instruction::CSWSP(f0, _) => f0 < 32,
        Instruction::CFSWSP(f0, _) => f0 < 32,
        _ => true,
    }
}

/// `mn`, a blank and `a`.
pub open spec fn line1(mn: Seq<char>, a: Seq<char>) -> Seq<char> {
    mn + seq![' '] + a
}

/// `mn`, a blank and `a` and `b` separated by a comma and a blank.
pub open spec fn line2(mn: Seq<char>, a: Seq<char>, b: Seq<char>) -> Seq<char> {
    line1(mn, a) + seq![',', ' '] + b
}

/// `mn`, a blank and `a`, `b` and `c` separated by commas and blanks.
pub open spec fn line3(mn: Seq<char>, a: Seq<char>, b: Seq<char>, c: Seq<char>) -> Seq<char> {
    line2(mn, a, b) + seq![',', ' '] + c
}

fn text_plain(mn: &'static str) -> (r: String)
    ensures
        r@ == mn@,
{
    let mut s = String::new();
    s.append(mn);
    s
}

fn push_blank(s: &mut String)
    ensures
        final(s)@ == old(s)@ + seq![' '],
{
    proof { reveal_strlit(" "); }
    s.append(" ");
}

fn push_comma(s: &mut String)
    ensures
        final(s)@ == old(s)@ + seq![',', ' '],
{
    proof { reveal_strlit(", "); }
    s.append(", ");
}

fn push_operand_reg(s: &mut String, r: usize)
    requires
        r < 32,
    ensures
        final(s)@ == old(s)@ + abi_name(r)@,
{
    s.append(index_to_name(r));
}

fn text_i(mn: &'static str, a: i32) -> (r: String)
    ensures
        r@ == line1(mn@, signed_decimal(a as int)),
{
    let mut s = String::new();
    s.append(mn);
    push_blank(&mut s);
    push_signed_decimal(&mut s, a);
    proof {
        assert(s@ =~= line1(mn@, signed_decimal(a as int)));
    }
    s
}

fn text_r(mn: &'static str, a: usize) -> (r: String)
    requires
        a < 32,
    ensures
        r@ == line1(mn@, abi_name(a)@),
{
    let mut s = String::new();
    s.append(mn);
    push_blank(&mut s);
    push_operand_reg(&mut s, a);
    proof {
        assert(s@ =~= line1(mn@, abi_name(a)@));
    }
    s
}

fn text_ri(mn: &'static str, a: usize, b: i32) -> (r: String)
    requires
        a < 32,
    ensures
        r@ == line2(mn@, abi_name(a)@, signed_decimal(b as int)),
{
    let mut s = String::new();
    s.append(mn);
    push_blank(&mut s);
    push_operand_reg(&mut s, a);
    push_comma(&mut s);
    push_signed_decimal(&mut s, b);
    proof {
        assert(s@ =~= line2(mn@, abi_name(a)@, signed_decimal(b as int)));
    }
    s
}

fn text_rr(mn: &'static str, a: usize, b: usize) -> (r: String)
    requires
        a < 32,
        b < 32,
    ensures
        r@ == line2(mn@, abi_name(a)@, abi_name(b)@),
{
    let mut s = String::new();
    s.append(mn);
    push_blank(&mut s);
    push_operand_reg(&mut s, a);
    push_comma(&mut s);
    push_operand_reg(&mut s, b);
    proof {
        assert(s@ =~= line2(mn@, abi_name(a)@, abi_name(b)@));
    }
    s
}

fn text_rri(mn: &'static str, a: usize, b: usize, c: i32) -> (r: String)
    requires
        a < 32,
        b < 32,
    ensures
        r@ == line3(mn@, abi_name(a)@, abi_name(b)@, signed_decimal(c as int)),
{
    let mut s = String::new();
    s.append(mn);
    push_blank(&mut s);
    push_operand_reg(&mut s, a);
    push_comma(&mut s);
    push_operand_reg(&mut s, b);
    push_comma(&mut s);
    push_signed_decimal(&mut s, c);
    proof {
        assert(s@ =~= line3(mn@, abi_name(a)@, abi_name(b)@, signed_decimal(c as int)));
    }
    s
}

fn text_rrr(mn: &'static str, a: usize, b: usize, c: usize) -> (r: String)
    requires
        a < 32,
        b < 32,
        c < 32,
    ensures
        r@ == line3(mn@, abi_name(a)@, abi_name(b)@, abi_name(c)@),
{
    let mut s = String::new();
    s.append(mn);
    push_blank(&mut s);
    push_operand_reg(&mut s, a);
    push_comma(&mut s);
    push_operand_reg(&mut s, b);
    push_comma(&mut s);
    push_operand_reg(&mut s, c);
    proof {
        assert(s@ =~= line3(mn@, abi_name(a)@, abi_name(b)@, abi_name(c)@));
    }
    s
}

fn text_rru(mn: &'static str, a: usize, b: usize, c: u32) -> (r: String)
    requires
        a < 32,
        b < 32,
    ensures
        r@ == line3(mn@, abi_name(a)@, abi_name(b)@, decimal(c as nat)),
{
    let mut s = String::new();
    s.append(mn);
    push_blank(&mut s);
    push_operand_reg(&mut s, a);
    push_comma(&mut s);
    push_operand_reg(&mut s, b);
    push_comma(&mut s);
    push_decimal(&mut s, c);
    proof {
        assert(s@ =~= line3(mn@, abi_name(a)@, abi_name(b)@, decimal(c as nat)));
    }
    s
}

impl Instruction {
    /// The text of the instruction in the listing: its mnemonic, then its operands
    /// separated by commas, registers by their ABI names and numbers in decimal.
    /// The mnemonic of the instruction, the first word of its listing text:
    /// upper case after `C.` for a compressed instruction, lower case otherwise.
    pub open spec fn mnemonic(self) -> Seq<char> {
        match self {
            Instruction::LUI(..) => "lui"@,
            Instruction::AUIPC(..) => "auipc"@,
            Instruction::JAL(..) => "jal"@,
            Instruction::JALR(..) => "jalr"@,
            Instruction::BEQ(..) => "beq"@,
            Instruction::BNE(..) => "bne"@,
            Instruction::BLT(..) => "blt"@,
            Instruction::BGE(..) => "bge"@,
            Instruction::BLTU(..) => "bltu"@,
            Instruction::BGEU(..) => "bgeu"@,
            Instruction::LB(..) => "lb"@,
            Instruction::LH(..) => "lh"@,
            Instruction::LW(..) => "lw"@,
            Instruction::LBU(..) => "lbu"@,
            Instruction::LHU(..) => "lhu"@,
            Instruction::SB(..) => "sb"@,
            Instruction::SH(..) => "sh"@,
            Instruction::SW(..) => "sw"@,
            Instruction::ADDI(..) => "addi"@,
            Instruction::SLTI(..) => "slti"@,
            Instruction::SLTIU(..) => "sltiu"@,
            Instruction::XORI(..) => "xori"@,
            Instruction::ORI(..) => "ori"@,
            Instruction::ANDI(..) => "andi"@,
            Instruction::SLLI(..) => "slli"@,
            Instruction::SRLI(..) => "srli"@,
            Instruction::SRAI(..) => "srai"@,
            Instruction::ADD(..) => "add"@,
            Instruction::SUB(..) => "sub"@,
            Instruction::SLL(..) => "sll"@,
            Instruction::SLT(..) => "slt"@,
            Instruction::SLTU(..) => "sltu"@,
            Instruction::XOR(..) => "xor"@,
            Instruction::SRL(..) => "srl"@,
            Instruction::SRA(..) => "sra"@,
            Instruction::OR(..) => "or"@,
            Instruction::AND(..) => "and"@,
            Instruction::FENCE(..) => "fence"@,
            Instruction::ECALL(..) => "ecall"@,
            Instruction::EBREAK(..) => "ebreak"@,
            Instruction::MRET(..) => "mret"@,
            Instruction::CSRRW(..) => "csrrw"@,
            Instruction::CSRRS(..) => "csrrs"@,
            Instruction::CSRRC(..) => "csrrc"@,
            Instruction::CSRRWI(..) => "csrrwi"@,
            Instruction::CSRRSI(..) => "csrrsi"@,
            Instruction::CSRRCI(..) => "csrrci"@,
            Instruction::MUL(..) => "mul"@,
            Instruction::MULH(..) => "mulh"@,
            Instruction::MULHSU(..) => "mulhsu"@,
            Instruction::MULHU(..) => "mulhu"@,
            Instruction::DIV(..) => "div"@,
            Instruction::DIVU(..) => "divu"@,
            Instruction::REM(..) => "rem"@,
            Instruction::REMU(..) => "remu"@,
            Instruction::LRW(..) => "lrw"@,
            Instruction::SCW(..) => "scw"@,
            Instruction::AMOSWAPW(..) => "amoswapw"@,
            Instruction::AMOADDW(..) => "amoaddw"@,
            Instruction::AMOXORW(..) => "amoxorw"@,
            Instruction::AMOANDW(..) => "amoandw"@,
            Instruction::AMOORW(..) => "amoorw"@,
            Instruction::AMOMINW(..) => "amominw"@,
            Instruction::AMOMAXW(..) => "amomaxw"@,
            Instruction::AMOMINUW(..) => "amominuw"@,
            Instruction::AMOMAXUW(..) => "amomaxuw"@,
            Instruction::CADDI4SPN(..) => "C.ADDI4SPN"@,
            Instruction::CFLD(..) => "C.FLD"@,
            Instruction::CLQ(..) => "C.LQ"@,
            Instruction::CLW(..) => "C.LW"@,
            Instruction::CFLW(..) => "C.FLW"@,
            Instruction::CLD(..) => "C.LD"@,
            Instruction::CFSD(..) => "C.FSD"@,
            Instruction::CSQ(..) => "C.SQ"@,
            Instruction::CSW(..) => "C.SW"@,
            Instruction::CFSW(..) => "C.FSW"@,
            Instruction::CSD(..) => "C.SD"@,
            Instruction::CNOP(..) => "C.NOP"@,
            Instruction::CADDI(..) => "C.ADDI"@,
            Instruction::CJAL(..) => "C.JAL"@,
            Instruction::CLI(..) => "C.LI"@,
            Instruction::CADDI16SP(..) => "C.ADDI16SP"@,
            Instruction::CLUI(..) => "C.LUI"@,
            Instruction::CSRLI(..) => "C.SRLI"@,
            Instruction::CSRAI(..) => "C.SRAI"@,
            Instruction::CANDI(..) => "C.ANDI"@,
            Instruction::CSUB(..) => "C.SUB"@,
            Instruction::CXOR(..) => "C.XOR"@,
            Instruction::COR(..) => "C.OR"@,
            Instruction::CAND(..) => "C.AND"@,
            Instruction::CJ(..) => "C.J"@,
            Instruction::CBEQZ(..) => "C.BEQZ"@,
            Instruction::CBNEZ(..) => "C.BNEZ"@,
            Instruction::CSLLI(..) => "C.SLLI"@,
            Instruction::CFLDSP(..) => "C.FLDSP"@,
            Instruction::CLWSP(..) => "C.LWSP"@,
            Instruction::CFLWSP(..) => "C.FLWSP"@,
            Instruction::CJR(..) => "C.JR"@,
            Instruction::CMV(..) => "C.MV"@,
            Instruction::CEBREAK(..) => "C.EBREAK"@,
            Instruction::CJALR(..) => "C.JALR"@,
            Instruction::CADD(..) => "C.ADD"@,
            Instruction::CFSDSP(..) => "C.FSDSP"@,
            Instruction::CSWSP(..) => "C.SWSP"@,
            Instruction::CFSWSP(..) => "C.FSWSP"@,
            Instruction::WFI(..) => "wfi"@,
        }
    }

    pub open spec fn text(self) -> Seq<char> {
        match self {
            Instruction::LUI(a, b) => line2("lui"@, abi_name(a)@, signed_decimal(b as int)),
            Instruction::AUIPC(a, b) => line2("auipc"@, abi_name(a)@, signed_decimal(b as int)),
            Instruction::JAL(a, b) => line2("jal"@, abi_name(a)@, signed_decimal(b as int)),
            Instruction::JALR(a, b, c) => line3("jalr"@, abi_name(a)@, abi_name(b)@, signed_decimal(c as int)),
            Instruction::BEQ(a, b, c) => line3("beq"@, abi_name(a)@, abi_name(b)@, signed_decimal(c as int)),
            Instruction::BNE(a, b, c) => line3("bne"@, abi_name(a)@, abi_name(b)@, signed_decimal(c as int)),
            Instruction::BLT(a, b, c) => line3("blt"@, abi_name(a)@, abi_name(b)@, signed_decimal(c as int)),
            Instruction::BGE(a, b, c) => line3("bge"@, abi_name(a)@, abi_name(b)@, signed_decimal(c as int)),
            Instruction::BLTU(a, b, c) => line3("bltu"@, abi_name(a)@, abi_name(b)@, signed_decimal(c as int)),
            Instruction::BGEU(a, b, c) => line3("bgeu"@, abi_name(a)@, abi_name(b)@, signed_decimal(c as int)),
            Instruction::LB(a, b, c) => line3("lb"@, abi_name(a)@, abi_name(b)@, signed_decimal(c as int)),
            Instruction::LH(a, b, c) => line3("lh"@, abi_name(a)@, abi_name(b)@, signed_decimal(c as int)),
            Instruction::LW(a, b, c) => line3("lw"@, abi_name(a)@, abi_name(b)@, signed_decimal(c as int)),
            Instruction::LBU(a, b, c) => line3("lbu"@, abi_name(a)@, abi_name(b)@, signed_decimal(c as int)),
            Instruction::LHU(a, b, c) => line3("lhu"@, abi_name(a)@, abi_name(b)@, signed_decimal(c as int)),
            Instruction::SB(a, b, c) => line3("sb"@, abi_name(a)@, abi_name(b)@, signed_decimal(c as int)),
            Instruction::SH(a, b, c) => line3("sh"@, abi_name(a)@, abi_name(b)@, signed_decimal(c as int)),
            Instruction::SW(a, b, c) => line3("sw"@, abi_name(a)@, abi_name(b)@, signed_decimal(c as int)),
            Instruction::ADDI(a, b, c) => line3("addi"@, abi_name(a)@, abi_name(b)@, signed_decimal(c as int)),
            Instruction::SLTI(a, b, c) => line3("slti"@, abi_name(a)@, abi_name(b)@, signed_decimal(c as int)),
            Instruction::SLTIU(a, b, c) => line3("sltiu"@, abi_name(a)@, abi_name(b)@, signed_decimal(c as int)),
            Instruction::XORI(a, b, c) => line3("xori"@, abi_name(a)@, abi_name(b)@, signed_decimal(c as int)),
            Instruction::ORI(a, b, c) => line3("ori"@, abi_name(a)@, abi_name(b)@, signed_decimal(c as int)),
            Instruction::ANDI(a, b, c) => line3("andi"@, abi_name(a)@, abi_name(b)@, signed_decimal(c as int)),
            Instruction::SLLI(a, b, c) => line3("slli"@, abi_name(a)@, abi_name(b)@, signed_decimal(c as int)),
            Instruction::SRLI(a, b, c) => line3("srli"@, abi_name(a)@, abi_name(b)@, signed_decimal(c as int)),
            Instruction::SRAI(a, b, c) => line3("srai"@, abi_name(a)@, abi_name(b)@, signed_decimal(c as int)),
            Instruction::ADD(a, b, c) => line3("add"@, abi_name(a)@, abi_name(b)@, abi_name(c)@),
            Instruction::SUB(a, b, c) => line3("sub"@, abi_name(a)@, abi_name(b)@, abi_name(c)@),
            Instruction::SLL(a, b, c) => line3("sll"@, abi_name(a)@, abi_name(b)@, abi_name(c)@),
            Instruction::SLT(a, b, c) => line3("slt"@, abi_name(a)@, abi_name(b)@, abi_name(c)@),
            Instruction::SLTU(a, b, c) => line3("sltu"@, abi_name(a)@, abi_name(b)@, abi_name(c)@),
            Instruction::XOR(a, b, c) => line3("xor"@, abi_name(a)@, abi_name(b)@, abi_name(c)@),
            Instruction::SRL(a, b, c) => line3("srl"@, abi_name(a)@, abi_name(b)@, abi_name(c)@),
            Instruction::SRA(a, b, c) => line3("sra"@, abi_name(a)@, abi_name(b)@, abi_name(c)@),
            Instruction::OR(a, b, c) => line3("or"@, abi_name(a)@, abi_name(b)@, abi_name(c)@),
            Instruction::AND(a, b, c) => line3("and"@, abi_name(a)@, abi_name(b)@, abi_name(c)@),
            Instruction::FENCE(a, b, c) => line3("fence"@, abi_name(a)@, abi_name(b)@, signed_decimal(c as int)),
            Instruction::ECALL() => "ecall"@,
            Instruction::EBREAK() => "ebreak"@,
            Instruction::MRET() => "mret"@,
            Instruction::CSRRW(a, b, c) => line3("csrrw"@, abi_name(a)@, abi_name(b)@, decimal(c as nat)),
            Instruction::CSRRS(a, b, c) => line3("csrrs"@, abi_name(a)@, abi_name(b)@, decimal(c as nat)),
            Instruction::CSRRC(a, b, c) => line3("csrrc"@, abi_name(a)@, abi_name(b)@, decimal(c as nat)),
            Instruction::CSRRWI(a, b, c) => line3("csrrwi"@, abi_name(a)@, abi_name(b)@, decimal(c as nat)),
            Instruction::CSRRSI(a, b, c) => line3("csrrsi"@, abi_name(a)@, abi_name(b)@, decimal(c as nat)),
            Instruction::CSRRCI(a, b, c) => line3("csrrci"@, abi_name(a)@, abi_name(b)@, decimal(c as nat)),
            Instruction::MUL(a, b, c) => line3("mul"@, abi_name(a)@, abi_name(b)@, abi_name(c)@),
            Instruction::MULH(a, b, c) => line3("mulh"@, abi_name(a)@, abi_name(b)@, abi_name(c)@),
            Instruction::MULHSU(a, b, c) => line3("mulhsu"@, abi_name(a)@, abi_name(b)@, abi_name(c)@),
            Instruction::MULHU(a, b, c) => line3("mulhu"@, abi_name(a)@, abi_name(b)@, abi_name(c)@),
            Instruction::DIV(a, b, c) => line3("div"@, abi_name(a)@, abi_name(b)@, abi_name(c)@),
            Instruction::DIVU(a, b, c) => line3("divu"@, abi_name(a)@, abi_name(b)@, abi_name(c)@),
            Instruction::REM(a, b, c) => line3("rem"@, abi_name(a)@, abi_name(b)@, abi_name(c)@),
            Instruction::REMU(a, b, c) => line3("remu"@, abi_name(a)@, abi_name(b)@, abi_name(c)@),
            Instruction::LRW(a, b) => line2("lrw"@, abi_name(a)@, abi_name(b)@),
            Instruction::SCW(a, b, c) => line3("scw"@, abi_name(a)@, abi_name(b)@, abi_name(c)@),
            Instruction::AMOSWAPW(a, b, c) => line3("amoswapw"@, abi_name(a)@, abi_name(b)@, abi_name(c)@),
            Instruction::AMOADDW(a, b, c) => line3("amoaddw"@, abi_name(a)@, abi_name(b)@, abi_name(c)@),
            Instruction::AMOXORW(a, b, c) => line3("amoxorw"@, abi_name(a)@, abi_name(b)@, abi_name(c)@),
            Instruction::AMOANDW(a, b, c) => line3("amoandw"@, abi_name(a)@, abi_name(b)@, abi_name(c)@),
            Instruction::AMOORW(a, b, c) => line3("amoorw"@, abi_name(a)@, abi_name(b)@, abi_name(c)@),
            Instruction::AMOMINW(a, b, c) => line3("amominw"@, abi_name(a)@, abi_name(b)@, abi_name(c)@),
            Instruction::AMOMAXW(a, b, c) => line3("amomaxw"@, abi_name(a)@, abi_name(b)@, abi_name(c)@),
            Instruction::AMOMINUW(a, b, c) => line3("amominuw"@, abi_name(a)@, abi_name(b)@, abi_name(c)@),
            Instruction::AMOMAXUW(a, b, c) => line3("amomaxuw"@, abi_name(a)@, abi_name(b)@, abi_name(c)@),
            Instruction::CADDI4SPN(a, b) => line2("C.ADDI4SPN"@, abi_name(a)@, signed_decimal(b as int)),
            Instruction::CFLD(a, b, c) => line3("C.FLD"@, abi_name(a)@, abi_name(b)@, signed_decimal(c as int)),
            Instruction::CLQ(a, b, c) => line3("C.LQ"@, abi_name(a)@, abi_name(b)@, signed_decimal(c as int)),
            Instruction::CLW(a, b, c) => line3("C.LW"@, abi_name(a)@, abi_name(b)@, signed_decimal(c as int)),
            Instruction::CFLW(a, b, c) => line3("C.FLW"@, abi_name(a)@, abi_name(b)@, signed_decimal(c as int)),
            Instruction::CLD(a, b, c) => line3("C.LD"@, abi_name(a)@, abi_name(b)@, signed_decimal(c as int)),
            Instruction::CFSD(a, b, c) => line3("C.FSD"@, abi_name(a)@, abi_name(b)@, signed_decimal(c as int)),
            Instruction::CSQ(a, b, c) => line3("C.SQ"@, abi_name(a)@, abi_name(b)@, signed_decimal(c as int)),
            Instruction::CSW(a, b, c) => line3("C.SW"@, abi_name(a)@, abi_name(b)@, signed_decimal(c as int)),
            Instruction::CFSW(a, b, c) => line3("C.FSW"@, abi_name(a)@, abi_name(b)@, signed_decimal(c as int)),
            Instruction::CSD(a, b, c) => line3("C.SD"@, abi_name(a)@, abi_name(b)@, signed_decimal(c as int)),
            Instruction::CNOP(a, b) => line2("C.NOP"@, abi_name(a)@, signed_decimal(b as int)),
            Instruction::CADDI(a, b) => line2("C.ADDI"@, abi_name(a)@, signed_decimal(b as int)),
            Instruction::CJAL(a) => line1("C.JAL"@, signed_decimal(a as int)),
            Instruction::CLI(a, b) => line2("C.LI"@, abi_name(a)@, signed_decimal(b as int)),
            Instruction::CADDI16SP(a, b) => line2("C.ADDI16SP"@, abi_name(a)@, signed_decimal(b as int)),
            Instruction::CLUI(a, b) => line2("C.LUI"@, abi_name(a)@, signed_decimal(b as int)),
            Instruction::CSRLI(a, b) => line2("C.SRLI"@, abi_name(a)@, signed_decimal(b as int)),
            Instruction::CSRAI(a, b) => line2("C.SRAI"@, abi_name(a)@, signed_decimal(b as int)),
            Instruction::CANDI(a, b) => line2("C.ANDI"@, abi_name(a)@, signed_decimal(b as int)),
            Instruction::CSUB(a, b) => line2("C.SUB"@, abi_name(a)@, abi_name(b)@),
            Instruction::CXOR(a, b) => line2("C.XOR"@, abi_name(a)@, abi_name(b)@),
            Instruction::COR(a, b) => line2("C.OR"@, abi_name(a)@, abi_name(b)@),
            Instruction::CAND(a, b) => line2("C.AND"@, abi_name(a)@, abi_name(b)@),
            Instruction::CJ(a) => line1("C.J"@, signed_decimal(a as int)),
            Instruction::CBEQZ(a, b) => line2("C.BEQZ"@, abi_name(a)@, signed_decimal(b as int)),
            Instruction::CBNEZ(a, b) => line2("C.BNEZ"@, abi_name(a)@, signed_decimal(b as int)),
            Instruction::CSLLI(a, b) => line2("C.SLLI"@, abi_name(a)@, signed_decimal(b as int)),
            Instruction::CFLDSP(a, b) => line2("C.FLDSP"@, abi_name(a)@, signed_decimal(b as int)),
            Instruction::CLWSP(a, b) => line2("C.LWSP"@, abi_name(a)@, signed_decimal(b as int)),
            Instruction::CFLWSP(a, b) => line2("C.FLWSP"@, abi_name(a)@, signed_decimal(b as int)),
            Instruction::CJR(a) => line1("C.JR"@, abi_name(a)@),
            Instruction::CMV(a, b) => line2("C.MV"@, abi_name(a)@, abi_name(b)@),
            Instruction::CEBREAK() => "C.EBREAK"@,
            Instruction::CJALR(a) => line1("C.JALR"@, abi_name(a)@),
            Instruction::CADD(a, b) => line2("C.ADD"@, abi_name(a)@, abi_name(b)@),
            Instruction::CFSDSP(a, b) => line2("C.FSDSP"@, abi_name(a)@, signed_decimal(b as int)),
            Instruction::CSWSP(a, b) => line2("C.SWSP"@, abi_name(a)@, signed_decimal(b as int)),
            Instruction::CFSWSP(a, b) => line2("C.FSWSP"@, abi_name(a)@, signed_decimal(b as int)),
            Instruction::WFI() => "wfi"@,
        }
    }

    /// The text of the instruction in the listing.
    pub fn print(&self) -> (r: String)
        requires
            reg_fields_in_range(*self),
        ensures
            r@ == self.text(),
    {
        match *self {
            Instruction::LUI(a, b) => text_ri("lui", a, b),
            Instruction::AUIPC(a, b) => text_ri("auipc", a, b),
            Instruction::JAL(a, b) => text_ri("jal", a, b),
            Instruction::JALR(a, b, c) => text_rri("jalr", a, b, c),
            Instruction::BEQ(a, b, c) => text_rri("beq", a, b, c),
            Instruction::BNE(a, b, c) => text_rri("bne", a, b, c),
            Instruction::BLT(a, b, c) => text_rri("blt", a, b, c),
            Instruction::BGE(a, b, c) => text_rri("bge", a, b, c),
            Instruction::BLTU(a, b, c) => text_rri("bltu", a, b, c),
            Instruction::BGEU(a, b, c) => text_rri("bgeu", a, b, c),
            Instruction::LB(a, b, c) => text_rri("lb", a, b, c),
            Instruction::LH(a, b, c) => text_rri("lh", a, b, c),
            Instruction::LW(a, b, c) => text_rri("lw", a, b, c),
            Instruction::LBU(a, b, c) => text_rri("lbu", a, b, c),
            Instruction::LHU(a, b, c) => text_rri("lhu", a, b, c),
            Instruction::SB(a, b, c) => text_rri("sb", a, b, c),
            Instruction::SH(a, b, c) => text_rri("sh", a, b, c),
            Instruction::SW(a, b, c) => text_rri("sw", a, b, c),
            Instruction::ADDI(a, b, c) => text_rri("addi", a, b, c),
            Instruction::SLTI(a, b, c) => text_rri("slti", a, b, c),
            Instruction::SLTIU(a, b, c) => text_rri("sltiu", a, b, c),
            Instruction::XORI(a, b, c) => text_rri("xori", a, b, c),
            Instruction::ORI(a, b, c) => text_rri("ori", a, b, c),
            Instruction::ANDI(a, b, c) => text_rri("andi", a, b, c),
            Instruction::SLLI(a, b, c) => text_rri("slli", a, b, c),
            Instruction::SRLI(a, b, c) => text_rri("srli", a, b, c),
            Instruction::SRAI(a, b, c) => text_rri("srai", a, b, c),
            Instruction::ADD(a, b, c) => text_rrr("add", a, b, c),
            Instruction::SUB(a, b, c) => text_rrr("sub", a, b, c),
            Instruction::SLL(a, b, c) => text_rrr("sll", a, b, c),
            Instruction::SLT(a, b, c) => text_rrr("slt", a, b, c),
            Instruction::SLTU(a, b, c) => text_rrr("sltu", a, b, c),
            Instruction::XOR(a, b, c) => text_rrr("xor", a, b, c),
            Instruction::SRL(a, b, c) => text_rrr("srl", a, b, c),
            Instruction::SRA(a, b, c) => text_rrr("sra", a, b, c),
            Instruction::OR(a, b, c) => text_rrr("or", a, b, c),
            Instruction::AND(a, b, c) => text_rrr("and", a, b, c),
            Instruction::FENCE(a, b, c) => text_rri("fence", a, b, c),
            Instruction::ECALL() => text_plain("ecall"),
            Instruction::EBREAK() => text_plain("ebreak"),
            Instruction::MRET() => text_plain("mret"),
            Instruction::CSRRW(a, b, c) => text_rru("csrrw", a, b, c),
            Instruction::CSRRS(a, b, c) => text_rru("csrrs", a, b, c),
            Instruction::CSRRC(a, b, c) => text_rru("csrrc", a, b, c),
            Instruction::CSRRWI(a, b, c) => text_rru("csrrwi", a, b, c),
            Instruction::CSRRSI(a, b, c) => text_rru("csrrsi", a, b, c),
            Instruction::CSRRCI(a, b, c) => text_rru("csrrci", a, b, c),
            Instruction::MUL(a, b, c) => text_rrr("mul", a, b, c),
            Instruction::MULH(a, b, c) => text_rrr("mulh", a, b, c),
            Instruction::MULHSU(a, b, c) => text_rrr("mulhsu", a, b, c),
            Instruction::MULHU(a, b, c) => text_rrr("mulhu", a, b, c),
            Instruction::DIV(a, b, c) => text_rrr("div", a, b, c),
            Instruction::DIVU(a, b, c) => text_rrr("divu", a, b, c),
            Instruction::REM(a, b, c) => text_rrr("rem", a, b, c),
            Instruction::REMU(a, b, c) => text_rrr("remu", a, b, c),
            Instruction::LRW(a, b) => text_rr("lrw", a, b),
            Instruction::SCW(a, b, c) => text_rrr("scw", a, b, c),
            Instruction::AMOSWAPW(a, b, c) => text_rrr("amoswapw", a, b, c),
            Instruction::AMOADDW(a, b, c) => text_rrr("amoaddw", a, b, c),
            Instruction::AMOXORW(a, b, c) => text_rrr("amoxorw", a, b, c),
            Instruction::AMOANDW(a, b, c) => text_rrr("amoandw", a, b, c),
            Instruction::AMOORW(a, b, c) => text_rrr("amoorw", a, b, c),
            Instruction::AMOMINW(a, b, c) => text_rrr("amominw", a, b, c),
            Instruction::AMOMAXW(a, b, c) => text_rrr("amomaxw", a, b, c),
            Instruction::AMOMINUW(a, b, c) => text_rrr("amominuw", a, b, c),
            Instruction::AMOMAXUW(a, b, c) => text_rrr("amomaxuw", a, b, c),
            Instruction::CADDI4SPN(a, b) => text_ri("C.ADDI4SPN", a, b),
            Instruction::CFLD(a, b, c) => text_rri("C.FLD", a, b, c),
            Instruction::CLQ(a, b, c) => text_rri("C.LQ", a, b, c),
            Instruction::CLW(a, b, c) => text_rri("C.LW", a, b, c),
            Instruction::CFLW(a, b, c) => text_rri("C.FLW", a, b, c),
            Instruction::CLD(a, b, c) => text_rri("C.LD", a, b, c),
            Instruction::CFSD(a, b, c) => text_rri("C.FSD", a, b, c),
            Instruction::CSQ(a, b, c) => text_rri("C.SQ", a, b, c),
            Instruction::CSW(a, b, c) => text_rri("C.SW", a, b, c),
            Instruction::CFSW(a, b, c) => text_rri("C.FSW", a, b, c),
            Instruction::CSD(a, b, c) => text_rri("C.SD", a, b, c),
            Instruction::CNOP(a, b) => text_ri("C.NOP", a, b),
            Instruction::CADDI(a, b) => text_ri("C.ADDI", a, b),
            Instruction::CJAL(a) => text_i("C.JAL", a),
            Instruction::CLI(a, b) => text_ri("C.LI", a, b),
            Instruction::CADDI16SP(a, b) => text_ri("C.ADDI16SP", a, b),
            Instruction::CLUI(a, b) => text_ri("C.LUI", a, b),
            Instruction::CSRLI(a, b) => text_ri("C.SRLI", a, b),
            Instruction::CSRAI(a, b) => text_ri("C.SRAI", a, b),
            Instruction::CANDI(a, b) => text_ri("C.ANDI", a, b),
            Instruction::CSUB(a, b) => text_rr("C.SUB", a, b),
            Instruction::CXOR(a, b) => text_rr("C.XOR", a, b),
            Instruction::COR(a, b) => text_rr("C.OR", a, b),
            Instruction::CAND(a, b) => text_rr("C.AND", a, b),
            Instruction::CJ(a) => text_i("C.J", a),
            Instruction::CBEQZ(a, b) => text_ri("C.BEQZ", a, b),
            Instruction::CBNEZ(a, b) => text_ri("C.BNEZ", a, b),
            Instruction::CSLLI(a, b) => text_ri("C.SLLI", a, b),
            Instruction::CFLDSP(a, b) => text_ri("C.FLDSP", a, b),
            Instruction::CLWSP(a, b) => text_ri("C.LWSP", a, b),
            Instruction::CFLWSP(a, b) => text_ri("C.FLWSP", a, b),
            Instruction::CJR(a) => text_r("C.JR", a),
            Instruction::CMV(a, b) => text_rr("C.MV", a, b),
            Instruction::CEBREAK() => text_plain("C.EBREAK"),
            Instruction::CJALR(a) => text_r("C.JALR", a),
            Instruction::CADD(a, b) => text_rr("C.ADD", a, b),
            Instruction::CFSDSP(a, b) => text_ri("C.FSDSP", a, b),
            Instruction::CSWSP(a, b) => text_ri("C.SWSP", a, b),
            Instruction::CFSWSP(a, b) => text_ri("C.FSWSP", a, b),
            Instruction::WFI() => text_plain("wfi"),
        }
    }
}

/// Whether a compressed instruction has a 32-bit expansion.
pub fn has_expansion(inst: &Instruction) -> (r: bool)
    ensures
        r == inst.spec_has_expansion(),
{
    inst.is_compressed() && !matches!(
        *inst,
        Instruction::CFLD(..) | Instruction::CLQ(..) | Instruction::CFLW(..) | Instruction::CLD(..)
            | Instruction::CFSD(..) | Instruction::CSQ(..) | Instruction::CFSW(..) | Instruction::CSD(..)
            | Instruction::CNOP(..) | Instruction::CFLDSP(..) | Instruction::CFLWSP(..)
            | Instruction::CFSDSP(..) | Instruction::CFSWSP(..)
    )
}

/// The 32-bit instruction that a compressed instruction stands for.
pub open spec fn expansion(inst: Instruction) -> Instruction {
    match inst {
        Instruction::CADDI4SPN(rd, imm) => Instruction::ADDI(rd, 2, imm),
        Instruction::CLW(rd, rs1, imm) => Instruction::LW(rd, rs1, imm),
        Instruction::CSW(rs1, rs2, imm) => Instruction::SW(rs1, rs2, imm),
        Instruction::CADDI(rd, imm) => Instruction::ADDI(rd, rd, imm),
        Instruction::CJAL(imm) => Instruction::JAL(1, imm),
        Instruction::CLI(rd, imm) => Instruction::ADDI(rd, 0, imm),
        Instruction::CADDI16SP(_rd, imm) => Instruction::ADDI(2, 2, imm),
        Instruction::CLUI(rd, imm) => Instruction::LUI(rd, imm),
        Instruction::CSRLI(rd, imm) => Instruction::SRLI(rd, rd, imm),
        Instruction::CSRAI(rd, imm) => Instruction::SRAI(rd, rd, imm),
        Instruction::CANDI(rd, imm) => Instruction::ANDI(rd, rd, imm),
        Instruction::CSUB(rd, rs2) => Instruction::SUB(rd, rd, rs2),
        Instruction::CXOR(rd, rs2) => Instruction::XOR(rd, rd, rs2),
        Instruction::COR(rd, rs2) => Instruction::OR(rd, rd, rs2),
        Instruction::CAND(rd, rs2) => Instruction::AND(rd, rd, rs2),
        Instruction::CJ(imm) => Instruction::JAL(0, imm),
        Instruction::CBEQZ(rs1, imm) => Instruction::BEQ(rs1, 0, imm),
        Instruction::CBNEZ(rs1, imm) => Instruction::BNE(rs1, 0, imm),
        Instruction::CSLLI(rd, imm) => Instruction::SLLI(rd, rd, imm),
        Instruction::CLWSP(rd, imm) => Instruction::LW(rd, 2, imm),
        Instruction::CJR(rs1) => Instruction::JALR(0, rs1, 0),
        Instruction::CMV(rd, rs2) => Instruction::ADD(rd, 0, rs2),
        Instruction::CEBREAK() => Instruction::EBREAK(),
        Instruction::CJALR(rs1) => Instruction::JALR(1, rs1, 0),
        Instruction::CADD(rd, rs2) => Instruction::ADD(rd, rd, rs2),
        Instruction::CSWSP(rs2, imm) => Instruction::SW(2, rs2, imm),
        _ => inst,
    }
}

/// Expands a compressed instruction into the 32-bit instruction it stands for.
pub fn decompress(inst: &Instruction) -> (r: Instruction)
    requires
        inst.spec_has_expansion(),
    ensures
        r == expansion(*inst),
{
    match *inst {
        Instruction::CADDI4SPN(rdindex, cnzuimmediate) => {
            Instruction::ADDI(rdindex, 2, cnzuimmediate)
        }
        Instruction::CLW(rdindex, rs1index, cuimmediate) => {
            Instruction::LW(rdindex, rs1index, cuimmediate)
        }
        Instruction::CSW(rdindex, rs1index, cuimmediate) => {
            Instruction::SW(rdindex, rs1index, cuimmediate)
        }
        Instruction::CADDI(rdindex, cnzimmediate) => {
            Instruction::ADDI(rdindex, rdindex, cnzimmediate)
        }
        Instruction::CJAL(cjimmediate) => Instruction::JAL(1, cjimmediate),
        Instruction::CLI(rdindex, cimmediate) => Instruction::ADDI(rdindex, 0, cimmediate),
        Instruction::CADDI16SP(_rdindex, cnzimmediate) => Instruction::ADDI(2, 2, cnzimmediate),
        Instruction::CLUI(rdindex, cnzimmediate) => Instruction::LUI(rdindex, cnzimmediate),
        Instruction::CSRLI(rdindex, cnzuimmediate) => {
            Instruction::SRLI(rdindex, rdindex, cnzuimmediate)
        }
        Instruction::CSRAI(rdindex, cnzuimmediate) => {
            Instruction::SRAI(rdindex, rdindex, cnzuimmediate)
        }
        Instruction::CANDI(rdindex, cnzuimmediate) => {
            Instruction::ANDI(rdindex, rdindex, cnzuimmediate)
        }
        Instruction::CSUB(rdindex, rs2index) => Instruction::SUB(rdindex, rdindex, rs2index),
        Instruction::CXOR(rdindex, rs2index) => Instruction::XOR(rdindex, rdindex, rs2index),
        Instruction::COR(rdindex, rs2index) => Instruction::OR(rdindex, rdindex, rs2index),
        Instruction::CAND(rdindex, rs2index) => Instruction::AND(rdindex, rdindex, rs2index),
        Instruction::CJ(cjimmediate) => Instruction::JAL(0, cjimmediate),
        Instruction::CBEQZ(rs1index, cimmediate) => Instruction::BEQ(rs1index, 0, cimmediate),
        Instruction::CBNEZ(rs1index, cimmediate) => Instruction::BNE(rs1index, 0, cimmediate),
        Instruction::CSLLI(rdindex, cnzuimmediate) => {
            Instruction::SLLI(rdindex, rdindex, cnzuimmediate)
        }
        Instruction::CLWSP(rdindex, cuimmediate) => Instruction::LW(rdindex, 2, cuimmediate),
        Instruction::CJR(rs1index) => Instruction::JALR(0, rs1index, 0),
        Instruction::CMV(rdindex, rs2index) => Instruction::ADD(rdindex, 0, rs2index),
        Instruction::CEBREAK() => Instruction::EBREAK(),
        Instruction::CJALR(rs1index) => Instruction::JALR(1, rs1index, 0),
        Instruction::CADD(rdindex, rs2index) => Instruction::ADD(rdindex, rdindex, rs2index),
        Instruction::CSWSP(rs2index, cluimmediate) => Instruction::SW(2, rs2index, cluimmediate),
        _ => *inst,
    }
}

/// `decompress` accepts exactly the compressed instructions but for the floating
/// point, RV64/RV128 loads and stores and `C.NOP`; what it gives is never
/// compressed, keeps the registers in range, and for `C.EBREAK` is `EBREAK`.
pub proof fn law_decompress(inst: Instruction)
    ensures
        inst.spec_has_expansion() <==> inst.spec_is_compressed() && !(inst matches Instruction::CFLD(..)
            || inst matches Instruction::CLQ(..) || inst matches Instruction::CFLW(..)
            || inst matches Instruction::CLD(..) || inst matches Instruction::CFSD(..)
            || inst matches Instruction::CSQ(..) || inst matches Instruction::CFSW(..)
            || inst matches Instruction::CSD(..) || inst matches Instruction::CNOP(..)
            || inst matches Instruction::CFLDSP(..) || inst matches Instruction::CFLWSP(..)
            || inst matches Instruction::CFSDSP(..) || inst matches Instruction::CFSWSP(..)),
        inst.spec_has_expansion() ==> !expansion(inst).spec_is_compressed(),
        inst.spec_has_expansion() && regs_in_range(inst) ==> regs_in_range(expansion(inst)),
        inst == Instruction::CEBREAK() ==> expansion(inst) == Instruction::EBREAK(),
{
}

/// The listing text of an instruction starts with `C.` exactly when the
/// instruction is compressed.
pub proof fn law_compressed_text(inst: Instruction)
    ensures
        inst.text().len() >= 2,
        (inst.text()[0] == 'C' && inst.text()[1] == '.') == inst.spec_is_compressed(),
{
    match inst {
        Instruction::LUI(..) => { reveal_strlit("lui"); }
        Instruction::AUIPC(..) => { reveal_strlit("auipc"); }
        Instruction::JAL(..) => { reveal_strlit("jal"); }
        Instruction::JALR(..) => { reveal_strlit("jalr"); }
        Instruction::BEQ(..) => { reveal_strlit("beq"); }
        Instruction::BNE(..) => { reveal_strlit("bne"); }
        Instruction::BLT(..) => { reveal_strlit("blt"); }
        Instruction::BGE(..) => { reveal_strlit("bge"); }
        Instruction::BLTU(..) => { reveal_strlit("bltu"); }
        Instruction::BGEU(..) => { reveal_strlit("bgeu"); }
        Instruction::LB(..) => { reveal_strlit("lb"); }
        Instruction::LH(..) => { reveal_strlit("lh"); }
        Instruction::LW(..) => { reveal_strlit("lw"); }
        Instruction::LBU(..) => { reveal_strlit("lbu"); }
        Instruction::LHU(..) => { reveal_strlit("lhu"); }
        Instruction::SB(..) => { reveal_strlit("sb"); }
        Instruction::SH(..) => { reveal_strlit("sh"); }
        Instruction::SW(..) => { reveal_strlit("sw"); }
        Instruction::ADDI(..) => { reveal_strlit("addi"); }
        Instruction::SLTI(..) => { reveal_strlit("slti"); }
        Instruction::SLTIU(..) => { reveal_strlit("sltiu"); }
        Instruction::XORI(..) => { reveal_strlit("xori"); }
        Instruction::ORI(..) => { reveal_strlit("ori"); }
        Instruction::ANDI(..) => { reveal_strlit("andi"); }
        Instruction::SLLI(..) => { reveal_strlit("slli"); }
        Instruction::SRLI(..) => { reveal_strlit("srli"); }
        Instruction::SRAI(..) => { reveal_strlit("srai"); }
        Instruction::ADD(..) => { reveal_strlit("add"); }
        Instruction::SUB(..) => { reveal_strlit("sub"); }
        Instruction::SLL(..) => { reveal_strlit("sll"); }
        Instruction::SLT(..) => { reveal_strlit("slt"); }
        Instruction::SLTU(..) => { reveal_strlit("sltu"); }
        Instruction::XOR(..) => { reveal_strlit("xor"); }
        Instruction::SRL(..) => { reveal_strlit("srl"); }
        Instruction::SRA(..) => { reveal_strlit("sra"); }
        Instruction::OR(..) => { reveal_strlit("or"); }
        Instruction::AND(..) => { reveal_strlit("and"); }
        Instruction::FENCE(..) => { reveal_strlit("fence"); }
        Instruction::ECALL(..) => { reveal_strlit("ecall"); }
        Instruction::EBREAK(..) => { reveal_strlit("ebreak"); }
        Instruction::MRET(..) => { reveal_strlit("mret"); }
        Instruction::CSRRW(..) => { reveal_strlit("csrrw"); }
        Instruction::CSRRS(..) => { reveal_strlit("csrrs"); }
        Instruction::CSRRC(..) => { reveal_strlit("csrrc"); }
        Instruction::CSRRWI(..) => { reveal_strlit("csrrwi"); }
        Instruction::CSRRSI(..) => { reveal_strlit("csrrsi"); }
        Instruction::CSRRCI(..) => { reveal_strlit("csrrci"); }
        Instruction::MUL(..) => { reveal_strlit("mul"); }
        Instruction::MULH(..) => { reveal_strlit("mulh"); }
        Instruction::MULHSU(..) => { reveal_strlit("mulhsu"); }
        Instruction::MULHU(..) => { reveal_strlit("mulhu"); }
        Instruction::DIV(..) => { reveal_strlit("div"); }
        Instruction::DIVU(..) => { reveal_strlit("divu"); }
        Instruction::REM(..) => { reveal_strlit("rem"); }
        Instruction::REMU(..) => { reveal_strlit("remu"); }
        Instruction::LRW(..) => { reveal_strlit("lrw"); }
        Instruction::SCW(..) => { reveal_strlit("scw"); }
        Instruction::AMOSWAPW(..) => { reveal_strlit("amoswapw"); }
        Instruction::AMOADDW(..) => { reveal_strlit("amoaddw"); }
        Instruction::AMOXORW(..) => { reveal_strlit("amoxorw"); }
        Instruction::AMOANDW(..) => { reveal_strlit("amoandw"); }
        Instruction::AMOORW(..) => { reveal_strlit("amoorw"); }
        Instruction::AMOMINW(..) => { reveal_strlit("amominw"); }
        Instruction::AMOMAXW(..) => { reveal_strlit("amomaxw"); }
        Instruction::AMOMINUW(..) => { reveal_strlit("amominuw"); }
        Instruction::AMOMAXUW(..) => { reveal_strlit("amomaxuw"); }
        Instruction::CADDI4SPN(..) => { reveal_strlit("C.ADDI4SPN"); }
        Instruction::CFLD(..) => { reveal_strlit("C.FLD"); }
        Instruction::CLQ(..) => { reveal_strlit("C.LQ"); }
        Instruction::CLW(..) => { reveal_strlit("C.LW"); }
        Instruction::CFLW(..) => { reveal_strlit("C.FLW"); }
        Instruction::CLD(..) => { reveal_strlit("C.LD"); }
        Instruction::CFSD(..) => { reveal_strlit("C.FSD"); }
        Instruction::CSQ(..) => { reveal_strlit("C.SQ"); }
        Instruction::CSW(..) => { reveal_strlit("C.SW"); }
        Instruction::CFSW(..) => { reveal_strlit("C.FSW"); }
        Instruction::CSD(..) => { reveal_strlit("C.SD"); }
        Instruction::CNOP(..) => { reveal_strlit("C.NOP"); }
        Instruction::CADDI(..) => { reveal_strlit("C.ADDI"); }
        Instruction::CJAL(..) => { reveal_strlit("C.JAL"); }
        Instruction::CLI(..) => { reveal_strlit("C.LI"); }
        Instruction::CADDI16SP(..) => { reveal_strlit("C.ADDI16SP"); }
        Instruction::CLUI(..) => { reveal_strlit("C.LUI"); }
        Instruction::CSRLI(..) => { reveal_strlit("C.SRLI"); }
        Instruction::CSRAI(..) => { reveal_strlit("C.SRAI"); }
        Instruction::CANDI(..) => { reveal_strlit("C.ANDI"); }
        Instruction::CSUB(..) => { reveal_strlit("C.SUB"); }
        Instruction::CXOR(..) => { reveal_strlit("C.XOR"); }
        Instruction::COR(..) => { reveal_strlit("C.OR"); }
        Instruction::CAND(..) => { reveal_strlit("C.AND"); }
        Instruction::CJ(..) => { reveal_strlit("C.J"); }
        Instruction::CBEQZ(..) => { reveal_strlit("C.BEQZ"); }
        Instruction::CBNEZ(..) => { reveal_strlit("C.BNEZ"); }
        Instruction::CSLLI(..) => { reveal_strlit("C.SLLI"); }
        Instruction::CFLDSP(..) => { reveal_strlit("C.FLDSP"); }
        Instruction::CLWSP(..) => { reveal_strlit("C.LWSP"); }
        Instruction::CFLWSP(..) => { reveal_strlit("C.FLWSP"); }
        Instruction::CJR(..) => { reveal_strlit("C.JR"); }
        Instruction::CMV(..) => { reveal_strlit("C.MV"); }
        Instruction::CEBREAK(..) => { reveal_strlit("C.EBREAK"); }
        Instruction::CJALR(..) => { reveal_strlit("C.JALR"); }
        Instruction::CADD(..) => { reveal_strlit("C.ADD"); }
        Instruction::CFSDSP(..) => { reveal_strlit("C.FSDSP"); }
        Instruction::CSWSP(..) => { reveal_strlit("C.SWSP"); }
        Instruction::CFSWSP(..) => { reveal_strlit("C.FSWSP"); }
        Instruction::WFI(..) => { reveal_strlit("wfi"); }
    }
}

proof fn lemma_lines_start_with(mn: Seq<char>)
    ensures
        forall|x: Seq<char>| #![trigger line1(mn, x)] line1(mn, x).len() > mn.len()
            && line1(mn, x).subrange(0, mn.len() as int) == mn && line1(mn, x)[mn.len() as int] == ' ',
        forall|x: Seq<char>, y: Seq<char>| #![trigger line2(mn, x, y)] line2(mn, x, y).len() > mn.len()
            && line2(mn, x, y).subrange(0, mn.len() as int) == mn && line2(mn, x, y)[mn.len() as int] == ' ',
        forall|x: Seq<char>, y: Seq<char>, z: Seq<char>| #![trigger line3(mn, x, y, z)] line3(mn, x, y, z).len()
            > mn.len() && line3(mn, x, y, z).subrange(0, mn.len() as int) == mn && line3(mn, x, y, z)[mn.len() as int]
            == ' ',
{
    assert forall|x: Seq<char>| #![trigger line1(mn, x)] line1(mn, x).len() > mn.len()
        && line1(mn, x).subrange(0, mn.len() as int) == mn && line1(mn, x)[mn.len() as int] == ' ' by {
        assert(line1(mn, x).subrange(0, mn.len() as int) =~= mn);
    }
    assert forall|x: Seq<char>, y: Seq<char>| #![trigger line2(mn, x, y)] line2(mn, x, y).len() > mn.len()
        && line2(mn, x, y).subrange(0, mn.len() as int) == mn && line2(mn, x, y)[mn.len() as int] == ' ' by {
        assert(line2(mn, x, y).subrange(0, mn.len() as int) =~= mn);
    }
    assert forall|x: Seq<char>, y: Seq<char>, z: Seq<char>| #![trigger line3(mn, x, y, z)] line3(mn, x, y, z).len()
        > mn.len() && line3(mn, x, y, z).subrange(0, mn.len() as int) == mn && line3(mn, x, y, z)[mn.len() as int]
        == ' ' by {
        assert(line3(mn, x, y, z).subrange(0, mn.len() as int) =~= mn);
    }
}

/// The listing text of an instruction starts with its mnemonic, a word without
/// blanks, followed by a blank where operands follow.
pub proof fn law_text_first_word(inst: Instruction)
    ensures
        inst.mnemonic().len() >= 2,
        forall|j: int| 0 <= j < inst.mnemonic().len() ==> #[trigger] inst.mnemonic()[j] != ' ',
        inst.text().len() >= inst.mnemonic().len(),
        inst.text().subrange(0, inst.mnemonic().len() as int) == inst.mnemonic(),
        inst.text().len() == inst.mnemonic().len() || inst.text()[inst.mnemonic().len() as int] == ' ',
{
    match inst {
        Instruction::LUI(..) => {
            reveal_strlit("lui");
            lemma_lines_start_with("lui"@);
        }
        Instruction::AUIPC(..) => {
            reveal_strlit("auipc");
            lemma_lines_start_with("auipc"@);
        }
        Instruction::JAL(..) => {
            reveal_strlit("jal");
            lemma_lines_start_with("jal"@);
        }
        Instruction::JALR(..) => {
            reveal_strlit("jalr");
            lemma_lines_start_with("jalr"@);
        }
        Instruction::BEQ(..) => {
            reveal_strlit("beq");
            lemma_lines_start_with("beq"@);
        }
        Instruction::BNE(..) => {
            reveal_strlit("bne");
            lemma_lines_start_with("bne"@);
        }
        Instruction::BLT(..) => {
            reveal_strlit("blt");
            lemma_lines_start_with("blt"@);
        }
        Instruction::BGE(..) => {
            reveal_strlit("bge");
            lemma_lines_start_with("bge"@);
        }
        Instruction::BLTU(..) => {
            reveal_strlit("bltu");
            lemma_lines_start_with("bltu"@);
        }
        Instruction::BGEU(..) => {
            reveal_strlit("bgeu");
            lemma_lines_start_with("bgeu"@);
        }
        Instruction::LB(..) => {
            reveal_strlit("lb");
            lemma_lines_start_with("lb"@);
        }
        Instruction::LH(..) => {
            reveal_strlit("lh");
            lemma_lines_start_with("lh"@);
        }
        Instruction::LW(..) => {
            reveal_strlit("lw");
            lemma_lines_start_with("lw"@);
        }
        Instruction::LBU(..) => {
            reveal_strlit("lbu");
            lemma_lines_start_with("lbu"@);
        }
        Instruction::LHU(..) => {
            reveal_strlit("lhu");
            lemma_lines_start_with("lhu"@);
        }
        Instruction::SB(..) => {
            reveal_strlit("sb");
            lemma_lines_start_with("sb"@);
        }
        Instruction::SH(..) => {
            reveal_strlit("sh");
            lemma_lines_start_with("sh"@);
        }
        Instruction::SW(..) => {
            reveal_strlit("sw");
            lemma_lines_start_with("sw"@);
        }
        Instruction::ADDI(..) => {
            reveal_strlit("addi");
            lemma_lines_start_with("addi"@);
        }
        Instruction::SLTI(..) => {
            reveal_strlit("slti");
            lemma_lines_start_with("slti"@);
        }
        Instruction::SLTIU(..) => {
            reveal_strlit("sltiu");
            lemma_lines_start_with("sltiu"@);
        }
        Instruction::XORI(..) => {
            reveal_strlit("xori");
            lemma_lines_start_with("xori"@);
        }
        Instruction::ORI(..) => {
            reveal_strlit("ori");
            lemma_lines_start_with("ori"@);
        }
        Instruction::ANDI(..) => {
            reveal_strlit("andi");
            lemma_lines_start_with("andi"@);
        }
        Instruction::SLLI(..) => {
            reveal_strlit("slli");
            lemma_lines_start_with("slli"@);
        }
        Instruction::SRLI(..) => {
            reveal_strlit("srli");
            lemma_lines_start_with("srli"@);
        }
        Instruction::SRAI(..) => {
            reveal_strlit("srai");
            lemma_lines_start_with("srai"@);
        }
        Instruction::ADD(..) => {
            reveal_strlit("add");
            lemma_lines_start_with("add"@);
        }
        Instruction::SUB(..) => {
            reveal_strlit("sub");
            lemma_lines_start_with("sub"@);
        }
        Instruction::SLL(..) => {
            reveal_strlit("sll");
            lemma_lines_start_with("sll"@);
        }
        Instruction::SLT(..) => {
            reveal_strlit("slt");
            lemma_lines_start_with("slt"@);
        }
        Instruction::SLTU(..) => {
            reveal_strlit("sltu");
            lemma_lines_start_with("sltu"@);
        }
        Instruction::XOR(..) => {
            reveal_strlit("xor");
            lemma_lines_start_with("xor"@);
        }
        Instruction::SRL(..) => {
            reveal_strlit("srl");
            lemma_lines_start_with("srl"@);
        }
        Instruction::SRA(..) => {
            reveal_strlit("sra");
            lemma_lines_start_with("sra"@);
        }
        Instruction::OR(..) => {
            reveal_strlit("or");
            lemma_lines_start_with("or"@);
        }
        Instruction::AND(..) => {
            reveal_strlit("and");
            lemma_lines_start_with("and"@);
        }
        Instruction::FENCE(..) => {
            reveal_strlit("fence");
            lemma_lines_start_with("fence"@);
        }
        Instruction::ECALL(..) => {
            reveal_strlit("ecall");
            lemma_lines_start_with("ecall"@);
        }
        Instruction::EBREAK(..) => {
            reveal_strlit("ebreak");
            lemma_lines_start_with("ebreak"@);
        }
        Instruction::MRET(..) => {
            reveal_strlit("mret");
            lemma_lines_start_with("mret"@);
        }
        Instruction::CSRRW(..) => {
            reveal_strlit("csrrw");
            lemma_lines_start_with("csrrw"@);
        }
        Instruction::CSRRS(..) => {
            reveal_strlit("csrrs");
            lemma_lines_start_with("csrrs"@);
        }
        Instruction::CSRRC(..) => {
            reveal_strlit("csrrc");
            lemma_lines_start_with("csrrc"@);
        }
        Instruction::CSRRWI(..) => {
            reveal_strlit("csrrwi");
            lemma_lines_start_with("csrrwi"@);
        }
        Instruction::CSRRSI(..) => {
            reveal_strlit("csrrsi");
            lemma_lines_start_with("csrrsi"@);
        }
        Instruction::CSRRCI(..) => {
            reveal_strlit("csrrci");
            lemma_lines_start_with("csrrci"@);
        }
        Instruction::MUL(..) => {
            reveal_strlit("mul");
            lemma_lines_start_with("mul"@);
        }
        Instruction::MULH(..) => {
            reveal_strlit("mulh");
            lemma_lines_start_with("mulh"@);
        }
        Instruction::MULHSU(..) => {
            reveal_strlit("mulhsu");
            lemma_lines_start_with("mulhsu"@);
        }
        Instruction::MULHU(..) => {
            reveal_strlit("mulhu");
            lemma_lines_start_with("mulhu"@);
        }
        Instruction::DIV(..) => {
            reveal_strlit("div");
            lemma_lines_start_with("div"@);
        }
        Instruction::DIVU(..) => {
            reveal_strlit("divu");
            lemma_lines_start_with("divu"@);
        }
        Instruction::REM(..) => {
            reveal_strlit("rem");
            lemma_lines_start_with("rem"@);
        }
        Instruction::REMU(..) => {
            reveal_strlit("remu");
            lemma_lines_start_with("remu"@);
        }
        Instruction::LRW(..) => {
            reveal_strlit("lrw");
            lemma_lines_start_with("lrw"@);
        }
        Instruction::SCW(..) => {
            reveal_strlit("scw");
            lemma_lines_start_with("scw"@);
        }
        Instruction::AMOSWAPW(..) => {
            reveal_strlit("amoswapw");
            lemma_lines_start_with("amoswapw"@);
        }
        Instruction::AMOADDW(..) => {
            reveal_strlit("amoaddw");
            lemma_lines_start_with("amoaddw"@);
        }
        Instruction::AMOXORW(..) => {
            reveal_strlit("amoxorw");
            lemma_lines_start_with("amoxorw"@);
        }
        Instruction::AMOANDW(..) => {
            reveal_strlit("amoandw");
            lemma_lines_start_with("amoandw"@);
        }
        Instruction::AMOORW(..) => {
            reveal_strlit("amoorw");
            lemma_lines_start_with("amoorw"@);
        }
        Instruction::AMOMINW(..) => {
            reveal_strlit("amominw");
            lemma_lines_start_with("amominw"@);
        }
        Instruction::AMOMAXW(..) => {
            reveal_strlit("amomaxw");
            lemma_lines_start_with("amomaxw"@);
        }
        Instruction::AMOMINUW(..) => {
            reveal_strlit("amominuw");
            lemma_lines_start_with("amominuw"@);
        }
        Instruction::AMOMAXUW(..) => {
            reveal_strlit("amomaxuw");
            lemma_lines_start_with("amomaxuw"@);
        }
        Instruction::CADDI4SPN(..) => {
            reveal_strlit("C.ADDI4SPN");
            lemma_lines_start_with("C.ADDI4SPN"@);
        }
        Instruction::CFLD(..) => {
            reveal_strlit("C.FLD");
            lemma_lines_start_with("C.FLD"@);
        }
        Instruction::CLQ(..) => {
            reveal_strlit("C.LQ");
            lemma_lines_start_with("C.LQ"@);
        }
        Instruction::CLW(..) => {
            reveal_strlit("C.LW");
            lemma_lines_start_with("C.LW"@);
        }
        Instruction::CFLW(..) => {
            reveal_strlit("C.FLW");
            lemma_lines_start_with("C.FLW"@);
        }
        Instruction::CLD(..) => {
            reveal_strlit("C.LD");
            lemma_lines_start_with("C.LD"@);
        }
        Instruction::CFSD(..) => {
            reveal_strlit("C.FSD");
            lemma_lines_start_with("C.FSD"@);
        }
        Instruction::CSQ(..) => {
            reveal_strlit("C.SQ");
            lemma_lines_start_with("C.SQ"@);
        }
        Instruction::CSW(..) => {
            reveal_strlit("C.SW");
            lemma_lines_start_with("C.SW"@);
        }
        Instruction::CFSW(..) => {
            reveal_strlit("C.FSW");
            lemma_lines_start_with("C.FSW"@);
        }
        Instruction::CSD(..) => {
            reveal_strlit("C.SD");
            lemma_lines_start_with("C.SD"@);
        }
        Instruction::CNOP(..) => {
            reveal_strlit("C.NOP");
            lemma_lines_start_with("C.NOP"@);
        }
        Instruction::CADDI(..) => {
            reveal_strlit("C.ADDI");
            lemma_lines_start_with("C.ADDI"@);
        }
        Instruction::CJAL(..) => {
            reveal_strlit("C.JAL");
            lemma_lines_start_with("C.JAL"@);
        }
        Instruction::CLI(..) => {
            reveal_strlit("C.LI");
            lemma_lines_start_with("C.LI"@);
        }
        Instruction::CADDI16SP(..) => {
            reveal_strlit("C.ADDI16SP");
            lemma_lines_start_with("C.ADDI16SP"@);
        }
        Instruction::CLUI(..) => {
            reveal_strlit("C.LUI");
            lemma_lines_start_with("C.LUI"@);
        }
        Instruction::CSRLI(..) => {
            reveal_strlit("C.SRLI");
            lemma_lines_start_with("C.SRLI"@);
        }
        Instruction::CSRAI(..) => {
            reveal_strlit("C.SRAI");
            lemma_lines_start_with("C.SRAI"@);
        }
        Instruction::CANDI(..) => {
            reveal_strlit("C.ANDI");
            lemma_lines_start_with("C.ANDI"@);
        }
        Instruction::CSUB(..) => {
            reveal_strlit("C.SUB");
            lemma_lines_start_with("C.SUB"@);
        }
        Instruction::CXOR(..) => {
            reveal_strlit("C.XOR");
            lemma_lines_start_with("C.XOR"@);
        }
        Instruction::COR(..) => {
            reveal_strlit("C.OR");
            lemma_lines_start_with("C.OR"@);
        }
        Instruction::CAND(..) => {
            reveal_strlit("C.AND");
            lemma_lines_start_with("C.AND"@);
        }
        Instruction::CJ(..) => {
            reveal_strlit("C.J");
            lemma_lines_start_with("C.J"@);
        }
        Instruction::CBEQZ(..) => {
            reveal_strlit("C.BEQZ");
            lemma_lines_start_with("C.BEQZ"@);
        }
        Instruction::CBNEZ(..) => {
            reveal_strlit("C.BNEZ");
            lemma_lines_start_with("C.BNEZ"@);
        }
        Instruction::CSLLI(..) => {
            reveal_strlit("C.SLLI");
            lemma_lines_start_with("C.SLLI"@);
        }
        Instruction::CFLDSP(..) => {
            reveal_strlit("C.FLDSP");
            lemma_lines_start_with("C.FLDSP"@);
        }
        Instruction::CLWSP(..) => {
            reveal_strlit("C.LWSP");
            lemma_lines_start_with("C.LWSP"@);
        }
        Instruction::CFLWSP(..) => {
            reveal_strlit("C.FLWSP");
            lemma_lines_start_with("C.FLWSP"@);
        }
        Instruction::CJR(..) => {
            reveal_strlit("C.JR");
            lemma_lines_start_with("C.JR"@);
        }
        Instruction::CMV(..) => {
            reveal_strlit("C.MV");
            lemma_lines_start_with("C.MV"@);
        }
        Instruction::CEBREAK(..) => {
            reveal_strlit("C.EBREAK");
            lemma_lines_start_with("C.EBREAK"@);
        }
        Instruction::CJALR(..) => {
            reveal_strlit("C.JALR");
            lemma_lines_start_with("C.JALR"@);
        }
        Instruction::CADD(..) => {
            reveal_strlit("C.ADD");
            lemma_lines_start_with("C.ADD"@);
        }
        Instruction::CFSDSP(..) => {
            reveal_strlit("C.FSDSP");
            lemma_lines_start_with("C.FSDSP"@);
        }
        Instruction::CSWSP(..) => {
            reveal_strlit("C.SWSP");
            lemma_lines_start_with("C.SWSP"@);
        }
        Instruction::CFSWSP(..) => {
            reveal_strlit("C.FSWSP");
            lemma_lines_start_with("C.FSWSP"@);
        }
        Instruction::WFI(..) => {
            reveal_strlit("wfi");
            lemma_lines_start_with("wfi"@);
        }
    }
    assert(inst.text().subrange(0, inst.mnemonic().len() as int) =~= inst.mnemonic());
}

/// The listing text of an instruction is its mnemonic, a blank, and its operands
/// in the order of its fields, separated by a comma and a blank: registers by
/// their ABI names, immediates in signed decimal, CSR addresses in decimal.
/// Instructions without operands are listed by their mnemonic alone.
pub proof fn law_text_operands(inst: Instruction)
    ensures
        match inst {
            Instruction::LUI(a, b)
            | Instruction::AUIPC(a, b)
            | Instruction::JAL(a, b)
            | Instruction::CADDI4SPN(a, b)
            | Instruction::CNOP(a, b)
            | Instruction::CADDI(a, b)
            | Instruction::CLI(a, b)
            | Instruction::CADDI16SP(a, b)
            | Instruction::CLUI(a, b)
            | Instruction::CSRLI(a, b)
            | Instruction::CSRAI(a, b)
            | Instruction::CANDI(a, b)
            | Instruction::CBEQZ(a, b)
            | Instruction::CBNEZ(a, b)
            | Instruction::CSLLI(a, b)
            | Instruction::CFLDSP(a, b)
            | Instruction::CLWSP(a, b)
            | Instruction::CFLWSP(a, b)
            | Instruction::CFSDSP(a, b)
            | Instruction::CSWSP(a, b)
            | Instruction::CFSWSP(a, b) =>
                inst.text() == inst.mnemonic() + seq![' '] + abi_name(a)@ + seq![',', ' '] + signed_decimal(b as int),
            Instruction::JALR(a, b, c)
            | Instruction::BEQ(a, b, c)
            | Instruction::BNE(a, b, c)
            | Instruction::BLT(a, b, c)
            | Instruction::BGE(a, b, c)
            | Instruction::BLTU(a, b, c)
            | Instruction::BGEU(a, b, c)
            | Instruction::LB(a, b, c)
            | Instruction::LH(a, b, c)
            | Instruction::LW(a, b, c)
            | Instruction::LBU(a, b, c)
            | Instruction::LHU(a, b, c)
            | Instruction::SB(a, b, c)
            | Instruction::SH(a, b, c)
            | Instruction::SW(a, b, c)
            | Instruction::ADDI(a, b, c)
            | Instruction::SLTI(a, b, c)
            | Instruction::SLTIU(a, b, c)
            | Instruction::XORI(a, b, c)
            | Instruction::ORI(a, b, c)
            | Instruction::ANDI(a, b, c)
            | Instruction::SLLI(a, b, c)
            | Instruction::SRLI(a, b, c)
            | Instruction::SRAI(a, b, c)
            | Instruction::FENCE(a, b, c)
            | Instruction::CFLD(a, b, c)
            | Instruction::CLQ(a, b, c)
            | Instruction::CLW(a, b, c)
            | Instruction::CFLW(a, b, c)
            | Instruction::CLD(a, b, c)
            | Instruction::CFSD(a, b, c)
            | Instruction::CSQ(a, b, c)
            | Instruction::CSW(a, b, c)
            | Instruction::CFSW(a, b, c)
            | Instruction::CSD(a, b, c) =>
                inst.text() == inst.mnemonic() + seq![' '] + abi_name(a)@ + seq![',', ' '] + abi_name(b)@ + seq![',', ' '] + signed_decimal(c as int),
            Instruction::ADD(a, b, c)
            | Instruction::SUB(a, b, c)
            | Instruction::SLL(a, b, c)
            | Instruction::SLT(a, b, c)
            | Instruction::SLTU(a, b, c)
            | Instruction::XOR(a, b, c)
            | Instruction::SRL(a, b, c)
            | Instruction::SRA(a, b, c)
            | Instruction::OR(a, b, c)
            | Instruction::AND(a, b, c)
            | Instruction::MUL(a, b, c)
            | Instruction::MULH(a, b, c)
            | Instruction::MULHSU(a, b, c)
            | Instruction::MULHU(a, b, c)
            | Instruction::DIV(a, b, c)
            | Instruction::DIVU(a, b, c)
            | Instruction::REM(a, b, c)
            | Instruction::REMU(a, b, c)
            | Instruction::SCW(a, b, c)
            | Instruction::AMOSWAPW(a, b, c)
            | Instruction::AMOADDW(a, b, c)
            | Instruction::AMOXORW(a, b, c)
            | Instruction::AMOANDW(a, b, c)
            | Instruction::AMOORW(a, b, c)
            | Instruction::AMOMINW(a, b, c)
            | Instruction::AMOMAXW(a, b, c)
            | Instruction::AMOMINUW(a, b, c)
            | Instruction::AMOMAXUW(a, b, c) =>
                inst.text() == inst.mnemonic() + seq![' '] + abi_name(a)@ + seq![',', ' '] + abi_name(b)@ + seq![',', ' '] + abi_name(c)@,
            Instruction::CSRRW(a, b, c)
            | Instruction::CSRRS(a, b, c)
            | Instruction::CSRRC(a, b, c)
            | Instruction::CSRRWI(a, b, c)
            | Instruction::CSRRSI(a, b, c)
            | Instruction::CSRRCI(a, b, c) =>
                inst.text() == inst.mnemonic() + seq![' '] + abi_name(a)@ + seq![',', ' '] + abi_name(b)@ + seq![',', ' '] + decimal(c as nat),
            Instruction::LRW(a, b)
            | Instruction::CSUB(a, b)
            | Instruction::CXOR(a, b)
            | Instruction::COR(a, b)
            | Instruction::CAND(a, b)
            | Instruction::CMV(a, b)
            | Instruction::CADD(a, b) =>
                inst.text() == inst.mnemonic() + seq![' '] + abi_name(a)@ + seq![',', ' '] + abi_name(b)@,
            Instruction::CJAL(a)
            | Instruction::CJ(a) =>
                inst.text() == inst.mnemonic() + seq![' '] + signed_decimal(a as int),
            Instruction::CJR(a)
            | Instruction::CJALR(a) =>
                inst.text() == inst.mnemonic() + seq![' '] + abi_name(a)@,
            _ => inst.text() == inst.mnemonic(),
        },
{
}

} // verus!
