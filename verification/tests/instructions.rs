use triops::instructions::{decompress, Instruction};
use triops::register::index_to_name;

#[test]
fn print_shows_mnemonic_and_operands() {
    assert_eq!(Instruction::ADDI(1, 0, -1).print(), "addi ra, zero, -1");
    assert_eq!(Instruction::LUI(5, 74565).print(), "lui t0, 74565");
    assert_eq!(Instruction::SW(2, 1, 12).print(), "sw sp, ra, 12");
    assert_eq!(Instruction::ADD(10, 11, 12).print(), "add a0, a1, a2");
    assert_eq!(Instruction::CSRRW(5, 6, 773).print(), "csrrw t0, t1, 773");
    assert_eq!(Instruction::LRW(10, 11).print(), "lrw a0, a1");
}

#[test]
fn print_shows_plain_and_compressed_instructions() {
    assert_eq!(Instruction::ECALL().print(), "ecall");
    assert_eq!(Instruction::EBREAK().print(), "ebreak");
    assert_eq!(Instruction::MRET().print(), "mret");
    assert_eq!(Instruction::WFI().print(), "wfi");
    assert_eq!(Instruction::CEBREAK().print(), "C.EBREAK");
    assert_eq!(Instruction::CJR(1).print(), "C.JR ra");
    assert_eq!(Instruction::CJ(-2).print(), "C.J -2");
    assert_eq!(Instruction::CLI(10, 1).print(), "C.LI a0, 1");
    assert_eq!(Instruction::CLW(10, 11, 4).print(), "C.LW a0, a1, 4");
    assert_eq!(Instruction::CSWSP(31, 2147483647).print(), "C.SWSP t6, 2147483647");
    assert_eq!(Instruction::CADDI(8, -2147483648).print(), "C.ADDI s0, -2147483648");
}

#[test]
fn register_names_follow_the_abi() {
    assert_eq!(index_to_name(0), "zero");
    assert_eq!(index_to_name(2), "sp");
    assert_eq!(index_to_name(8), "s0");
    assert_eq!(index_to_name(17), "a7");
    assert_eq!(index_to_name(31), "t6");
}

#[test]
fn classification() {
    assert!(Instruction::CSRRCI(0, 0, 0).is_zicsr());
    assert!(!Instruction::ADD(0, 0, 0).is_zicsr());
    assert!(Instruction::MULHU(1, 2, 3).is_m());
    assert!(!Instruction::SUB(1, 2, 3).is_m());
    assert!(Instruction::CEBREAK().is_compressed());
    assert!(Instruction::CFSWSP(1, 0).is_compressed());
    assert!(!Instruction::EBREAK().is_compressed());
    assert!(!Instruction::WFI().is_compressed());
}

#[test]
fn decompress_expands_to_32_bit_instructions() {
    assert_eq!(decompress(&Instruction::CADDI4SPN(8, 16)), Instruction::ADDI(8, 2, 16));
    assert_eq!(decompress(&Instruction::CLI(10, 5)), Instruction::ADDI(10, 0, 5));
    assert_eq!(decompress(&Instruction::CADDI16SP(2, -48)), Instruction::ADDI(2, 2, -48));
    assert_eq!(decompress(&Instruction::CJ(-2)), Instruction::JAL(0, -2));
    assert_eq!(decompress(&Instruction::CJAL(8)), Instruction::JAL(1, 8));
    assert_eq!(decompress(&Instruction::CBNEZ(9, 4)), Instruction::BNE(9, 0, 4));
    assert_eq!(decompress(&Instruction::CMV(10, 11)), Instruction::ADD(10, 0, 11));
    assert_eq!(decompress(&Instruction::CJALR(5)), Instruction::JALR(1, 5, 0));
    assert_eq!(decompress(&Instruction::CSWSP(1, 12)), Instruction::SW(2, 1, 12));
    assert_eq!(decompress(&Instruction::CEBREAK()), Instruction::EBREAK());
    assert!(!decompress(&Instruction::CSUB(8, 9)).is_compressed());
}

#[test]
fn has_expansion_excludes_floating_point() {
    assert!(triops::instructions::has_expansion(&Instruction::CLW(8, 9, 0)));
    assert!(!triops::instructions::has_expansion(&Instruction::CFLW(8, 9, 0)));
    assert!(!triops::instructions::has_expansion(&Instruction::CNOP(0, 0)));
    assert!(!triops::instructions::has_expansion(&Instruction::ADD(1, 2, 3)));
}
