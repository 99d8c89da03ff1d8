use triops::decoder::decode;
use triops::decoder::decoder_q0;
use triops::decoder::decoder_q1;
use triops::decoder::decoder_q2;
use triops::decoder::decoder_q3;
use triops::instructions::Instruction;

#[test]
fn q3_decodes_addi_nop() {
    assert_eq!(decoder_q3::decode(0x0000_0013), Ok(Instruction::ADDI(0, 0, 0)));
}

#[test]
fn q3_decodes_negative_i_immediate() {
    // addi ra, zero, -1
    assert_eq!(decoder_q3::decode(0xFFF0_0093), Ok(Instruction::ADDI(1, 0, -1)));
    // lw a0, -4(sp)
    assert_eq!(decoder_q3::decode(0xFFC1_2503), Ok(Instruction::LW(10, 2, -4)));
}

#[test]
fn q3_decodes_lui_and_auipc() {
    assert_eq!(decoder_q3::decode(0x1234_52B7), Ok(Instruction::LUI(5, 0x1234_5000)));
    assert_eq!(decoder_q3::decode(0xFFFF_F517), Ok(Instruction::AUIPC(10, -4096)));
}

#[test]
fn q3_decodes_stores() {
    // sw a1, 8(a0)
    assert_eq!(decoder_q3::decode(0x00B5_2423), Ok(Instruction::SW(10, 11, 8)));
    // sb a1, -1(a0)
    assert_eq!(decoder_q3::decode(0xFEB5_0FA3), Ok(Instruction::SB(10, 11, -1)));
}

#[test]
fn q3_decodes_branches() {
    // beq a0, a1, 8
    assert_eq!(decoder_q3::decode(0x00B5_0463), Ok(Instruction::BEQ(10, 11, 8)));
    // bne a0, zero, -4: bit 7 of the word is set, so the offset is sign-extended from there
    assert_eq!(decoder_q3::decode(0xFE05_1EE3), Ok(Instruction::BNE(10, 0, -4)));
    // bltu with offset 2048 + 4: bit 7 set as well
    assert_eq!(decoder_q3::decode(0x00B5_62E3), Ok(Instruction::BLTU(10, 11, 4 + 2048 - 4096)));
}

#[test]
fn q3_decodes_jumps() {
    // jal ra, 16
    assert_eq!(decoder_q3::decode(0x0100_00EF), Ok(Instruction::JAL(1, 16)));
    // jal zero, -8
    assert_eq!(decoder_q3::decode(0xFF9F_F06F), Ok(Instruction::JAL(0, -8)));
    // jalr zero, 0(ra)
    assert_eq!(decoder_q3::decode(0x0000_8067), Ok(Instruction::JALR(0, 1, 0)));
}

#[test]
fn q3_decodes_alu_register_ops() {
    assert_eq!(decoder_q3::decode(0x00B5_0533), Ok(Instruction::ADD(10, 10, 11)));
    assert_eq!(decoder_q3::decode(0x40B5_0533), Ok(Instruction::SUB(10, 10, 11)));
    assert_eq!(decoder_q3::decode(0x40B5_5533), Ok(Instruction::SRA(10, 10, 11)));
    assert_eq!(decoder_q3::decode(0x02B5_0533), Ok(Instruction::MUL(10, 10, 11)));
    assert_eq!(decoder_q3::decode(0x02B5_4533), Ok(Instruction::DIV(10, 10, 11)));
    assert_eq!(decoder_q3::decode(0x02B5_7533), Ok(Instruction::REMU(10, 10, 11)));
}

#[test]
fn q3_decodes_shift_immediates() {
    // slli a0, a0, 3
    assert_eq!(decoder_q3::decode(0x0035_1513), Ok(Instruction::SLLI(10, 10, 3)));
    // srai a0, a0, 3: bit 30 selects the arithmetic shift
    assert_eq!(decoder_q3::decode(0x4035_5513), Ok(Instruction::SRAI(10, 10, 0x400 + 3)));
    assert_eq!(decoder_q3::decode(0x0035_5513), Ok(Instruction::SRLI(10, 10, 3)));
}

#[test]
fn q3_decodes_system() {
    assert_eq!(decoder_q3::decode(0x0000_0073), Ok(Instruction::ECALL()));
    assert_eq!(decoder_q3::decode(0x0010_0073), Ok(Instruction::EBREAK()));
    assert_eq!(decoder_q3::decode(0x3020_0073), Ok(Instruction::MRET()));
    assert_eq!(decoder_q3::decode(0x1050_0073), Ok(Instruction::WFI()));
    // csrrw t0, mtvec, t1
    assert_eq!(decoder_q3::decode(0x3053_12F3), Ok(Instruction::CSRRW(5, 6, 0x305)));
    // csrrsi zero, mstatus, 8
    assert_eq!(decoder_q3::decode(0x3004_6073), Ok(Instruction::CSRRSI(0, 8, 0x300)));
    assert_eq!(decoder_q3::decode(0x0020_0073), Err("Invalid SYSTEM instruction immediate"));
    assert_eq!(decoder_q3::decode(0x0000_4073), Err("Invalid funct3 I-Type"));
}

#[test]
fn q3_decodes_atomics() {
    // lr.w a0, (a1)
    assert_eq!(decoder_q3::decode(0x1005_A52F), Ok(Instruction::LRW(10, 11)));
    // amoadd.w a0, a2, (a1)
    assert_eq!(decoder_q3::decode(0x00C5_A52F), Ok(Instruction::AMOADDW(10, 11, 12)));
    assert_eq!(decoder_q3::decode(0xF8C5_A52F), Err("Invalid funct5 AMO-Type"));
}

#[test]
fn q3_reports_unknown_formats() {
    assert_eq!(decoder_q3::decode(0x0000_0007), Err("Not implemented: LOADFP"));
    assert_eq!(decoder_q3::decode(0x0000_003B), Err("Not implemented: OP32"));
    assert_eq!(decoder_q3::decode(0x0000_3003), Err("Invalid funct3 I-Type"));
    assert_eq!(decoder_q3::decode(0x0000_3023), Err("Invalid funct3 S-Type"));
    assert_eq!(decoder_q3::decode(0x0000_2063), Err("Invalid funct3 B-Type"));
}

#[test]
fn q1_decodes_compressed_arithmetic() {
    // c.li a0, 1
    assert_eq!(decoder_q1::decode(0x4505), Ok(Instruction::CLI(10, 1)));
    // c.addi sp, -16
    assert_eq!(decoder_q1::decode(0x1141), Ok(Instruction::CADDI(2, -16)));
    // c.nop is c.addi zero, 0
    assert_eq!(decoder_q1::decode(0x0001), Ok(Instruction::CADDI(0, 0)));
    assert_eq!(decoder_q1::decode(0x0000), Ok(Instruction::CNOP(0, 0)));
    // c.lui a0, 1
    assert_eq!(decoder_q1::decode(0x6505), Ok(Instruction::CLUI(10, 4096)));
    // c.addi16sp sp, -32
    assert_eq!(decoder_q1::decode(0x7179), Ok(Instruction::CADDI16SP(2, -48)));
    // c.sub a0, a1
    assert_eq!(decoder_q1::decode(0x8D0D), Ok(Instruction::CSUB(10, 11)));
    // c.srli a0, 2
    assert_eq!(decoder_q1::decode(0x8109), Ok(Instruction::CSRLI(10, 2)));
    // c.andi a0, -1
    assert_eq!(decoder_q1::decode(0x997D), Ok(Instruction::CANDI(10, -1)));
}

#[test]
fn q1_decodes_compressed_jumps() {
    // c.j -2
    assert_eq!(decoder_q1::decode(0xBFFD), Ok(Instruction::CJ(-2)));
    // c.jal 8
    assert_eq!(decoder_q1::decode(0x2021), Ok(Instruction::CJAL(8)));
    // c.beqz a0, 4
    assert_eq!(decoder_q1::decode(0xC111), Ok(Instruction::CBEQZ(10, 4)));
    // c.bnez a5, -2
    assert_eq!(decoder_q1::decode(0xFFFD), Ok(Instruction::CBNEZ(15, -2)));
    assert_eq!(decoder_q1::decode(0x1_0001), Err("Invalid q1 opcode"));
}

#[test]
fn q0_decodes_compressed_memory_ops() {
    // c.addi4spn a0, sp, 16
    assert_eq!(decoder_q0::decode(0x0808), Ok(Instruction::CADDI4SPN(10, 16)));
    // c.lw a0, 4(a1)
    assert_eq!(decoder_q0::decode(0x41C8), Ok(Instruction::CLW(10, 11, 4)));
    // c.sw a0, 4(a1)
    assert_eq!(decoder_q0::decode(0xC1C8), Ok(Instruction::CSW(11, 10, 4)));
    assert_eq!(decoder_q0::decode(0x0000), Err("Illegal instruction"));
    assert_eq!(decoder_q0::decode(0x8000), Err("Reserved q0 opcode"));
}

#[test]
fn q2_decodes_compressed_register_ops() {
    // c.jr ra
    assert_eq!(decoder_q2::decode(0x8082), Ok(Instruction::CJR(1)));
    // c.mv a0, a1
    assert_eq!(decoder_q2::decode(0x852E), Ok(Instruction::CMV(10, 11)));
    // c.add a0, a1
    assert_eq!(decoder_q2::decode(0x952E), Ok(Instruction::CADD(10, 11)));
    assert_eq!(decoder_q2::decode(0x9002), Ok(Instruction::CEBREAK()));
    // c.jalr a0
    assert_eq!(decoder_q2::decode(0x9502), Ok(Instruction::CJALR(10)));
    // c.slli a0, 2
    assert_eq!(decoder_q2::decode(0x050A), Ok(Instruction::CSLLI(10, 2)));
    // c.lwsp ra, 12(sp)
    assert_eq!(decoder_q2::decode(0x40B2), Ok(Instruction::CLWSP(1, 12)));
    // c.swsp ra, 12(sp)
    assert_eq!(decoder_q2::decode(0xC606), Ok(Instruction::CSWSP(1, 12)));
}

#[test]
fn decode_dispatches_on_the_quadrant() {
    assert_eq!(decode(0xFFF0_0093), Ok(Instruction::ADDI(1, 0, -1)));
    // the upper halfword of a compressed instruction word is ignored
    assert_eq!(decode(0x1234_4505), Ok(Instruction::CLI(10, 1)));
    assert_eq!(decode(0x0000_8082), Ok(Instruction::CJR(1)));
    assert_eq!(decode(0x0000_41C8), Ok(Instruction::CLW(10, 11, 4)));
    // c.lui zero, 1 is reserved
    assert_eq!(decode(0x0000_6005), Err("Reserved C.LUI with rd zero"));
}

#[test]
fn bit_from_to_moves_one_bit() {
    assert_eq!(triops::decoder::bit_from_to(0b1000, 3, 0), 1);
    assert_eq!(triops::decoder::bit_from_to(0b1000, 3, 7), 0b1000_0000);
    assert_eq!(triops::decoder::bit_from_to(0b0111, 3, 7), 0);
}

#[test]
fn sign_extend_fills_the_upper_bits() {
    assert_eq!(triops::utils::sign_extend(0x800, 12), 0xFFFF_F800);
    assert_eq!(triops::utils::sign_extend(0x7FF, 12), 0x7FF);
    assert_eq!(triops::utils::sign_extend(0x3F, 6), 0xFFFF_FFFF);
}

#[test]
fn q1_jump_offsets_are_sign_extended_from_bit_12() {
    assert_eq!(decoder_q1::decode(0xBFF5), Ok(Instruction::CJ(-4)));
    assert_eq!(decoder_q1::decode(0xA001), Ok(Instruction::CJ(0)));
    assert_eq!(decoder_q1::decode(0x1_0001), Err("Invalid q1 opcode"));
}
