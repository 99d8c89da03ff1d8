use std::cell::RefCell;
use std::rc::Rc;

use triops::cpu::{can_load_bin, ElfSegment, CPU, LOG_LENGTH, PT_LOAD};
use triops::instructions::Instruction;
use triops::memory::Memory;
use triops::periph::{Backend, MmapPeripheral, Uart};
use triops::register::Register;

/// A backend that hands out queued input and records output.
struct Recorder {
    input: RefCell<Vec<u8>>,
    output: RefCell<Vec<u8>>,
}

impl Recorder {
    fn new(input: &[u8]) -> Self {
        Recorder { input: RefCell::new(input.iter().rev().copied().collect()), output: RefCell::new(Vec::new()) }
    }
}

impl Backend for Recorder {
    fn has_data(&self) -> bool {
        !self.input.borrow().is_empty()
    }

    fn read_cb(&self) -> Option<u8> {
        self.input.borrow_mut().pop()
    }

    fn write_cb(&self, value: u8) {
        self.output.borrow_mut().push(value);
    }
}

fn words(program: &[u32]) -> Vec<u8> {
    program.iter().flat_map(|w| w.to_le_bytes()).collect()
}

fn halfwords(program: &[u16]) -> Vec<u8> {
    program.iter().flat_map(|w| w.to_le_bytes()).collect()
}

#[test]
fn default_hifive_lays_out_the_memory_map() {
    let m = Memory::default_hifive(Uart::default(Recorder::new(b"")));
    assert_eq!(m.uart_base, 0x1001_3000);
    assert_eq!(m.uart_limit, 0x1001_301C);
    assert_eq!(m.rom_base, 0x2000_0000);
    assert_eq!(m.rom_limit, 0x4000_0000);
    assert_eq!(m.ram_base, 0x8000_0000);
    assert_eq!(m.ram_limit, 0x8000_4000);
    assert_eq!(m.rom.len(), 0x2000_0000);
    assert_eq!(m.ram.len(), 0x4000);
    assert!(m.is_rom(0x2000_0000) && !m.is_rom(0x4000_0000));
    assert!(m.is_ram(0x8000_3FFF) && !m.is_ram(0x8000_4000));
    assert!(m.is_uart(0x1001_301B) && !m.is_uart(0x1001_301C));
}

#[test]
fn ram_reads_back_what_was_written() {
    let mut m = Memory::default_hifive(Uart::default(Recorder::new(b"")));
    m.write_word(0x8000_0010, 0xDEAD_BEEF);
    assert_eq!(m.read_word(0x8000_0010), 0xDEAD_BEEF);
    assert_eq!(m.read_byte(0x8000_0010), 0xEF);
    assert_eq!(m.read_byte(0x8000_0013), 0xDE);
    assert_eq!(m.read_halfword(0x8000_0012), 0xDEAD);
    m.write_halfword(0x8000_0020, 0x1234_5678);
    assert_eq!(m.read_halfword(0x8000_0020), 0x5678);
    assert_eq!(m.read_byte(0x8000_0022), 0);
    m.write_byte(0x8000_0030, 0x1FF);
    assert_eq!(m.read_byte(0x8000_0030), 0xFF);
    assert_eq!(m.read_word(0x8000_0014), 0);
}

#[test]
fn devices_read_as_ones_and_ignore_writes() {
    let mut m = Memory::default_hifive(Uart::default(Recorder::new(b"")));
    assert_eq!(m.read_byte(0x1000_8000), 0xFF);
    assert_eq!(m.read_byte(0x0C00_0004), 0xFF);
    assert_eq!(m.read_word(0x1001_2000), 0xFFFF_FFFF);
    m.write_word(0x1001_2000, 0);
    assert_eq!(m.read_word(0x1001_2000), 0xFFFF_FFFF);
    assert!(m.is_readable(0x1000_8FFF));
    assert!(!m.is_writable(0x1000_8010));
    assert!(!m.is_readable(0x00FF));
    assert!(!m.is_writable(0x2000_0000));
    assert!(m.is_readable(0x2000_0000));
    assert!(!m.is_readable(0x1001_3018));
    assert!(m.is_writable(0x1001_3018));
    assert!(!m.is_readable(0x5000_0000));
}

#[test]
fn uart_registers() {
    let mut u = Uart::default(Recorder::new(b"hi"));
    assert_eq!(u.read(0x08), 0);
    assert_eq!(u.read(0x07), 0);
    // reception is off: nothing is handed out
    assert_eq!(u.read(0x04), 0);
    u.write(0x0C, 1);
    assert_eq!(u.read(0x0C), 1);
    assert_eq!(u.read(0x04), b'h');
    assert_eq!(u.read(0x04), b'i');
    assert_eq!(u.read(0x07), 0b1000_0000);
    u.write(0x0A, 0xFF);
    assert_eq!(u.read(0x0A), 0b111);
    u.write(0x0E, 0x05);
    assert_eq!(u.read(0x0E), 0x05);
    u.write(0x10, 0b11);
    assert_eq!(u.read(0x10), 0b11);
    u.write(0x10, 0b10);
    assert_eq!(u.read(0x10), 0b10);
    assert_eq!(u.read(0x14), 0);
    assert_eq!(u.read(0x03), 0);
    // enables stay set
    u.write(0x08, 1);
    u.write(0x08, 0);
    assert_eq!(u.read(0x08), 1);
    assert!(Uart::<Recorder>::readable_at(0x17) && !Uart::<Recorder>::readable_at(0x18));
    assert!(Uart::<Recorder>::writable_at(0x1C) && !Uart::<Recorder>::writable_at(0x1D));
}

#[test]
fn registers_keep_x0_zero() {
    let mut r = Register::default();
    r.write(0, 5);
    r.write(3, 7);
    assert_eq!(r.read(0), 0);
    assert_eq!(r.read(3), 7);
    r.set_pc(0x2000_0000);
    assert_eq!(r.pc(), 0x2000_0000);
    r.write_csr(0x341, 9);
    assert_eq!(r.read_csr(0x341), 9);
}

#[test]
fn from_bin_loads_rom_and_runs_until_ebreak() {
    let program = words(&[
        0x0050_0513, // addi a0, zero, 5
        0x0070_0593, // addi a1, zero, 7
        0x00B5_0633, // add a2, a0, a1
        0x8000_02B7, // lui t0, 0x80000
        0x00C2_A023, // sw a2, 0(t0)
        0x0002_A683, // lw a3, 0(t0)
        0x0010_0073, // ebreak
    ]);
    let mut cpu = CPU::from_bin(&program, Uart::default(Recorder::new(b"")), 0x2000_0000, 0x2000_0000);
    assert_eq!(cpu.register.pc(), 0x2000_0000);
    assert_eq!(cpu.memory.rom[0], 0x13);
    assert_eq!(cpu.current_instruction(), Ok((0x2000_0000, Instruction::ADDI(10, 0, 5))));
    assert_eq!(cpu.next_instruction(), Ok((0x2000_0004, Instruction::ADDI(11, 0, 7))));
    for _ in 0..6 {
        assert_eq!(cpu.step(), Ok(true));
    }
    assert_eq!(cpu.step(), Ok(false));
    assert_eq!(cpu.register.read(12), 12);
    assert_eq!(cpu.register.read(13), 12);
    assert_eq!(cpu.memory.read_word(0x8000_0000), 12);
    assert_eq!(cpu.register.pc(), 0x2000_001C);
    assert_eq!(cpu._last_instruction(), Some(&(0x2000_0018, Instruction::EBREAK())));
    let last = cpu.last_n_instructions(2);
    assert_eq!(last, &[Some((0x2000_0014, Instruction::LW(13, 5, 0))), Some((0x2000_0018, Instruction::EBREAK()))]);
    assert_eq!(cpu.last_n_instructions(100).len(), LOG_LENGTH);
    assert_eq!(cpu.last_n_instructions(100)[0], None);
}

#[test]
fn from_bin_loads_ram() {
    let program = words(&[0x0010_0073]);
    let cpu = CPU::from_bin(&program, Uart::default(Recorder::new(b"")), 0x8000_0100, 0x8000_0100);
    assert_eq!(cpu.memory.ram[0x100], 0x73);
    assert_eq!(cpu.memory.rom[0], 0);
    assert_eq!(cpu.current_instruction(), Ok((0x8000_0100, Instruction::EBREAK())));
}

#[test]
fn compressed_instructions_advance_by_two() {
    let mut program = halfwords(&[0x4505, 0x0509, 0x9002]);
    program.extend(words(&[0x0010_0073]));
    let mut cpu = CPU::from_bin(&program, Uart::default(Recorder::new(b"")), 0x2000_0000, 0x2000_0000);
    let listing = cpu.next_n_instructions(4);
    assert_eq!(listing[0], (0x2000_0000, Ok(Instruction::CLI(10, 1))));
    assert_eq!(listing[1], (0x2000_0002, Ok(Instruction::CADDI(10, 2))));
    assert_eq!(listing[2], (0x2000_0004, Ok(Instruction::CEBREAK())));
    assert_eq!(listing[3], (0x2000_0006, Ok(Instruction::EBREAK())));
    assert_eq!(cpu.step(), Ok(true));
    assert_eq!(cpu.step(), Ok(true));
    // C.EBREAK ends the program as EBREAK does
    assert_eq!(cpu.step(), Ok(false));
    assert_eq!(cpu.register.read(10), 3);
    assert_eq!(cpu.register.pc(), 0x2000_0006);
    assert_eq!(cpu.step(), Ok(false));
    assert_eq!(cpu.register.pc(), 0x2000_000A);
}

#[test]
fn listing_shows_words_that_do_not_decode() {
    let program = words(&[0xFFFF_FFFF, 0x0010_0073]);
    let cpu = CPU::from_bin(&program, Uart::default(Recorder::new(b"")), 0x2000_0000, 0x2000_0000);
    let listing = cpu.next_n_instructions(3);
    assert_eq!(listing[0], (0x2000_0000, Err(0xFFFF_FFFF)));
    assert_eq!(listing[1], (0x2000_0004, Ok(Instruction::EBREAK())));
    assert_eq!(listing[2], (0x2000_0008, Err(0)));
}

#[test]
fn step_writes_to_the_uart() {
    let program = words(&[
        0x1001_32B7, // lui t0, 0x10013
        0x0010_0313, // addi t1, zero, 1
        0x0062_A423, // sw t1, 8(t0): enable transmission
        0x0410_0313, // addi t1, zero, 65
        0x0062_8023, // sb t1, 0(t0)
        0x0010_0073, // ebreak
    ]);
    let sent = Rc::new(RefCell::new(Vec::new()));
    let mut cpu = CPU::from_bin(&program, Uart::default(Shared(sent.clone())), 0x2000_0000, 0x2000_0000);
    while cpu.step() == Ok(true) {}
    assert_eq!(cpu.memory.uart.read(0x08), 1);
    assert_eq!(*sent.borrow(), vec![b'A']);
}

/// A backend whose output the test keeps a handle on.
struct Shared(Rc<RefCell<Vec<u8>>>);

impl Backend for Shared {
    fn has_data(&self) -> bool {
        false
    }

    fn read_cb(&self) -> Option<u8> {
        None
    }

    fn write_cb(&self, value: u8) {
        self.0.borrow_mut().push(value);
    }
}

#[test]
fn uart_stores_through_memory_reach_the_backend_only_when_enabled() {
    let sent = Rc::new(RefCell::new(Vec::new()));
    let mut mem = Memory::default_hifive(Uart::default(Shared(sent.clone())));
    mem.write_byte(0x1001_3000, 0x41);
    assert!(sent.borrow().is_empty());
    mem.write_word(0x1001_3008, 1);
    mem.write_byte(0x1001_3000, 0x142);
    assert_eq!(*sent.borrow(), vec![b'B']);
    assert_eq!(mem.read_byte(0x1001_3007), 0x80);
    assert_eq!(mem.read_byte(0x1001_3004), 0);
}

#[test]
fn listing_reaches_the_last_bytes_of_ram() {
    // Compressed instructions in the last eight bytes of RAM: the third entry's
    // word is the last word of RAM.
    let program = halfwords(&[0x4505, 0x0509, 0x9002, 0x4505]);
    let cpu = CPU::from_bin(&program, Uart::default(Recorder::new(b"")), 0x8000_3FF8, 0x8000_3FF8);
    let listing = cpu.next_n_instructions(3);
    assert_eq!(listing[2], (0x8000_3FFC, Ok(Instruction::CEBREAK())));
    assert_eq!(cpu.next_n_instructions(2), listing[..2].to_vec());
}

#[test]
fn print_shows_any_csr_address() {
    assert_eq!(Instruction::CSRRW(1, 2, 5000).print(), "csrrw ra, sp, 5000");
}

#[test]
fn step_arithmetic_of_the_m_extension() {
    let program = words(&[
        0xFF90_0513, // addi a0, zero, -7
        0x0020_0593, // addi a1, zero, 2
        0x02B5_4633, // div a2, a0, a1
        0x02B5_66B3, // rem a3, a0, a1
        0x02B5_1733, // mulh a4, a0, a1
        0x0205_47B3, // div a5, a0, zero
        0x0010_0073, // ebreak
    ]);
    let mut cpu = CPU::from_bin(&program, Uart::default(Recorder::new(b"")), 0x2000_0000, 0x2000_0000);
    while cpu.step() == Ok(true) {}
    assert_eq!(cpu.register.read(12) as i32, -3);
    assert_eq!(cpu.register.read(13) as i32, -1);
    assert_eq!(cpu.register.read(14), 0xFFFF_FFFF);
    assert_eq!(cpu.register.read(15), 0xFFFF_FFFF);
}

#[test]
fn step_refuses_what_it_cannot_run() {
    let mut cpu = CPU::from_bin(&words(&[0]), Uart::default(Recorder::new(b"")), 0x10, 0x2000_0000);
    assert_eq!(cpu.step(), Err("Instruction fetch outside memory map"));
    let mut cpu = CPU::from_bin(&words(&[0]), Uart::default(Recorder::new(b"")), 0x2000_0000, 0x2000_0000);
    assert_eq!(cpu.step(), Err("Illegal instruction"));
    let mut cpu = CPU::from_bin(&halfwords(&[0x6000]), Uart::default(Recorder::new(b"")), 0x2000_0000, 0x2000_0000);
    assert_eq!(cpu.step(), Err("Not implemented: compressed floating point or RV64/RV128 instruction"));
    // lw a3, 0(zero)
    let mut cpu = CPU::from_bin(&words(&[0x0000_2683]), Uart::default(Recorder::new(b"")), 0x2000_0000, 0x2000_0000);
    assert_eq!(cpu.step(), Err("Memory access outside memory map"));
    assert_eq!(cpu.register.pc(), 0x2000_0000);
    assert_eq!(cpu._last_instruction(), None);
}

/// An ELF32 file for RISC-V with one loadable segment of `data` at `paddr`.
fn elf(entry: u32, paddr: u32, data: &[u8]) -> Vec<u8> {
    let mut f = vec![0x7F, b'E', b'L', b'F', 1, 1, 1, 0, 0, 0, 0, 0, 0, 0, 0, 0];
    f.extend(2u16.to_le_bytes()); // e_type
    f.extend(0xF3u16.to_le_bytes()); // e_machine
    f.extend(1u32.to_le_bytes()); // e_version
    f.extend(entry.to_le_bytes()); // e_entry
    f.extend(52u32.to_le_bytes()); // e_phoff
    f.extend(0u32.to_le_bytes()); // e_shoff
    f.extend(0u32.to_le_bytes()); // e_flags
    f.extend(52u16.to_le_bytes()); // e_ehsize
    f.extend(32u16.to_le_bytes()); // e_phentsize
    f.extend(1u16.to_le_bytes()); // e_phnum
    f.extend(40u16.to_le_bytes()); // e_shentsize
    f.extend(0u16.to_le_bytes()); // e_shnum
    f.extend(0u16.to_le_bytes()); // e_shstrndx
    f.extend(PT_LOAD.to_le_bytes()); // p_type
    f.extend(84u32.to_le_bytes()); // p_offset
    f.extend(paddr.to_le_bytes()); // p_vaddr
    f.extend(paddr.to_le_bytes()); // p_paddr
    f.extend((data.len() as u32).to_le_bytes()); // p_filesz
    f.extend((data.len() as u32).to_le_bytes()); // p_memsz
    f.extend(5u32.to_le_bytes()); // p_flags
    f.extend(4u32.to_le_bytes()); // p_align
    f.extend(data);
    f
}

#[test]
fn from_elf_loads_segments_and_entry() {
    let file = elf(0x2000_0004, 0x2000_0000, &words(&[0x0050_0513, 0x0010_0073]));
    let cpu = CPU::from_elf(&file, Uart::default(Recorder::new(b""))).unwrap();
    assert_eq!(cpu.register.pc(), 0x2000_0004);
    assert_eq!(cpu.memory.rom[0..8], [0x13, 0x05, 0x50, 0x00, 0x73, 0x00, 0x10, 0x00]);
    assert_eq!(cpu.current_instruction(), Ok((0x2000_0004, Instruction::EBREAK())));
    let file = elf(0x8000_0000, 0x8000_0000, &[1, 2, 3]);
    let cpu = CPU::from_elf(&file, Uart::default(Recorder::new(b""))).unwrap();
    assert_eq!(cpu.memory.ram[0..4], [1, 2, 3, 0]);
}

#[test]
fn from_elf_reports_what_it_cannot_load() {
    let e = CPU::from_elf(b"not an elf file at all", Uart::default(Recorder::new(b""))).err();
    assert_eq!(e, Some("Failed to parse provided ELF file"));
    let mut no_segments = elf(0x2000_0000, 0x2000_0000, &[0]);
    no_segments[28..32].copy_from_slice(&0u32.to_le_bytes()); // e_phoff
    let e = CPU::from_elf(&no_segments, Uart::default(Recorder::new(b""))).err();
    assert_eq!(e, Some("Could not find segments in your ELF file."));
    let e = CPU::from_elf(&elf(0x2000_0000, 0x8000_3FFF, &[1, 2]), Uart::default(Recorder::new(b""))).err();
    assert_eq!(e, Some("ELF segment does not fit into memory."));
}

#[test]
fn from_elf_image_checks_every_segment() {
    let segs = vec![
        ElfSegment { p_type: 6, p_paddr: 0x2000_0000, data: None },
        ElfSegment { p_type: PT_LOAD, p_paddr: 0x5000_0000, data: None },
        ElfSegment { p_type: PT_LOAD, p_paddr: 0x2000_0000, data: Some(vec![7, 8]) },
        ElfSegment { p_type: PT_LOAD, p_paddr: 0x2000_0001, data: Some(vec![9]) },
    ];
    let cpu = CPU::from_elf_image(Uart::default(Recorder::new(b"")), 0x2000_0000, &segs).unwrap();
    assert_eq!(cpu.memory.rom[0..3], [7, 9, 0]);
    let segs = vec![ElfSegment { p_type: PT_LOAD, p_paddr: 0x8000_0000, data: None }];
    let e = CPU::from_elf_image(Uart::default(Recorder::new(b"")), 0x2000_0000, &segs).err();
    assert_eq!(e, Some("Could not read segment data from your ELF file."));
    let e = CPU::from_elf_image(Uart::default(Recorder::new(b"")), 0x1_0000_0000, &vec![]).err();
    assert_eq!(e, Some("Failed to read start address e_entry"));
}

#[test]
fn binaries_fit_only_inside_rom_or_ram() {
    assert!(can_load_bin(4, 0x2000_0000));
    assert!(can_load_bin(0x2000_0000, 0x2000_0000));
    assert!(!can_load_bin(0x2000_0001, 0x2000_0000));
    assert!(can_load_bin(0x4000, 0x8000_0000));
    assert!(!can_load_bin(0x10, 0x8000_3FF8));
    assert!(!can_load_bin(1, 0x1000_0000));
    assert!(!can_load_bin(0, 0x8000_4000));
}

#[test]
fn uart_never_reports_a_full_fifo_or_a_pending_interrupt() {
    let mut u = Uart::default(Recorder::new(b""));
    for offset in 0..=0x1C {
        u.write(offset, 0xFF);
    }
    assert_eq!(u.read(0x03), 0);
    assert_eq!(u.read(0x14), 0);
    assert_eq!(u.read(0x0A), 7);
    assert_eq!(u.read(0x10), 3);
}
