# triops

A RISC-V (RV32IMAC with Zicsr) emulator of the SiFive HiFive board, whose core is
verified with Verus.

- `src/` is the verified library: the instruction decoders (`decoder/`), the
  instruction set with its compressed expansions and listing text
  (`instructions.rs`), the register file, the memory map with RAM, ROM and the
  UART window, the UART itself (`periph.rs`), the execution of each instruction
  (`executer.rs`) and the hart that fetches, decodes, executes and logs
  (`cpu.rs`). ELF files are read with the `elf` crate behind a few trusted
  wrappers in `cpu.rs`.
- `app/` is the program around it: command line (`clap`), reading the file,
  the UART backends on threads and channels, and the terminal UI (`ratatui`).
- `tests/` exercises the library on concrete programs and values.

Run it as `triops [--headless] [--testing] [--bin --entryaddress A --baseaddress B] FILE`.
In the TUI, `s` executes one instruction, `r` starts or stops free running, `q`
quits, and every other key goes to the UART.

Known deviation from the RISC-V specification: the B-type and J-type
immediates of 32-bit branches and jumps are sign-extended from bit 11 and bit
19 (`imm_b` and `imm_j` in `src/decoder/decoder_q3.rs`), not from bits 12 and
20. A backward branch of 2 to 4 KiB, or a backward jump of 0.5 to 1 MiB, thus
decodes as a forward offset. Compressed branches and jumps are not affected.
