//! TRIOPS: an emulator of a 32-bit RISC-V core (RV32IMAC with Zicsr) on a
//! HiFive-like memory map.
pub mod utils;
pub mod decoder;
pub mod instructions;
pub mod periph;
pub mod memory;
pub mod register;
pub mod executer;
pub mod cpu;
pub mod text;
pub mod number;
pub mod bits;
pub mod isa;
