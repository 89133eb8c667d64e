//! An emulator for a subset of 32-bit RISC-V: instruction decoding (both the
//! 32-bit and the compressed 16-bit encodings), a machine that executes the
//! decoded instructions, and the loading of ELF images into that machine.

pub mod inst;
pub mod program;
pub mod virtual_memory;
pub mod syscall;
pub mod cpu;
pub mod elf;
pub mod debug;
pub mod laws;
pub mod encoding;
pub mod operations;
