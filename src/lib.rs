//! A small reverse-engineering toolkit: container loading, per-ISA instruction
//! decoders for ARM A32, x86/x86-64 and RISC-V, a disassembly printer and a
//! lifter into a shared expression IR.

pub mod text;
pub mod util;
pub mod ir;
pub mod arm;
pub mod riscv;
pub mod x86;
pub mod prog;
pub mod decomp;
pub mod dis;
pub mod dump;
pub mod elf;
pub mod pe;
pub mod query;
