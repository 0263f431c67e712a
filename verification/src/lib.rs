//! An interpreter for 32-bit little-endian RISC-V user-mode integer
//! programs (the RV32I base instruction set).
//!
//! The crate has three verified subsystems: the instruction decoder
//! ([`decode_instruction`]), which turns a 32-bit word into a structured
//! operation with a sign-extended immediate; the execution engine
//! ([`execute_instruction`]), which realizes the per-opcode semantics
//! against registers, memory and the program counter; and the machine
//! model ([`vm`]), which owns the register file, the sparse byte-addressed
//! memory, the program counter and the halt state, and runs the
//! fetch-decode-execute loop. The [`elf`] module holds the byte-level
//! parser that turns an ELF32 executable into a loadable program image.

pub mod decode_instruction;
pub mod elf;
pub mod execute_instruction;
pub mod vm;
