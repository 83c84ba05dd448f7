//! A functional interpreter for a MIPS32-like instruction set.
//!
//! The interpreter fetches 32-bit instruction words from an emulated address
//! space, decodes their format, executes the operation against a register
//! file and two memory regions, and advances a program counter.  Every
//! executable function carries a contract that pins down the state change it
//! performs, phrased over mathematical views of the processor state.

pub mod bits;
pub mod cpu;
pub mod laws;
pub mod memory;
