//! Iridium: a small register virtual machine and the two-pass assembler that
//! feeds it.  The assembler turns line-oriented assembly text into a binary
//! image with a fixed 64-byte header; the virtual machine decodes and executes
//! that image instruction by instruction.

pub mod assembler;
pub mod assembler_errors;
pub mod instruction;
pub mod laws;
pub mod parser;
pub mod symbols;
pub mod text;
pub mod vm;
