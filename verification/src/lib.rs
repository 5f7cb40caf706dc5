//! A micro-assembler for the MICRO-1 horizontal microcode architecture.
//!
//! A line-oriented microprogram is tokenized, parsed into a list of
//! instructions, placed in the microprogram ROM, lowered into field codes and
//! packed into 40-bit words, one per instruction.

pub mod error;
pub mod text;
pub mod token;
pub mod lexer;
pub mod parser;
pub mod grammar;
pub mod symbol;
pub mod address;
pub mod codegen;
pub mod dispatch;
pub mod emit;
pub mod assembler;
