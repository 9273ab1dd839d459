//! Assembler core for the DCPU-16: operand encoding and two-pass code
//! generation with symbolic label resolution.
//!
//! The [`ast`] module defines the instruction forms and the bit-exact field
//! codes of every operand; the [`code_generator`] module walks an instruction
//! sequence, emits the packed machine words, and patches every label
//! reference once all label addresses are known.

pub mod ast;
pub mod code_generator;
pub mod error;
