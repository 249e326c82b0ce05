//! Stateless helpers: bit manipulation and instruction field extraction.

pub mod bits;
pub mod hex;
pub mod insn;
