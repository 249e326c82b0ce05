//! A RISC-V (RV64IM subset) instruction set emulator core: registers, program
//! counter, memory, instruction decoding and dispatch, with machine-checked
//! contracts.

pub mod api;
pub mod kit;
pub mod machine;
pub mod model;
pub mod shell;

pub use machine::cpu::Cpu;
