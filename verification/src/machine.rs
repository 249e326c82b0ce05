//! The processor: memory, faults, the instruction table and the CPU itself.

pub mod alu;
pub mod bus;
pub mod cpu;
pub mod dram;
pub mod except;
pub mod hart;
pub mod i;
pub mod isa;
pub mod m;
pub mod param;
pub mod standard;
