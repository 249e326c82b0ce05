//! Fixed parameters of the machine.

use vstd::prelude::*;

verus! {

/// The address at which RAM is mapped.
pub const DRAM_BASE: u64 = 0x8000_0000;

/// The size of RAM in bytes: 128 MiB.
pub const DRAM_SIZE: u64 = 0x800_0000;

/// The last address of RAM.
pub const DRAM_END: u64 = 0x87ff_ffff;

/// The calling-convention names of the 32 general registers, by index.
pub const ABINAME: [&'static str; 32] = [
    "zero", "ra", "sp", "gp", "tp", "t0", "t1", "t2", "s0", "s1", "a0", "a1", "a2", "a3", "a4",
    "a5", "a6", "a7", "s2", "s3", "s4", "s5", "s6", "s7", "s8", "s9", "s10", "s11", "t3", "t4",
    "t5", "t6",
];

} // verus!
