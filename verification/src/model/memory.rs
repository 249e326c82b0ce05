//! Memory snapshots: the range asked for and the words found.

use vstd::prelude::*;

verus! {

/// An inclusive range of addresses.
#[derive(Debug)]
pub struct MemoryRangePayload {
    pub begin: u64,
    pub end: u64,
}

/// One 32-bit word of memory and its address.
#[derive(Debug)]
pub struct MemoryValueResponse {
    pub address: u64,
    pub word: u32,
}

impl MemoryValueResponse {
    /// A word and its address.
    pub fn new(address: u64, word: u32) -> (r: Self)
        ensures
            r.address == address,
            r.word == word,
    {
        Self { address, word }
    }
}

} // verus!
