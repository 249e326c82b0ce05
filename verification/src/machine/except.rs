//! The faults that memory accesses and instruction dispatch can raise.

use vstd::prelude::*;

verus! {

/// A fault: a value that is returned, never thrown.
#[derive(Debug, Clone, Copy, PartialEq, Eq, Structural)]
pub enum Exception {
    /// A store to the given address was refused.
    StoreAMOAccessFault(u64),
    /// A load from the given address was refused.
    LoadAccessFault(u64),
    /// No instruction definition matches the given word.
    IllegalInstruction(u32),
}

} // verus!
