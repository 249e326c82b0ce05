//! A range of addresses as text.

use vstd::prelude::*;

verus! {

/// An inclusive range of addresses, each written as text.
#[derive(Debug)]
pub struct MemoryRange {
    pub begin: String,
    pub end: String,
}

} // verus!
