//! Register snapshots.

use vstd::prelude::*;

verus! {

/// The name of a register and its value as text.
#[derive(Debug)]
pub struct RegisterValueResponse {
    pub key: String,
    pub value: String,
}

impl RegisterValueResponse {
    /// A register name and its value as text.
    pub fn new(key: String, value: String) -> (r: Self)
        ensures
            r.key == key,
            r.value == value,
    {
        Self { key, value }
    }
}

} // verus!
