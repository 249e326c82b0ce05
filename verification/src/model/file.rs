//! A source file handed to the toolchain.

use vstd::prelude::*;

verus! {

/// A named file and its text.
#[derive(Debug)]
pub struct FileResponse {
    pub name: String,
    pub content: String,
}

} // verus!
