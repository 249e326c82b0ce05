//! The outcome of one step.

use vstd::prelude::*;

verus! {

/// What a step reports: the program counter after it, the instruction word
/// that it executed, and a message.
#[derive(Debug)]
pub struct StepResponse {
    pc: u64,
    insn: u32,
    message: String,
}

impl StepResponse {
    /// The report of a step.
    pub fn new(pc: u64, insn: u32, message: String) -> (r: Self)
        ensures
            r.pc() == pc,
            r.insn() == insn,
            *r.message() == message,
    {
        Self { pc, insn, message }
    }

    /// The program counter after the step.
    #[verifier::when_used_as_spec(spec_pc)]
    pub fn pc(&self) -> (r: u64)
        ensures
            r == self.pc(),
    {
        self.pc
    }

    /// The instruction word that the step executed.
    #[verifier::when_used_as_spec(spec_insn)]
    pub fn insn(&self) -> (r: u32)
        ensures
            r == self.insn(),
    {
        self.insn
    }

    /// The message of the step.
    #[verifier::when_used_as_spec(spec_message)]
    pub fn message(&self) -> (r: &String)
        ensures
            *r == self.message(),
    {
        &self.message
    }

    pub closed spec fn spec_pc(&self) -> u64 {
        self.pc
    }

    pub closed spec fn spec_insn(&self) -> u32 {
        self.insn
    }

    pub closed spec fn spec_message(&self) -> &String {
        &self.message
    }
}

} // verus!
