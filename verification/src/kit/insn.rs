//! The six instruction encoding classes and the extraction of their fields
//! from a 32-bit instruction word.

use vstd::prelude::*;
use crate::kit::bits::{bimm12hilo_spec, imm12hilo_spec, jimm20_spec};

verus! {

/// The encoding class of an instruction: which fields its word holds and
/// how its immediate is assembled.
#[derive(Clone, Copy, Debug, PartialEq, Eq, Structural)]
pub enum InsnType {
    /// Register-register.
    R,
    /// Register-immediate, load, jump-register.
    I,
    /// Store.
    S,
    /// Branch.
    B,
    /// Upper-immediate.
    U,
    /// Jump.
    J,
}

/// Fields of a register-register instruction.
#[derive(Clone, Copy, Debug, PartialEq, Eq, Structural)]
pub struct RType {
    pub opcode: u32,
    pub rd: u32,
    pub funct3: u32,
    pub rs1: u32,
    pub rs2: u32,
    pub funct7: u32,
}

/// Fields of a register-immediate instruction; `imm` is the raw 12-bit field.
#[derive(Clone, Copy, Debug, PartialEq, Eq, Structural)]
pub struct IType {
    pub opcode: u32,
    pub rd: u32,
    pub funct3: u32,
    pub rs1: u32,
    pub imm: u32,
}

/// Fields of a store instruction; `imm` is the reassembled 12-bit offset.
#[derive(Clone, Copy, Debug, PartialEq, Eq, Structural)]
pub struct SType {
    pub opcode: u32,
    pub funct3: u32,
    pub rs1: u32,
    pub rs2: u32,
    pub imm: u32,
}

/// Fields of a branch instruction; `imm` is the reassembled 13-bit offset,
/// whose lowest bit is always clear.
#[derive(Clone, Copy, Debug, PartialEq, Eq, Structural)]
pub struct BType {
    pub opcode: u32,
    pub funct3: u32,
    pub rs1: u32,
    pub rs2: u32,
    pub imm: u32,
}

/// Fields of an upper-immediate instruction; `imm` is the raw 20-bit field.
#[derive(Clone, Copy, Debug, PartialEq, Eq, Structural)]
pub struct UType {
    pub opcode: u32,
    pub rd: u32,
    pub imm: u32,
}

/// Fields of a jump instruction; `imm` is the reassembled 21-bit offset,
/// whose lowest bit is always clear.
#[derive(Clone, Copy, Debug, PartialEq, Eq, Structural)]
pub struct JType {
    pub opcode: u32,
    pub rd: u32,
    pub imm: u32,
}

/// Bits 6..=0 of an instruction word.
pub open spec fn opcode_of(inst: u32) -> u32 {
    inst & 0x7f
}

/// Bits 11..=7 of an instruction word: the destination register.
pub open spec fn rd_of(inst: u32) -> u32 {
    (inst >> 7) & 0x1f
}

/// Bits 14..=12 of an instruction word.
pub open spec fn funct3_of(inst: u32) -> u32 {
    (inst >> 12) & 0x7
}

/// Bits 19..=15 of an instruction word: the first source register.
pub open spec fn rs1_of(inst: u32) -> u32 {
    (inst >> 15) & 0x1f
}

/// Bits 24..=20 of an instruction word: the second source register.
pub open spec fn rs2_of(inst: u32) -> u32 {
    (inst >> 20) & 0x1f
}

/// Bits 31..=25 of an instruction word.
pub open spec fn funct7_of(inst: u32) -> u32 {
    (inst >> 25) & 0x7f
}

/// Bits 31..=20 of an instruction word: the immediate of class I.
pub open spec fn i_imm_of(inst: u32) -> u32 {
    (inst >> 20) & 0xfff
}

/// The store offset: word bits 31..=25 above word bits 11..=7.
pub open spec fn s_imm_of(inst: u32) -> u32 {
    (((inst >> 25) & 0x7f) << 5) | ((inst >> 7) & 0x1f)
}

/// The branch offset: word bit 31 is offset bit 12, word bits 30..=25 are
/// offset bits 10..=5, word bits 11..=8 are offset bits 4..=1 and word bit 7
/// is offset bit 11.
pub open spec fn b_imm_of(inst: u32) -> u32 {
    (((inst >> 31) & 0x1) << 12) | (((inst >> 25) & 0x3f) << 5) | (((inst >> 8) & 0xf) << 1) | (((
    inst >> 7) & 0x1) << 11)
}

/// Bits 31..=12 of an instruction word: the immediate of class U.
pub open spec fn u_imm_of(inst: u32) -> u32 {
    (inst >> 12) & 0xfffff
}

/// The jump offset: word bit 31 is offset bit 20, word bits 30..=21 are
/// offset bits 10..=1, word bit 20 is offset bit 11 and word bits 19..=12
/// are offset bits 19..=12.
pub open spec fn j_imm_of(inst: u32) -> u32 {
    (((inst >> 31) & 0x1) << 20) | (((inst >> 21) & 0x3ff) << 1) | (((inst >> 20) & 0x1) << 11) | ((
    (inst >> 12) & 0xff) << 12)
}

/// Every extracted field fits the width that its encoding gives it, and the
/// branch and jump offsets are even.
pub proof fn lemma_field_bounds(inst: u32)
    by (bit_vector)
    ensures
        opcode_of(inst) < 128,
        rd_of(inst) < 32,
        funct3_of(inst) < 8,
        rs1_of(inst) < 32,
        rs2_of(inst) < 32,
        funct7_of(inst) < 128,
        i_imm_of(inst) < 0x1000,
        s_imm_of(inst) < 0x1000,
        b_imm_of(inst) < 0x2000,
        b_imm_of(inst) & 1 == 0,
        u_imm_of(inst) < 0x100000,
        j_imm_of(inst) < 0x200000,
        j_imm_of(inst) & 1 == 0,
{
}

/// The offsets that the decoder assembles are those that the bit kit
/// assembles from the same word's raw fields.
pub proof fn lemma_imm_reassembly(inst: u32)
    by (bit_vector)
    ensures
        s_imm_of(inst) as u64 == imm12hilo_spec((inst >> 25) & 0x7f, (inst >> 7) & 0x1f),
        b_imm_of(inst) as u64 == bimm12hilo_spec((inst >> 25) & 0x7f, (inst >> 7) & 0x1f),
        j_imm_of(inst) as u64 == jimm20_spec((inst >> 12) & 0xfffff),
{
}

impl RType {
    pub open spec fn spec_decode(inst: u32) -> RType {
        RType {
            opcode: opcode_of(inst),
            rd: rd_of(inst),
            funct3: funct3_of(inst),
            rs1: rs1_of(inst),
            rs2: rs2_of(inst),
            funct7: funct7_of(inst),
        }
    }

    /// Splits a register-register instruction word into its fields.
    pub fn decode(inst: u32) -> (r: RType)
        ensures
            r == RType::spec_decode(inst),
            r.rd < 32,
            r.rs1 < 32,
            r.rs2 < 32,
    {
        proof {
            lemma_field_bounds(inst);
        }
        RType {
            opcode: inst & 0x7f,
            rd: (inst >> 7) & 0x1f,
            funct3: (inst >> 12) & 0x7,
            rs1: (inst >> 15) & 0x1f,
            rs2: (inst >> 20) & 0x1f,
            funct7: (inst >> 25) & 0x7f,
        }
    }
}

impl IType {
    pub open spec fn spec_decode(inst: u32) -> IType {
        IType {
            opcode: opcode_of(inst),
            rd: rd_of(inst),
            funct3: funct3_of(inst),
            rs1: rs1_of(inst),
            imm: i_imm_of(inst),
        }
    }

    /// Splits a register-immediate instruction word into its fields.
    pub fn decode(inst: u32) -> (r: IType)
        ensures
            r == IType::spec_decode(inst),
            r.rd < 32,
            r.rs1 < 32,
            r.imm < 0x1000,
    {
        proof {
            lemma_field_bounds(inst);
        }
        IType {
            opcode: inst & 0x7f,
            rd: (inst >> 7) & 0x1f,
            funct3: (inst >> 12) & 0x7,
            rs1: (inst >> 15) & 0x1f,
            imm: (inst >> 20) & 0xfff,
        }
    }
}

impl SType {
    pub open spec fn spec_decode(inst: u32) -> SType {
        SType {
            opcode: opcode_of(inst),
            funct3: funct3_of(inst),
            rs1: rs1_of(inst),
            rs2: rs2_of(inst),
            imm: s_imm_of(inst),
        }
    }

    /// Splits a store instruction word into its fields.
    pub fn decode(inst: u32) -> (r: SType)
        ensures
            r == SType::spec_decode(inst),
            r.rs1 < 32,
            r.rs2 < 32,
            r.imm < 0x1000,
    {
        proof {
            lemma_field_bounds(inst);
        }
        SType {
            opcode: inst & 0x7f,
            funct3: (inst >> 12) & 0x7,
            rs1: (inst >> 15) & 0x1f,
            rs2: (inst >> 20) & 0x1f,
            imm: (((inst >> 25) & 0x7f) << 5) | ((inst >> 7) & 0x1f),
        }
    }
}

impl BType {
    pub open spec fn spec_decode(inst: u32) -> BType {
        BType {
            opcode: opcode_of(inst),
            funct3: funct3_of(inst),
            rs1: rs1_of(inst),
            rs2: rs2_of(inst),
            imm: b_imm_of(inst),
        }
    }

    /// Splits a branch instruction word into its fields.
    pub fn decode(inst: u32) -> (r: BType)
        ensures
            r == BType::spec_decode(inst),
            r.rs1 < 32,
            r.rs2 < 32,
            r.imm < 0x2000,
    {
        proof {
            lemma_field_bounds(inst);
        }
        BType {
            opcode: inst & 0x7f,
            funct3: (inst >> 12) & 0x7,
            rs1: (inst >> 15) & 0x1f,
            rs2: (inst >> 20) & 0x1f,
            imm: (((inst >> 31) & 0x1) << 12) | (((inst >> 25) & 0x3f) << 5) | (((inst >> 8) & 0xf)
                << 1) | (((inst >> 7) & 0x1) << 11),
        }
    }
}

impl UType {
    pub open spec fn spec_decode(inst: u32) -> UType {
        UType { opcode: opcode_of(inst), rd: rd_of(inst), imm: u_imm_of(inst) }
    }

    /// Splits an upper-immediate instruction word into its fields.
    pub fn decode(inst: u32) -> (r: UType)
        ensures
            r == UType::spec_decode(inst),
            r.rd < 32,
            r.imm < 0x100000,
    {
        proof {
            lemma_field_bounds(inst);
        }
        UType { opcode: inst & 0x7f, rd: (inst >> 7) & 0x1f, imm: (inst >> 12) & 0xfffff }
    }
}

impl JType {
    pub open spec fn spec_decode(inst: u32) -> JType {
        JType { opcode: opcode_of(inst), rd: rd_of(inst), imm: j_imm_of(inst) }
    }

    /// Splits a jump instruction word into its fields.
    pub fn decode(inst: u32) -> (r: JType)
        ensures
            r == JType::spec_decode(inst),
            r.rd < 32,
            r.imm < 0x200000,
    {
        proof {
            lemma_field_bounds(inst);
        }
        JType {
            opcode: inst & 0x7f,
            rd: (inst >> 7) & 0x1f,
            imm: (((inst >> 31) & 0x1) << 20) | (((inst >> 21) & 0x3ff) << 1) | (((inst >> 20)
                & 0x1) << 11) | (((inst >> 12) & 0xff) << 12),
        }
    }
}

} // verus!
