//! The architectural state of the processor as a mathematical value, and
//! what each instruction does to it.

use vstd::prelude::*;
use super::alu::{div_value, divu_value, low32, rem_value, remu_value, word_value};
use super::bus::access_ok;
use super::dram::{read_spec, write_spec};
use super::except::Exception;
use super::isa::IsaProcessor;
use crate::kit::bits::{signed64, signed_low, wrap64};
use crate::kit::insn::{
    b_imm_of,
    i_imm_of,
    j_imm_of,
    rd_of,
    rs1_of,
    rs2_of,
    s_imm_of,
    u_imm_of,
};

verus! {

/// Registers, program counter and memory of a processor.
pub ghost struct Hart {
    /// The 32 general registers.
    pub regs: Seq<u64>,
    /// The program counter.
    pub pc: u64,
    /// The amount that a step adds to `pc` after the handler has run.
    pub pcimm: u64,
    /// The bytes of RAM, from address `DRAM_BASE` upwards.
    pub mem: Seq<u8>,
}

impl Hart {
    /// The value of register `id`.
    pub open spec fn reg(self, id: u32) -> u64 {
        self.regs[id as int]
    }

    /// This state with register `id` set to `value`.
    pub open spec fn with_reg(self, id: u32, value: u64) -> Hart {
        Hart { regs: self.regs.update(id as int, value), ..self }
    }

    /// This state with the program counter at `pc`.
    pub open spec fn with_pc(self, pc: u64) -> Hart {
        Hart { pc, ..self }
    }

    /// This state with memory replaced by `mem`.
    pub open spec fn with_mem(self, mem: Seq<u8>) -> Hart {
        Hart { mem, ..self }
    }

    /// This state after a control transfer to `target`: the step adds
    /// nothing more to the program counter.
    pub open spec fn jump(self, target: u64) -> Hart {
        Hart { pc: target, pcimm: 0, ..self }
    }

    /// This state after a conditional branch: a transfer to the program
    /// counter plus the signed 13-bit offset where the branch is taken,
    /// and no change where it is not.
    pub open spec fn branch(self, insn: u32, taken: bool) -> Hart {
        if taken {
            self.jump(wrap64(self.pc + signed_low(b_imm_of(insn) as u64, 13)))
        } else {
            self
        }
    }

    /// The address of a load: the first source register plus the signed
    /// 12-bit offset.
    pub open spec fn load_addr(self, insn: u32) -> u64 {
        wrap64(self.reg(rs1_of(insn)) + signed_low(i_imm_of(insn) as u64, 12))
    }

    /// The address of a store: the first source register plus the signed
    /// 12-bit offset.
    pub open spec fn store_addr(self, insn: u32) -> u64 {
        wrap64(self.reg(rs1_of(insn)) + signed_low(s_imm_of(insn) as u64, 12))
    }

    /// This state after a load of `size` bits into the destination
    /// register, sign extended or zero extended; or the fault of the access.
    pub open spec fn load(self, insn: u32, size: u64, sign_extend: bool) -> Result<
        Hart,
        Exception,
    > {
        let addr = self.load_addr(insn);
        if access_ok(self.mem.len(), addr, size) {
            let v = read_spec(self.mem, addr, size);
            Ok(
                self.with_reg(
                    rd_of(insn),
                    if sign_extend {
                        wrap64(signed_low(v, size as u32))
                    } else {
                        v
                    },
                ),
            )
        } else {
            Err(Exception::LoadAccessFault(addr))
        }
    }

    /// This state after a store of the low `size` bits of the second
    /// source register; or the fault of the access.
    pub open spec fn store(self, insn: u32, size: u64) -> Result<Hart, Exception> {
        let addr = self.store_addr(insn);
        if access_ok(self.mem.len(), addr, size) {
            Ok(self.with_mem(write_spec(self.mem, addr, size, self.reg(rs2_of(insn)))))
        } else {
            Err(Exception::StoreAMOAccessFault(addr))
        }
    }
}

/// The 32-bit value that an upper-immediate instruction spells, as a signed
/// integer: its 20-bit field above twelve zero bits.
pub open spec fn upper_value(insn: u32) -> int {
    signed_low((u_imm_of(insn) * 4096) as u64, 32)
}

/// The truth value `b` as a register value.
pub open spec fn flag(b: bool) -> u64 {
    if b {
        1
    } else {
        0
    }
}

/// What the handler `p` makes of the state `h` when it runs on the
/// instruction word `insn`: the state that follows, or the fault that it
/// raises. A fault leaves the state as it was.
pub open spec fn semantics(p: IsaProcessor, h: Hart, insn: u32) -> Result<Hart, Exception> {
    let rd = rd_of(insn);
    let a = h.reg(rs1_of(insn));
    let b = h.reg(rs2_of(insn));
    let imm = signed_low(i_imm_of(insn) as u64, 12);
    match p {
        IsaProcessor::Lui => Ok(h.with_reg(rd, wrap64(upper_value(insn)))),
        IsaProcessor::Auipc => Ok(h.with_reg(rd, wrap64(h.pc + upper_value(insn)))),
        IsaProcessor::Jal => Ok(
            h.with_reg(rd, wrap64(h.pc + 4)).jump(
                wrap64(h.pc + signed_low(j_imm_of(insn) as u64, 21)),
            ),
        ),
        IsaProcessor::Jalr => Ok(h.jump(wrap64(a + imm) & !1u64).with_reg(rd, wrap64(h.pc + 4))),
        IsaProcessor::Beq => Ok(h.branch(insn, a == b)),
        IsaProcessor::Bne => Ok(h.branch(insn, a != b)),
        IsaProcessor::Blt => Ok(h.branch(insn, signed64(a) < signed64(b))),
        IsaProcessor::Bge => Ok(h.branch(insn, signed64(a) >= signed64(b))),
        IsaProcessor::Bltu => Ok(h.branch(insn, a < b)),
        IsaProcessor::Bgeu => Ok(h.branch(insn, a >= b)),
        IsaProcessor::Lb => h.load(insn, 8, true),
        IsaProcessor::Lh => h.load(insn, 16, true),
        IsaProcessor::Lw => h.load(insn, 32, true),
        IsaProcessor::Ld => h.load(insn, 64, false),
        IsaProcessor::Lbu => h.load(insn, 8, false),
        IsaProcessor::Lhu => h.load(insn, 16, false),
        IsaProcessor::Lwu => h.load(insn, 32, false),
        IsaProcessor::Sb => h.store(insn, 8),
        IsaProcessor::Sh => h.store(insn, 16),
        IsaProcessor::Sw => h.store(insn, 32),
        IsaProcessor::Sd => h.store(insn, 64),
        IsaProcessor::Addi => Ok(h.with_reg(rd, wrap64(a + imm))),
        IsaProcessor::Slti => Ok(h.with_reg(rd, flag(signed64(a) < imm))),
        IsaProcessor::Sltiu => Ok(h.with_reg(rd, flag(a < wrap64(imm)))),
        IsaProcessor::Xori => Ok(h.with_reg(rd, a ^ wrap64(imm))),
        IsaProcessor::Ori => Ok(h.with_reg(rd, a | wrap64(imm))),
        IsaProcessor::Andi => Ok(h.with_reg(rd, a & wrap64(imm))),
        IsaProcessor::Add => Ok(h.with_reg(rd, wrap64(a + b))),
        IsaProcessor::Sub => Ok(h.with_reg(rd, wrap64(a - b))),
        IsaProcessor::Or => Ok(h.with_reg(rd, a | b)),
        IsaProcessor::And => Ok(h.with_reg(rd, a & b)),
        IsaProcessor::Mul => Ok(h.with_reg(rd, wrap64(a * b))),
        IsaProcessor::Mulhu => Ok(h.with_reg(rd, ((a * b) / 0x1_0000_0000_0000_0000) as u64)),
        IsaProcessor::Div => Ok(h.with_reg(rd, wrap64(div_value(signed64(a), signed64(b))))),
        IsaProcessor::Divu => Ok(h.with_reg(rd, divu_value(a, b))),
        IsaProcessor::Rem => Ok(h.with_reg(rd, wrap64(rem_value(signed64(a), signed64(b))))),
        IsaProcessor::Remu => Ok(h.with_reg(rd, remu_value(a, b))),
        IsaProcessor::Mulw => Ok(h.with_reg(rd, word_value(a * b))),
        IsaProcessor::Divw => Ok(
            h.with_reg(rd, word_value(div_value(signed_low(a, 32), signed_low(b, 32)))),
        ),
        IsaProcessor::Divuw => Ok(
            h.with_reg(rd, word_value(divu_value(low32(a), low32(b)) as int)),
        ),
        IsaProcessor::Remw => Ok(
            h.with_reg(rd, word_value(rem_value(signed_low(a, 32), signed_low(b, 32)))),
        ),
        IsaProcessor::Remuw => Ok(
            h.with_reg(rd, word_value(remu_value(low32(a), low32(b)) as int)),
        ),
    }
}

/// A handler that succeeds either leaves the program counter and its
/// increment alone, or sets the program counter itself and the increment
/// to 0: the step then adds nothing to the handler's own target.
pub proof fn lemma_pc_convention(p: IsaProcessor, h: Hart, insn: u32)
    ensures
        semantics(p, h, insn) matches Ok(after) ==> after.pcimm == 0 || (after.pc == h.pc
            && after.pcimm == h.pcimm),
{
}

/// Only stores change memory.
pub proof fn lemma_memory_frame(p: IsaProcessor, h: Hart, insn: u32)
    requires
        !(p is Sb || p is Sh || p is Sw || p is Sd),
    ensures
        semantics(p, h, insn) matches Ok(after) ==> after.mem == h.mem,
{
}

/// A handler changes no register but the destination register of its
/// instruction word, and keeps the number of registers.
pub proof fn lemma_register_frame(p: IsaProcessor, h: Hart, insn: u32, id: int)
    requires
        h.regs.len() == 32,
        0 <= id < 32,
        id != rd_of(insn),
    ensures
        semantics(p, h, insn) matches Ok(after) ==> after.regs.len() == 32 && after.regs[id]
            == h.regs[id],
{
    crate::kit::insn::lemma_field_bounds(insn);
}

} // verus!
