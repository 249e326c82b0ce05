//! The CPU: register file, program counter, bus and instruction table.

use vstd::prelude::*;
use vstd::arithmetic::power2::lemma2_to64;
use vstd::string::*;
use std::collections::HashMap;
use super::alu::offset;
use super::bus::{access_ok, Bus};
use super::dram::{image_spec, lemma_read_fits, read_spec, write_spec};
use super::except::Exception;
use super::hart::{semantics, Hart};
use super::i::{
    exec_add,
    exec_addi,
    exec_and,
    exec_andi,
    exec_auipc,
    exec_beq,
    exec_bge,
    exec_bgeu,
    exec_blt,
    exec_bltu,
    exec_bne,
    exec_jal,
    exec_jalr,
    exec_lb,
    exec_lbu,
    exec_ld,
    exec_lh,
    exec_lhu,
    exec_lui,
    exec_lw,
    exec_lwu,
    exec_or,
    exec_ori,
    exec_sb,
    exec_sd,
    exec_sh,
    exec_slti,
    exec_sltiu,
    exec_sub,
    exec_sw,
    exec_xori,
};
use super::isa::{
    lookup,
    lookup_spec,
    table_view,
    IsaDefine,
    IsaProcessor,
    IsaTable,
};
use super::m::{
    exec_div,
    exec_divu,
    exec_divuw,
    exec_divw,
    exec_mul,
    exec_mulhu,
    exec_mulw,
    exec_rem,
    exec_remu,
    exec_remuw,
    exec_remw,
};
use super::standard::standard_table;
use super::param::{ABINAME, DRAM_BASE, DRAM_END, DRAM_SIZE};
use crate::kit::bits::{signed_low, wrap64};
use crate::kit::hex::{hex, hex_spec, push_hex};
use crate::kit::insn::{
    b_imm_of,
    i_imm_of,
    j_imm_of,
    rd_of,
    rs1_of,
    rs2_of,
    s_imm_of,
    u_imm_of,
    BType,
    IType,
    InsnType,
    JType,
    RType,
    SType,
    UType,
};
use crate::model::{MemoryValueResponse, RegisterValueResponse};

verus! {

/// One emulated processor.
pub struct Cpu {
    /// The 32 general registers. Register 0 reads as zero between steps.
    pub regs: [u64; 32],
    /// The address of the instruction to execute next.
    pub pc: u64,
    /// What the step adds to `pc` once the handler has run: 4 by default,
    /// 0 where the handler has set `pc` itself.
    pub pcimm: u64,
    /// The memory subsystem.
    pub bus: Bus,
    /// Whether a program is loaded and may be stepped.
    pub running: bool,
    /// The instruction table.
    pub isa_define_map: HashMap<u32, Vec<IsaDefine>>,
    /// Addresses at which a run loop should stop.
    pub breakpoints: Vec<u64>,
}

impl View for Cpu {
    type V = Hart;

    /// The architectural state: registers, program counter and memory.
    open spec fn view(&self) -> Hart {
        Hart { regs: self.regs@, pc: self.pc, pcimm: self.pcimm, mem: self.bus@ }
    }
}

/// The state in which a handler starts: register 0 cleared and the
/// program counter's increment at its default, 4.
pub open spec fn entry(h: Hart) -> Hart {
    Hart { regs: h.regs.update(0, 0u64), pcimm: 4, ..h }
}

/// What executing the instruction word `insn` makes of the state `h` under
/// the instruction table `table`: the state that follows, and the program
/// counter to commit or the fault.
///
/// The handler of the definition that the word selects runs on the entry
/// state. Where it succeeds, register 0 is cleared once more and the
/// program counter to commit is the handler's program counter plus its
/// increment. Where no definition is selected the fault is an illegal
/// instruction that carries the word. After a fault the state is the entry
/// state: the program counter is as it was.
pub open spec fn execute_spec(table: IsaTable, h: Hart, insn: u32) -> (
    Hart,
    Result<u64, Exception>,
) {
    let start = entry(h);
    match lookup_spec(table, insn) {
        None => (start, Err(Exception::IllegalInstruction(insn))),
        Some(def) => match semantics(def.processor, start, insn) {
            Err(e) => (start, Err(e)),
            Ok(after) => (after.with_reg(0, 0), Ok(wrap64(after.pc + after.pcimm))),
        },
    }
}

/// What one step makes of the state `h`: fetch at the program counter,
/// execute, and commit the new program counter. The result is the word
/// executed and the program counter committed, or the fault of the fetch or
/// of the execution. A fault of the fetch leaves the state untouched; a
/// fault of the execution leaves the program counter untouched.
pub open spec fn step_spec(table: IsaTable, h: Hart) -> (Hart, Result<(u32, u64), Exception>) {
    if access_ok(h.mem.len(), h.pc, 32) {
        let insn = read_spec(h.mem, h.pc, 32) as u32;
        let (after, r) = execute_spec(table, h, insn);
        match r {
            Ok(pc) => (after.with_pc(pc), Ok((insn, pc))),
            Err(e) => (after, Err(e)),
        }
    } else {
        (h, Err(Exception::LoadAccessFault(h.pc)))
    }
}

/// The state of a processor after reset with the program image `code` and
/// the register values `seeds`: register 0 is zero and register 2, the
/// stack pointer, is the last address of RAM, whatever `seeds` holds for
/// them; the program counter is the first address of RAM.
pub open spec fn reset_spec(code: Seq<u8>, seeds: Seq<u64>) -> Hart {
    Hart {
        regs: seeds.update(0, 0u64).update(2, DRAM_END),
        pc: DRAM_BASE,
        pcimm: 4,
        mem: image_spec(code),
    }
}

/// The calling-convention name of register `id`.
pub open spec fn reg_name(id: u32) -> Seq<char> {
    ABINAME[id as int]@
}

/// The line that describes the instruction word `insn` at address `pc`
/// under the instruction table `table`: the address in twelve hexadecimal
/// digits, the mnemonic of the definition that the word selects, and its
/// operands by encoding class; for a branch or a jump also the address that
/// it transfers to. A word that selects no definition is shown as `?` with
/// the word in eight hexadecimal digits.
pub open spec fn explain_spec(table: IsaTable, pc: u64, insn: u32) -> Seq<char> {
    let head = hex_spec(pc as nat, 12) + ": "@;
    match lookup_spec(table, insn) {
        None => head + "?\t\t0x"@ + hex_spec(insn as nat, 8),
        Some(def) => {
            let head = head + def.mnemonic@ + "\t"@;
            match def.mtype {
                InsnType::U => head + reg_name(rd_of(insn)) + ", 0x"@ + hex_spec(
                    u_imm_of(insn) as nat,
                    5,
                ),
                InsnType::I => if insn & 0x7f == 0x03 || insn & 0x7f == 0x67 {
                    head + reg_name(rd_of(insn)) + ", 0x"@ + hex_spec(i_imm_of(insn) as nat, 1)
                        + "("@ + reg_name(rs1_of(insn)) + ")"@
                } else {
                    head + reg_name(rd_of(insn)) + ", "@ + reg_name(rs1_of(insn)) + ", 0x"@
                        + hex_spec(i_imm_of(insn) as nat, 3)
                },
                InsnType::S => head + reg_name(rs1_of(insn)) + ", 0x"@ + hex_spec(
                    s_imm_of(insn) as nat,
                    1,
                ) + "("@ + reg_name(rs2_of(insn)) + ")"@,
                InsnType::B => head + reg_name(rs1_of(insn)) + ", "@ + reg_name(rs2_of(insn))
                    + ", 0x"@ + hex_spec(b_imm_of(insn) as nat, 1) + " -> 0x"@ + hex_spec(
                    wrap64(pc + signed_low(b_imm_of(insn) as u64, 13)) as nat,
                    1,
                ),
                InsnType::R => head + reg_name(rd_of(insn)) + ", "@ + reg_name(rs1_of(insn))
                    + ", "@ + reg_name(rs2_of(insn)),
                InsnType::J => head + reg_name(rd_of(insn)) + ", 0x"@ + hex_spec(
                    j_imm_of(insn) as nat,
                    1,
                ) + " -> 0x"@ + hex_spec(
                    wrap64(pc + signed_low(j_imm_of(insn) as u64, 21)) as nat,
                    1,
                ),
            }
        },
    }
}

/// The address of the word `k` steps of 4 bytes above `begin`.
pub open spec fn word_addr(begin: u64, k: int) -> u64 {
    (begin + 4 * k) as u64
}

/// The number of 4-byte steps from `begin` that do not pass `end`.
pub open spec fn range_len(begin: u64, end: u64) -> nat {
    if begin > end {
        0
    } else {
        ((end - begin) / 4 + 1) as nat
    }
}

/// The generator of pseudo-random numbers of the current thread.
#[verifier::external_type_specification]
#[verifier::external_body]
pub struct ExThreadRng(rand::rngs::ThreadRng);

/// `rand::rng`: a handle to the generator of the current thread. Nothing is
/// claimed of the handle. The call panics where the operating system gives
/// the generator no seed; no argument decides that.
#[verifier::external_body]
fn thread_rng() -> rand::rngs::ThreadRng {
    rand::rng()
}

/// `RngCore::next_u64` on the thread's generator: the next pseudo-random
/// 64-bit number. Nothing is claimed of the number: two calls may differ.
/// The call panics where the generator is due for a new seed and the
/// operating system gives none; no argument decides that.
#[verifier::external_body]
fn next_u64(rng: &mut rand::rngs::ThreadRng) -> u64 {
    rand::RngCore::next_u64(rng)
}

impl IsaProcessor {
    /// Runs this handler on `cpu` and the instruction word `insn`.
    pub fn call(self, cpu: &mut Cpu, insn: u32) -> (r: Result<u64, Exception>)
        ensures
            runs(self, *old(cpu), insn, *final(cpu), r),
    {
        match self {
            IsaProcessor::Lui => exec_lui(cpu, insn),
            IsaProcessor::Auipc => exec_auipc(cpu, insn),
            IsaProcessor::Jal => exec_jal(cpu, insn),
            IsaProcessor::Jalr => exec_jalr(cpu, insn),
            IsaProcessor::Beq => exec_beq(cpu, insn),
            IsaProcessor::Bne => exec_bne(cpu, insn),
            IsaProcessor::Blt => exec_blt(cpu, insn),
            IsaProcessor::Bge => exec_bge(cpu, insn),
            IsaProcessor::Bltu => exec_bltu(cpu, insn),
            IsaProcessor::Bgeu => exec_bgeu(cpu, insn),
            IsaProcessor::Lb => exec_lb(cpu, insn),
            IsaProcessor::Lh => exec_lh(cpu, insn),
            IsaProcessor::Lw => exec_lw(cpu, insn),
            IsaProcessor::Ld => exec_ld(cpu, insn),
            IsaProcessor::Lbu => exec_lbu(cpu, insn),
            IsaProcessor::Lhu => exec_lhu(cpu, insn),
            IsaProcessor::Lwu => exec_lwu(cpu, insn),
            IsaProcessor::Sb => exec_sb(cpu, insn),
            IsaProcessor::Sh => exec_sh(cpu, insn),
            IsaProcessor::Sw => exec_sw(cpu, insn),
            IsaProcessor::Sd => exec_sd(cpu, insn),
            IsaProcessor::Addi => exec_addi(cpu, insn),
            IsaProcessor::Slti => exec_slti(cpu, insn),
            IsaProcessor::Sltiu => exec_sltiu(cpu, insn),
            IsaProcessor::Xori => exec_xori(cpu, insn),
            IsaProcessor::Ori => exec_ori(cpu, insn),
            IsaProcessor::Andi => exec_andi(cpu, insn),
            IsaProcessor::Add => exec_add(cpu, insn),
            IsaProcessor::Sub => exec_sub(cpu, insn),
            IsaProcessor::Or => exec_or(cpu, insn),
            IsaProcessor::And => exec_and(cpu, insn),
            IsaProcessor::Mul => exec_mul(cpu, insn),
            IsaProcessor::Mulhu => exec_mulhu(cpu, insn),
            IsaProcessor::Div => exec_div(cpu, insn),
            IsaProcessor::Divu => exec_divu(cpu, insn),
            IsaProcessor::Rem => exec_rem(cpu, insn),
            IsaProcessor::Remu => exec_remu(cpu, insn),
            IsaProcessor::Mulw => exec_mulw(cpu, insn),
            IsaProcessor::Divw => exec_divw(cpu, insn),
            IsaProcessor::Divuw => exec_divuw(cpu, insn),
            IsaProcessor::Remw => exec_remw(cpu, insn),
            IsaProcessor::Remuw => exec_remuw(cpu, insn),
        }
    }
}

impl Cpu {
    /// Executes the instruction word `insn` and returns the program counter
    /// to commit: the caller assigns it to `pc`. Register 0 is zero
    /// afterwards, whatever the handler did and whether or not it failed.
    /// A fault changes neither the program counter nor memory nor any other
    /// register.
    pub fn execute(&mut self, insn: u32) -> (r: Result<u64, Exception>)
        ensures
            final(self).same_setup(old(self)),
            (final(self)@, r) == execute_spec(
                table_view(old(self).isa_define_map),
                old(self)@,
                insn,
            ),
            final(self)@.regs[0] == 0,
            final(self)@.mem.len() == old(self)@.mem.len(),
            lookup_spec(table_view(old(self).isa_define_map), insn) is None ==> r == Err::<
                u64,
                Exception,
            >(Exception::IllegalInstruction(insn)),
    {
        // x0 is hardwired zero
        self.regs[0] = 0;
        self.pcimm = 4;
        assert(self@ == entry(old(self)@));
        match lookup(&self.isa_define_map, insn) {
            Some(def) => {
                match def.processor.call(self, insn) {
                    Ok(_) => {},
                    Err(e) => {
                        return Err(e);
                    },
                }
            },
            None => {
                return Err(Exception::IllegalInstruction(insn));
            },
        }
        // x0 is hardwired zero
        self.regs[0] = 0;
        Ok(self.pc.wrapping_add(self.pcimm))
    }

    /// Fetches the instruction at the program counter, executes it and
    /// commits the new program counter. Returns the word executed and the
    /// new program counter.
    pub fn step(&mut self) -> (r: Result<(u32, u64), Exception>)
        ensures
            final(self).same_setup(old(self)),
            (final(self)@, r) == step_spec(table_view(old(self).isa_define_map), old(self)@),
            access_ok(old(self)@.mem.len(), old(self).pc, 32) ==> final(self)@.regs[0] == 0,
            final(self)@.mem.len() == old(self)@.mem.len(),
    {
        let word: u64 = match self.fetch() {
            Ok(word) => word,
            Err(e) => {
                return Err(e);
            },
        };
        proof {
            lemma_read_fits(self@.mem, self.pc, 32);
            vstd::arithmetic::power2::lemma2_to64();
        }
        let insn: u32 = word as u32;
        match self.execute(insn) {
            Ok(new_pc) => {
                self.pc = new_pc;
                Ok((insn, new_pc))
            },
            Err(e) => Err(e),
        }
    }

    /// A processor after reset, with the program image `code` in fresh
    /// memory and pseudo-random values in the registers other than
    /// register 0 and the stack pointer: a stand-in for what hardware
    /// leaves undefined at reset. See `with_registers` for a reset with
    /// chosen register values, such as all zeros.
    pub fn new(code: Vec<u8>) -> (r: Cpu)
        requires
            code@.len() <= DRAM_SIZE,
        ensures
            r@.regs[0] == 0,
            r@.regs[2] == DRAM_END,
            r@.pc == DRAM_BASE,
            r@.pcimm == 4,
            r@.mem == image_spec(code@),
            r.wf(),
            !r.running,
            r.breakpoints@.len() == 0,
            table_view(r.isa_define_map) == standard_table(),
    {
        let mut rng = thread_rng();
        let mut regs: [u64; 32] = [0u64; 32];
        let mut i: usize = 1;
        while i < 32
            invariant
                1 <= i <= 32,
            decreases 32 - i,
        {
            regs[i] = next_u64(&mut rng);
            i += 1;
        }
        Cpu::with_registers(code, regs)
    }

    /// A processor after reset, with the program image `code` in fresh
    /// memory and the registers as `regs` gives them, except register 0
    /// and the stack pointer.
    pub fn with_registers(code: Vec<u8>, regs: [u64; 32]) -> (r: Cpu)
        requires
            code@.len() <= DRAM_SIZE,
        ensures
            r@ == reset_spec(code@, regs@),
            r.wf(),
            !r.running,
            r.breakpoints@.len() == 0,
            table_view(r.isa_define_map) == standard_table(),
    {
        let mut regs = regs;
        regs[0] = 0;
        regs[2] = DRAM_END;
        let bus = Bus::new(code);
        let mut map: HashMap<u32, Vec<IsaDefine>> = HashMap::new();
        assert(table_view(map) =~= Map::<u32, Seq<IsaDefine>>::empty());
        super::i::register_ext(&mut map);
        super::m::register_ext(&mut map);
        Self {
            regs,
            pc: DRAM_BASE,
            pcimm: 4,
            bus,
            running: false,
            isa_define_map: map,
            breakpoints: Vec::new(),
        }
    }

    /// Describes the instruction word `insn` as if it stood at the program
    /// counter, by the same lookup and the same field extraction that
    /// `execute` uses. Changes nothing.
    pub fn explain(&self, insn: u32) -> (r: String)
        ensures
            r@ == explain_spec(table_view(self.isa_define_map), self.pc, insn),
    {
        proof {
            lemma2_to64();
        }
        let mut s: String = hex(self.pc, 12);
        s.append(": ");
        match lookup(&self.isa_define_map, insn) {
            Some(def) => {
                s.append(def.mnemonic);
                s.append("\t");
                match def.mtype {
                    InsnType::U => {
                        let u = UType::decode(insn);
                        s.append(ABINAME[u.rd as usize]);
                        s.append(", 0x");
                        push_hex(&mut s, u.imm as u64, 5);
                    },
                    InsnType::I => {
                        let i = IType::decode(insn);
                        // jalr | load
                        if (insn & 0x7f) == 0x03 || (insn & 0x7f) == 0x67 {
                            s.append(ABINAME[i.rd as usize]);
                            s.append(", 0x");
                            push_hex(&mut s, i.imm as u64, 1);
                            s.append("(");
                            s.append(ABINAME[i.rs1 as usize]);
                            s.append(")");
                        } else {
                            s.append(ABINAME[i.rd as usize]);
                            s.append(", ");
                            s.append(ABINAME[i.rs1 as usize]);
                            s.append(", 0x");
                            push_hex(&mut s, i.imm as u64, 3);
                        }
                    },
                    InsnType::S => {
                        let t = SType::decode(insn);
                        s.append(ABINAME[t.rs1 as usize]);
                        s.append(", 0x");
                        push_hex(&mut s, t.imm as u64, 1);
                        s.append("(");
                        s.append(ABINAME[t.rs2 as usize]);
                        s.append(")");
                    },
                    InsnType::B => {
                        let b = BType::decode(insn);
                        s.append(ABINAME[b.rs1 as usize]);
                        s.append(", ");
                        s.append(ABINAME[b.rs2 as usize]);
                        s.append(", 0x");
                        push_hex(&mut s, b.imm as u64, 1);
                        s.append(" -> 0x");
                        push_hex(&mut s, offset(self.pc, b.imm, 13), 1);
                    },
                    InsnType::R => {
                        let r = RType::decode(insn);
                        s.append(ABINAME[r.rd as usize]);
                        s.append(", ");
                        s.append(ABINAME[r.rs1 as usize]);
                        s.append(", ");
                        s.append(ABINAME[r.rs2 as usize]);
                    },
                    InsnType::J => {
                        let j = JType::decode(insn);
                        s.append(ABINAME[j.rd as usize]);
                        s.append(", 0x");
                        push_hex(&mut s, j.imm as u64, 1);
                        s.append(" -> 0x");
                        push_hex(&mut s, offset(self.pc, j.imm, 21), 1);
                    },
                }
            },
            None => {
                s.append("?\t\t0x");
                push_hex(&mut s, insn as u64, 8);
            },
        }
        s
    }

    /// The program counter and the 32 general registers, each with its
    /// name and its value in sixteen hexadecimal digits: first `pc`, then
    /// the registers by index under their calling-convention names.
    pub fn read_registers(&self) -> (r: Vec<RegisterValueResponse>)
        ensures
            r@.len() == 33,
            r@[0].key@ == "pc"@,
            r@[0].value@ == "0x"@ + hex_spec(self.pc as nat, 16),
            forall|i: int|
                0 <= i < 32 ==> (#[trigger] r@[i + 1]).key@ == reg_name(i as u32) && r@[i
                    + 1].value@ == "0x"@ + hex_spec(self.regs@[i] as nat, 16),
    {
        let mut vec: Vec<RegisterValueResponse> = Vec::new();
        let mut value: String = String::from_str("0x");
        push_hex(&mut value, self.pc, 16);
        vec.push(RegisterValueResponse::new(String::from_str("pc"), value));
        let mut i: usize = 0;
        while i < 32
            invariant
                i <= 32,
                vec@.len() == i + 1,
                vec@[0].key@ == "pc"@,
                vec@[0].value@ == "0x"@ + hex_spec(self.pc as nat, 16),
                forall|k: int|
                    0 <= k < i ==> (#[trigger] vec@[k + 1]).key@ == reg_name(k as u32) && vec@[k
                        + 1].value@ == "0x"@ + hex_spec(self.regs@[k] as nat, 16),
            decreases 32 - i,
        {
            let mut value: String = String::from_str("0x");
            push_hex(&mut value, self.regs[i], 16);
            vec.push(RegisterValueResponse::new(String::from_str(ABINAME[i]), value));
            i += 1;
        }
        vec
    }

    /// The 32-bit words at `begin`, `begin + 4`, and so on up to `end`,
    /// highest address first. A word that cannot be loaded fails the whole
    /// call with the fault of the lowest such address.
    pub fn read_memory_range(&self, begin: u64, end: u64) -> (r: Result<
        Vec<MemoryValueResponse>,
        Exception,
    >)
        ensures
            match r {
                Ok(v) => {
                    &&& v@.len() == range_len(begin, end)
                    &&& forall|k: int|
                        0 <= k < v@.len() ==> {
                            &&& access_ok(self@.mem.len(), #[trigger] word_addr(begin, k), 32)
                            &&& v@[v@.len() - 1 - k].address == begin + 4 * k
                            &&& v@[v@.len() - 1 - k].word == read_spec(
                                self@.mem,
                                word_addr(begin, k),
                                32,
                            )
                        }
                },
                Err(e) => exists|k: int|
                    {
                        &&& 0 <= k < range_len(begin, end)
                        &&& e == Exception::LoadAccessFault(#[trigger] word_addr(begin, k))
                        &&& !access_ok(self@.mem.len(), word_addr(begin, k), 32)
                        &&& forall|j: int|
                            0 <= j < k ==> access_ok(
                                self@.mem.len(),
                                #[trigger] word_addr(begin, j),
                                32,
                            )
                    },
            },
    {
        let mut up: Vec<MemoryValueResponse> = Vec::new();
        let mut address: u64 = begin;
        while address <= end
            invariant
                begin <= address,
                (address - begin) % 4 == 0,
                up@.len() == (address - begin) / 4,
                up@.len() <= range_len(begin, end),
                address <= end ==> up@.len() < range_len(begin, end),
                address > end ==> up@.len() == range_len(begin, end),
                forall|k: int|
                    0 <= k < up@.len() ==> {
                        &&& access_ok(self@.mem.len(), #[trigger] word_addr(begin, k), 32)
                        &&& up@[k].address == begin + 4 * k
                        &&& up@[k].word == read_spec(self@.mem, word_addr(begin, k), 32)
                    },
            decreases
                    (if address <= end {
                        end - address + 4
                    } else {
                        0
                    }),
        {
            match self.bus.load(address, 32) {
                Ok(word) => {
                    proof {
                        lemma_read_fits(self@.mem, address, 32);
                        lemma2_to64();
                    }
                    assert(address == word_addr(begin, up@.len() as int));
                    up.push(MemoryValueResponse::new(address, word as u32));
                },
                Err(e) => {
                    assert(address == word_addr(begin, up@.len() as int));
                    return Err(e);
                },
            }
            address += 4;
        }
        let n: usize = up.len();
        let mut down: Vec<MemoryValueResponse> = Vec::new();
        let mut i: usize = n;
        while i > 0
            invariant
                i <= n == up@.len(),
                n == range_len(begin, end),
                down@.len() == n - i,
                forall|k: int|
                    0 <= k < up@.len() ==> {
                        &&& access_ok(self@.mem.len(), #[trigger] word_addr(begin, k), 32)
                        &&& up@[k].address == begin + 4 * k
                        &&& up@[k].word == read_spec(self@.mem, word_addr(begin, k), 32)
                    },
                forall|k: int|
                    0 <= k < down@.len() ==> (#[trigger] down@[k]).address == up@[n - 1
                        - k].address && down@[k].word == up@[n - 1 - k].word,
            decreases i,
        {
            i -= 1;
            down.push(MemoryValueResponse::new(up[i].address, up[i].word));
        }
        proof {
            assert forall|k: int| 0 <= k < down@.len() implies {
                &&& access_ok(self@.mem.len(), #[trigger] word_addr(begin, k), 32)
                &&& down@[down@.len() - 1 - k].address == begin + 4 * k
                &&& down@[down@.len() - 1 - k].word == read_spec(
                    self@.mem,
                    word_addr(begin, k),
                    32,
                )
            } by {
                let j = down@.len() - 1 - k;
                assert(down@[j].address == up@[n - 1 - j].address);
                assert(n - 1 - j == k);
            }
        }
        Ok(down)
    }

    /// Memory has its full size.
    pub open spec fn wf(&self) -> bool {
        self.bus.wf()
    }

    /// Whether `self` and `other` differ at most in their architectural
    /// state: table, breakpoints and run flag are the same.
    pub open spec fn same_setup(&self, other: &Cpu) -> bool {
        &&& self.running == other.running
        &&& self.isa_define_map == other.isa_define_map
        &&& self.breakpoints == other.breakpoints
    }

    /// Load a value from memory.
    pub fn load(&mut self, addr: u64, size: u64) -> (r: Result<u64, Exception>)
        ensures
            *final(self) == *old(self),
            r == if access_ok(old(self)@.mem.len(), addr, size) {
                Ok::<u64, Exception>(read_spec(old(self)@.mem, addr, size))
            } else {
                Err::<u64, Exception>(Exception::LoadAccessFault(addr))
            },
    {
        self.bus.load(addr, size)
    }

    /// Store a value to memory.
    pub fn store(&mut self, addr: u64, size: u64, value: u64) -> (r: Result<(), Exception>)
        ensures
            final(self).same_setup(old(self)),
            access_ok(old(self)@.mem.len(), addr, size) ==> r == Ok::<(), Exception>(())
                && final(self)@ == old(self)@.with_mem(write_spec(old(self)@.mem, addr, size, value)),
            !access_ok(old(self)@.mem.len(), addr, size) ==> r == Err::<(), Exception>(
                Exception::StoreAMOAccessFault(addr),
            ) && final(self)@ == old(self)@,
            final(self)@.mem.len() == old(self)@.mem.len(),
    {
        self.bus.store(addr, size, value)
    }

    /// Get the instruction word at the program counter.
    pub fn fetch(&mut self) -> (r: Result<u64, Exception>)
        ensures
            *final(self) == *old(self),
            r == if access_ok(old(self)@.mem.len(), old(self).pc, 32) {
                Ok::<u64, Exception>(read_spec(old(self)@.mem, old(self).pc, 32))
            } else {
                Err::<u64, Exception>(Exception::LoadAccessFault(old(self).pc))
            },
    {
        self.bus.load(self.pc, 32)
    }

    /// A mutable reference to general register `id`.
    pub fn wgpr(&mut self, id: u32) -> (r: &mut u64)
        requires
            id < 32,
        ensures
            *r == old(self).regs@[id as int],
            final(self).same_setup(old(self)),
            final(self)@ == old(self)@.with_reg(id, *final(r)),
    {
        &mut self.regs[id as usize]
    }

    /// The value of general register `id`.
    pub fn rgpr(&self, id: u32) -> (r: u64)
        requires
            id < 32,
        ensures
            r == self@.regs[id as int],
    {
        self.regs[id as usize]
    }
}

/// Whether `after` and `r` are what the handler `p` leaves when it runs on
/// `before` and the instruction word `insn`: the state and `Ok(0)` that the
/// instruction's semantics give, or its fault and the state unchanged; the
/// table, the breakpoints, the run flag and the size of memory as they
/// were.
pub open spec fn runs(
    p: IsaProcessor,
    before: Cpu,
    insn: u32,
    after: Cpu,
    r: Result<u64, Exception>,
) -> bool {
    &&& after.same_setup(&before)
    &&& after@.mem.len() == before@.mem.len()
    &&& match semantics(p, before@, insn) {
        Ok(h) => r == Ok::<u64, Exception>(0) && after@ == h,
        Err(e) => r == Err::<u64, Exception>(e) && after@ == before@,
    }
}

} // verus!
