//! What the emulator answers to the requests of its callers: the state
//! change and the reply of each request, free of any transport.

use vstd::prelude::*;
use vstd::string::*;
use crate::kit::hex::{hex_spec, push_hex};
use crate::machine::bus::access_ok;
use crate::machine::cpu::{execute_spec, range_len, reg_name, word_addr, Cpu};
use crate::machine::dram::{image_spec, lemma_read_fits, read_spec};
use crate::machine::except::Exception;
use crate::machine::hart::Hart;
use crate::machine::isa::{table_view, IsaTable};
use crate::machine::param::{DRAM_BASE, DRAM_SIZE};
use crate::model::{MemoryRangePayload, MemoryValueResponse, RegisterValueResponse, StepResponse};

verus! {

/// The word that a step request executes in the state `h`: the word at the
/// program counter, or all ones where it cannot be fetched.
pub open spec fn requested_word(h: Hart) -> u32 {
    if access_ok(h.mem.len(), h.pc, 32) {
        read_spec(h.mem, h.pc, 32) as u32
    } else {
        0xffff_ffffu32
    }
}

/// The state after a step request in the state `h`: the word of the
/// request is executed and, where that succeeds, the new program counter
/// is committed. After a fault the program counter is as it was.
pub open spec fn requested_step(table: IsaTable, h: Hart) -> Hart {
    let (after, r) = execute_spec(table, h, requested_word(h));
    match r {
        Ok(pc) => after.with_pc(pc),
        Err(_) => after,
    }
}

/// A reply of one line.
pub open spec fn one_line(lines: Vec<String>, text: Seq<char>) -> bool {
    lines@.len() == 1 && lines@[0]@ == text
}

fn reply(text: &str) -> (r: Vec<String>)
    ensures
        one_line(r, text@),
{
    let mut r: Vec<String> = Vec::new();
    r.push(String::from_str(text));
    r
}

/// The memory snapshot for the range of `payload`: see
/// `Cpu::read_memory_range`.
pub fn post_memory(cpu: &Cpu, payload: &MemoryRangePayload) -> (r: Result<
    Vec<MemoryValueResponse>,
    Exception,
>)
    ensures
        match r {
            Ok(v) => {
                &&& v@.len() == range_len(payload.begin, payload.end)
                &&& forall|k: int|
                    0 <= k < v@.len() ==> {
                        &&& access_ok(
                            cpu@.mem.len(),
                            #[trigger] word_addr(payload.begin, k),
                            32,
                        )
                        &&& v@[v@.len() - 1 - k].address == payload.begin + 4 * k
                        &&& v@[v@.len() - 1 - k].word == read_spec(
                            cpu@.mem,
                            word_addr(payload.begin, k),
                            32,
                        )
                    }
            },
            Err(e) => exists|k: int|
                {
                    &&& 0 <= k < range_len(payload.begin, payload.end)
                    &&& e == Exception::LoadAccessFault(#[trigger] word_addr(payload.begin, k))
                    &&& !access_ok(cpu@.mem.len(), word_addr(payload.begin, k), 32)
                    &&& forall|j: int|
                        0 <= j < k ==> access_ok(
                            cpu@.mem.len(),
                            #[trigger] word_addr(payload.begin, j),
                            32,
                        )
                },
        },
{
    cpu.read_memory_range(payload.begin, payload.end)
}

/// The register snapshot: see `Cpu::read_registers`.
pub fn post_registers(cpu: &Cpu) -> (r: Vec<RegisterValueResponse>)
    ensures
        r@.len() == 33,
        r@[0].key@ == "pc"@,
        r@[0].value@ == "0x"@ + hex_spec(cpu.pc as nat, 16),
        forall|i: int|
            0 <= i < 32 ==> (#[trigger] r@[i + 1]).key@ == reg_name(i as u32) && r@[i
                + 1].value@ == "0x"@ + hex_spec(cpu.regs@[i] as nat, 16),
{
    cpu.read_registers()
}

/// Executes the instruction at the program counter and clears the run
/// flag. Where the instruction cannot be fetched, the word all ones is
/// executed in its place, which no definition of a new processor matches.
/// The reply holds the program counter after the step and the word
/// executed, also after a fault.
pub fn post_step(cpu: &mut Cpu) -> (r: StepResponse)
    ensures
        final(cpu)@ == requested_step(table_view(old(cpu).isa_define_map), old(cpu)@),
        !final(cpu).running,
        final(cpu).isa_define_map == old(cpu).isa_define_map,
        final(cpu).breakpoints == old(cpu).breakpoints,
        r.pc() == final(cpu).pc,
        r.insn() == requested_word(old(cpu)@),
        r.message()@ == "Instruction executed: 0x"@ + hex_spec(
            requested_word(old(cpu)@) as nat,
            8,
        ) + "."@,
{
    let insn: u32 = match cpu.fetch() {
        Ok(inst) => {
            proof {
                lemma_read_fits(cpu@.mem, cpu.pc, 32);
                vstd::arithmetic::power2::lemma2_to64();
            }
            inst as u32
        },
        Err(_) => 0xffff_ffff,
    };
    match cpu.execute(insn) {
        Ok(new_pc) => {
            cpu.pc = new_pc;
        },
        Err(_) => {},
    }
    cpu.running = false;
    let mut message = String::from_str("Instruction executed: 0x");
    push_hex(&mut message, insn as u64, 8);
    message.append(".");
    StepResponse::new(cpu.pc, insn, message)
}

/// Loads the program image `code` and starts the target: memory is
/// replaced by fresh memory that holds the image, the program counter goes
/// to the first address of memory and the run flag is set. A target that
/// is running already is left as it is.
pub fn post_run(cpu: &mut Cpu, code: Vec<u8>) -> (r: Vec<String>)
    requires
        code@.len() <= DRAM_SIZE,
    ensures
        old(cpu).running ==> *final(cpu) == *old(cpu) && one_line(
            r,
            "Target is already running."@,
        ),
        !old(cpu).running ==> {
            &&& final(cpu)@ == old(cpu)@.with_mem(image_spec(code@)).with_pc(DRAM_BASE)
            &&& final(cpu).running
            &&& final(cpu).isa_define_map == old(cpu).isa_define_map
            &&& final(cpu).breakpoints == old(cpu).breakpoints
            &&& final(cpu).wf()
            &&& one_line(r, "Target started to run."@)
        },
{
    if cpu.running {
        return reply("Target is already running.");
    }
    cpu.bus.replace(code);
    cpu.pc = DRAM_BASE;
    cpu.running = true;
    reply("Target started to run.")
}

/// Answers a stop request. The target is left as it is.
pub fn post_stop(cpu: &mut Cpu) -> (r: Vec<String>)
    ensures
        *final(cpu) == *old(cpu),
        one_line(r, "Target stopped."@),
{
    reply("Target stopped.")
}

/// Sets the program counter back to the first address of memory and clears
/// the run flag. Registers and memory are left as they are.
pub fn post_restart(cpu: &mut Cpu) -> (r: Vec<String>)
    ensures
        final(cpu)@ == old(cpu)@.with_pc(DRAM_BASE),
        !final(cpu).running,
        final(cpu).isa_define_map == old(cpu).isa_define_map,
        final(cpu).breakpoints == old(cpu).breakpoints,
        one_line(r, "Target pc reseted to 0x"@ + hex_spec(DRAM_BASE as nat, 16) + "."@),
{
    cpu.pc = DRAM_BASE;
    cpu.running = false;
    let mut message = String::from_str("Target pc reseted to 0x");
    push_hex(&mut message, DRAM_BASE, 16);
    message.append(".");
    let mut r: Vec<String> = Vec::new();
    r.push(message);
    r
}

} // verus!
