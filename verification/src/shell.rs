//! Disassembly of a flat binary image.

use vstd::prelude::*;
use vstd::string::*;
use crate::machine::bus::access_ok;
use crate::machine::cpu::{explain_spec, Cpu};
use crate::machine::dram::{image_spec, lemma_read_fits, read_spec};
use crate::machine::isa::{table_view, IsaTable};
use crate::machine::param::{DRAM_BASE, DRAM_SIZE};
use crate::machine::standard::standard_table;

verus! {

/// The address of the instruction number `i` of an image.
pub open spec fn insn_addr(i: int) -> u64 {
    (DRAM_BASE + 4 * i) as u64
}

/// The listing of the first `count` instruction words of the memory `mem`:
/// for each word, in the order of the addresses, the line that describes
/// it and a line feed.
pub open spec fn listing(table: IsaTable, mem: Seq<u8>, count: nat) -> Seq<char>
    decreases count,
{
    if count == 0 {
        Seq::empty()
    } else {
        listing(table, mem, (count - 1) as nat) + explain_spec(
            table,
            insn_addr(count - 1),
            read_spec(mem, insn_addr(count - 1), 32) as u32,
        ) + "\n"@
    }
}

/// Disassembles the program image `code`: one line for each complete
/// 4-byte word, as the instruction table of a new processor describes it.
pub fn decompile(code: Vec<u8>) -> (r: String)
    requires
        code@.len() <= DRAM_SIZE,
    ensures
        r@ == listing(standard_table(), image_spec(code@), (code@.len() / 4) as nat),
{
    let n: usize = code.len() / 4;
    let ghost mem = image_spec(code@);
    let mut cpu = Cpu::with_registers(code, [0u64; 32]);
    let mut ret = String::new();
    let mut i: usize = 0;
    assert(ret@ =~= listing(standard_table(), mem, 0));
    while i < n
        invariant
            i <= n,
            4 * n <= DRAM_SIZE,
            cpu@.mem == mem,
            mem.len() == DRAM_SIZE,
            cpu.pc == insn_addr(i as int),
            table_view(cpu.isa_define_map) == standard_table(),
            ret@ == listing(standard_table(), mem, i as nat),
        decreases n - i,
    {
        assert(access_ok(mem.len(), cpu.pc, 32));
        match cpu.fetch() {
            Ok(inst) => {
                proof {
                    lemma_read_fits(mem, cpu.pc, 32);
                    vstd::arithmetic::power2::lemma2_to64();
                }
                let line = cpu.explain(inst as u32);
                ret.append(line.as_str());
                ret.append("\n");
            },
            Err(_) => {},
        }
        cpu.pc += 4;
        i += 1;
    }
    ret
}

} // verus!
