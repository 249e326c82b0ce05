use risque::kit::hex::{hex, push_hex};
use risque::machine::cpu::Cpu;
use risque::machine::except::Exception;
use risque::machine::param::{ABINAME, DRAM_BASE, DRAM_END};
use risque::shell::decompile;

fn image(words: &[u32]) -> Vec<u8> {
    let mut code = Vec::new();
    for w in words {
        code.extend_from_slice(&w.to_le_bytes());
    }
    code
}

fn machine(words: &[u32]) -> Cpu {
    Cpu::with_registers(image(words), [0u64; 32])
}

#[test]
fn hex_pads_with_zeros_up_to_the_width() {
    assert_eq!(hex(0, 0), "0");
    assert_eq!(hex(0, 1), "0");
    assert_eq!(hex(0, 4), "0000");
    assert_eq!(hex(0xa, 1), "a");
    assert_eq!(hex(0xabc, 3), "abc");
    assert_eq!(hex(0xabc, 2), "abc");
    assert_eq!(hex(0xabc, 5), "00abc");
    assert_eq!(hex(0x1234_5678_9abc_def0, 16), "123456789abcdef0");
    assert_eq!(hex(u64::MAX, 1), "ffffffffffffffff");
    assert_eq!(hex(1, 20), "00000000000000000001");
    assert_eq!(hex(0x10, 0), "10");
}

#[test]
fn hex_agrees_with_the_standard_formatter() {
    let values: [u64; 7] = [0, 9, 10, 15, 16, 0xdead_beef, u64::MAX - 1];
    for v in values {
        assert_eq!(hex(v, 1), format!("{:x}", v));
        assert_eq!(hex(v, 3), format!("{:03x}", v));
        assert_eq!(hex(v, 8), format!("{:08x}", v));
        assert_eq!(hex(v, 12), format!("{:012x}", v));
        assert_eq!(hex(v, 16), format!("{:016x}", v));
    }
}

#[test]
fn push_hex_appends() {
    let mut s = String::from("0x");
    push_hex(&mut s, 0x2a, 4);
    assert_eq!(s, "0x002a");
    push_hex(&mut s, 0, 0);
    assert_eq!(s, "0x002a0");
}

#[test]
fn register_names_follow_the_calling_convention() {
    assert_eq!(ABINAME.len(), 32);
    assert_eq!(ABINAME[0], "zero");
    assert_eq!(ABINAME[1], "ra");
    assert_eq!(ABINAME[2], "sp");
    assert_eq!(ABINAME[8], "s0");
    assert_eq!(ABINAME[10], "a0");
    assert_eq!(ABINAME[17], "a7");
    assert_eq!(ABINAME[18], "s2");
    assert_eq!(ABINAME[27], "s11");
    assert_eq!(ABINAME[28], "t3");
    assert_eq!(ABINAME[31], "t6");
}

#[test]
fn explain_by_encoding_class() {
    let cpu = machine(&[]);
    // lui x5, 0x1
    assert_eq!(cpu.explain(0x0000_12b7), "000080000000: lui\tt0, 0x00001");
    // auipc x10, 0xfffff
    assert_eq!(cpu.explain(0xffff_f517), "000080000000: auipc\ta0, 0xfffff");
    // addi x1, x0, 5
    assert_eq!(cpu.explain(0x0050_0093), "000080000000: addi\tra, zero, 0x005");
    // lw x5, -4(x2)
    assert_eq!(cpu.explain(0xffc1_2283), "000080000000: lw\tt0, 0xffc(sp)");
    // jalr x1, 6(x5)
    assert_eq!(cpu.explain(0x0062_80e7), "000080000000: jalr\tra, 0x6(t0)");
    // sw x5, 8(x2)
    assert_eq!(cpu.explain(0x0051_2423), "000080000000: sw\tsp, 0x8(t0)");
    // bne x0, x0, 8
    assert_eq!(
        cpu.explain(0x0000_1463),
        "000080000000: bne\tzero, zero, 0x8 -> 0x80000008"
    );
    // beq x1, x2, -4
    assert_eq!(
        cpu.explain(0xfe20_8ee3),
        "000080000000: beq\tra, sp, 0x1ffc -> 0x7ffffffc"
    );
    // sub x3, x1, x2
    assert_eq!(cpu.explain(0x4020_81b3), "000080000000: sub\tgp, ra, sp");
    // divu x3, x1, x2
    assert_eq!(cpu.explain(0x0220_d1b3), "000080000000: divu\tgp, ra, sp");
    // jal x1, 8
    assert_eq!(cpu.explain(0x0080_00ef), "000080000000: jal\tra, 0x8 -> 0x80000008");
    // jal x0, -4
    assert_eq!(
        cpu.explain(0xffdf_f06f),
        "000080000000: jal\tzero, 0x1ffffc -> 0x7ffffffc"
    );
}

#[test]
fn explain_of_an_unknown_word() {
    let cpu = machine(&[]);
    assert_eq!(cpu.explain(0), "000080000000: ?\t\t0x00000000");
    assert_eq!(cpu.explain(0xffff_ffff), "000080000000: ?\t\t0xffffffff");
    assert_eq!(cpu.explain(0x0050_1093), "000080000000: ?\t\t0x00501093");
}

#[test]
fn explain_uses_the_program_counter_and_changes_nothing() {
    let mut cpu = machine(&[]);
    cpu.pc = 0x1234_5678_9abc;
    cpu.regs[1] = 17;
    assert_eq!(cpu.explain(0x0050_0093), "123456789abc: addi\tra, zero, 0x005");
    assert_eq!(
        cpu.explain(0x0080_00ef),
        "123456789abc: jal\tra, 0x8 -> 0x123456789ac4"
    );
    cpu.pc = u64::MAX - 3;
    assert_eq!(
        cpu.explain(0x0080_00ef),
        "fffffffffffffffc: jal\tra, 0x8 -> 0x4"
    );
    assert_eq!(cpu.pc, u64::MAX - 3);
    assert_eq!(cpu.regs[1], 17);
    assert_eq!(cpu.pcimm, 4);
}

#[test]
fn explain_names_what_execute_runs() {
    // the target that is shown is the target that is taken
    let mut cpu = machine(&[]);
    cpu.pc = DRAM_BASE + 0x40;
    cpu.regs[1] = cpu.regs[2];
    let text = cpu.explain(0xfe20_8ee3);
    assert_eq!(text, "000080000040: beq\tra, sp, 0x1ffc -> 0x8000003c");
    let pc = cpu.execute(0xfe20_8ee3).unwrap();
    assert_eq!(pc, DRAM_BASE + 0x3c);
}

#[test]
fn registers_snapshot() {
    let mut cpu = machine(&[]);
    cpu.regs[1] = 0xdead_beef;
    cpu.regs[31] = u64::MAX;
    cpu.pc = DRAM_BASE + 8;
    let regs = cpu.read_registers();
    assert_eq!(regs.len(), 33);
    assert_eq!(regs[0].key, "pc");
    assert_eq!(regs[0].value, "0x0000000080000008");
    assert_eq!(regs[1].key, "zero");
    assert_eq!(regs[1].value, "0x0000000000000000");
    assert_eq!(regs[2].key, "ra");
    assert_eq!(regs[2].value, "0x00000000deadbeef");
    assert_eq!(regs[3].key, "sp");
    assert_eq!(regs[3].value, "0x0000000087ffffff");
    assert_eq!(regs[32].key, "t6");
    assert_eq!(regs[32].value, "0xffffffffffffffff");
    for i in 0..32 {
        assert_eq!(regs[i + 1].key, ABINAME[i]);
        assert_eq!(regs[i + 1].value, format!("0x{:016x}", cpu.regs[i]));
    }
}

#[test]
fn memory_snapshot_is_highest_address_first() {
    let cpu = machine(&[0x11, 0x22, 0x33, 0x44]);
    let words = cpu.read_memory_range(DRAM_BASE, DRAM_BASE + 12).unwrap();
    let got: Vec<(u64, u32)> = words.iter().map(|w| (w.address, w.word)).collect();
    assert_eq!(
        got,
        vec![
            (DRAM_BASE + 12, 0x44),
            (DRAM_BASE + 8, 0x33),
            (DRAM_BASE + 4, 0x22),
            (DRAM_BASE, 0x11),
        ]
    );
    // the end is inclusive, and the steps start at `begin`
    let words = cpu.read_memory_range(DRAM_BASE + 4, DRAM_BASE + 11).unwrap();
    let got: Vec<(u64, u32)> = words.iter().map(|w| (w.address, w.word)).collect();
    assert_eq!(got, vec![(DRAM_BASE + 8, 0x33), (DRAM_BASE + 4, 0x22)]);
    let words = cpu.read_memory_range(DRAM_BASE + 2, DRAM_BASE + 2).unwrap();
    let got: Vec<(u64, u32)> = words.iter().map(|w| (w.address, w.word)).collect();
    assert_eq!(got, vec![(DRAM_BASE + 2, 0x0022_0000)]);
    // an empty range
    assert!(cpu.read_memory_range(DRAM_BASE + 8, DRAM_BASE).unwrap().is_empty());
    assert!(cpu.read_memory_range(8, 0).unwrap().is_empty());
}

#[test]
fn memory_snapshot_fails_as_a_whole() {
    let cpu = machine(&[]);
    assert_eq!(
        cpu.read_memory_range(DRAM_BASE - 8, DRAM_BASE + 8).err(),
        Some(Exception::LoadAccessFault(DRAM_BASE - 8))
    );
    assert_eq!(
        cpu.read_memory_range(DRAM_END - 11, DRAM_END + 100).err(),
        Some(Exception::LoadAccessFault(DRAM_END + 1))
    );
    assert_eq!(
        cpu.read_memory_range(0, u64::MAX).err(),
        Some(Exception::LoadAccessFault(0))
    );
    assert_eq!(
        cpu.read_memory_range(u64::MAX, u64::MAX).err(),
        Some(Exception::LoadAccessFault(u64::MAX))
    );
    assert_eq!(
        cpu.read_memory_range(DRAM_END - 9, DRAM_END).err(),
        Some(Exception::LoadAccessFault(DRAM_END - 1))
    );
    // the last whole word of memory can be read
    let words = cpu.read_memory_range(DRAM_END - 3, DRAM_END).unwrap();
    assert_eq!(words.len(), 1);
    assert_eq!(words[0].address, DRAM_END - 3);
}

#[test]
fn decompile_lists_each_whole_word() {
    // addi x1, x0, 5 ; jal x1, 8 ; an unknown word ; two bytes more
    let mut code = image(&[0x0050_0093, 0x0080_00ef, 0xffff_ffff]);
    code.push(0x13);
    code.push(0x00);
    assert_eq!(
        decompile(code),
        "000080000000: addi\tra, zero, 0x005\n\
         000080000004: jal\tra, 0x8 -> 0x8000000c\n\
         000080000008: ?\t\t0xffffffff\n"
    );
    assert_eq!(decompile(Vec::new()), "");
    assert_eq!(decompile(vec![1, 2, 3]), "");
}
