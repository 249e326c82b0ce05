use risque::machine::cpu::Cpu;
use risque::machine::except::Exception;
use risque::machine::param::{DRAM_BASE, DRAM_END};

fn image(words: &[u32]) -> Vec<u8> {
    let mut code = Vec::new();
    for w in words {
        code.extend_from_slice(&w.to_le_bytes());
    }
    code
}

fn machine(words: &[u32]) -> Cpu {
    let mut cpu = Cpu::with_registers(image(words), [0u64; 32]);
    cpu.running = true;
    cpu
}

fn r_type(funct7: u32, rs2: u32, rs1: u32, funct3: u32, rd: u32, opcode: u32) -> u32 {
    (funct7 << 25) | (rs2 << 20) | (rs1 << 15) | (funct3 << 12) | (rd << 7) | opcode
}

fn i_type(imm: i32, rs1: u32, funct3: u32, rd: u32, opcode: u32) -> u32 {
    (((imm as u32) & 0xfff) << 20) | (rs1 << 15) | (funct3 << 12) | (rd << 7) | opcode
}

fn s_type(imm: i32, rs2: u32, rs1: u32, funct3: u32) -> u32 {
    let imm = (imm as u32) & 0xfff;
    ((imm >> 5) << 25) | (rs2 << 20) | (rs1 << 15) | (funct3 << 12) | ((imm & 0x1f) << 7) | 0x23
}

fn b_type(imm: i32, rs2: u32, rs1: u32, funct3: u32) -> u32 {
    let imm = (imm as u32) & 0x1fff;
    (((imm >> 12) & 1) << 31)
        | (((imm >> 5) & 0x3f) << 25)
        | (rs2 << 20)
        | (rs1 << 15)
        | (funct3 << 12)
        | (((imm >> 1) & 0xf) << 8)
        | (((imm >> 11) & 1) << 7)
        | 0x63
}

fn u_type(imm: u32, rd: u32, opcode: u32) -> u32 {
    ((imm & 0xfffff) << 12) | (rd << 7) | opcode
}

fn j_type(imm: i32, rd: u32) -> u32 {
    let imm = (imm as u32) & 0x1f_ffff;
    (((imm >> 20) & 1) << 31)
        | (((imm >> 1) & 0x3ff) << 21)
        | (((imm >> 11) & 1) << 20)
        | (((imm >> 12) & 0xff) << 12)
        | (rd << 7)
        | 0x6f
}

/// Runs one register-register instruction on the operands `a` and `b`.
fn rr(funct7: u32, funct3: u32, opcode: u32, a: u64, b: u64) -> u64 {
    let mut cpu = machine(&[]);
    cpu.regs[5] = a;
    cpu.regs[6] = b;
    let pc = cpu.execute(r_type(funct7, 6, 5, funct3, 7, opcode)).unwrap();
    assert_eq!(pc, DRAM_BASE + 4);
    assert_eq!(cpu.regs[5], a);
    assert_eq!(cpu.regs[6], b);
    cpu.regs[7]
}

/// Runs one register-immediate instruction on the operand `a`.
fn ri(funct3: u32, a: u64, imm: i32) -> u64 {
    let mut cpu = machine(&[]);
    cpu.regs[5] = a;
    let pc = cpu.execute(i_type(imm, 5, funct3, 7, 0x13)).unwrap();
    assert_eq!(pc, DRAM_BASE + 4);
    cpu.regs[7]
}

/// Whether the branch with the given `funct3` is taken on `a` and `b`.
fn taken(funct3: u32, a: u64, b: u64) -> bool {
    let mut cpu = machine(&[]);
    cpu.regs[5] = a;
    cpu.regs[6] = b;
    let pc = cpu.execute(b_type(0x40, 6, 5, funct3)).unwrap();
    if pc == DRAM_BASE + 0x40 {
        assert_eq!(cpu.pcimm, 0);
        assert_eq!(cpu.pc, DRAM_BASE + 0x40);
        true
    } else {
        assert_eq!(pc, DRAM_BASE + 4);
        assert_eq!(cpu.pcimm, 4);
        assert_eq!(cpu.pc, DRAM_BASE);
        false
    }
}

const NEG1: u64 = u64::MAX;
const MIN: u64 = 0x8000_0000_0000_0000;

#[test]
fn addi_writes_register_and_advances_pc() {
    // addi x1, x0, 5
    let mut cpu = machine(&[0x0050_0093]);
    let (insn, pc) = cpu.step().unwrap();
    assert_eq!(insn, 0x0050_0093);
    assert_eq!(cpu.regs[1], 5);
    assert_eq!(pc, DRAM_BASE + 4);
    assert_eq!(cpu.pc, DRAM_BASE + 4);
    assert_eq!(cpu.pcimm, 4);
}

#[test]
fn jal_links_and_jumps() {
    // jal x1, 8
    assert_eq!(j_type(8, 1), 0x0080_00ef);
    let mut cpu = machine(&[0x0080_00ef]);
    let new_pc = cpu.execute(0x0080_00ef).unwrap();
    assert_eq!(cpu.regs[1], DRAM_BASE + 4);
    assert_eq!(new_pc, DRAM_BASE + 8);
    assert_eq!(cpu.pcimm, 0);
    assert_eq!(cpu.pc, DRAM_BASE + 8);

    let mut cpu = machine(&[0x0080_00ef]);
    let (insn, pc) = cpu.step().unwrap();
    assert_eq!(insn, 0x0080_00ef);
    assert_eq!(pc, DRAM_BASE + 8);
    assert_eq!(cpu.pc, DRAM_BASE + 8);
    assert_eq!(cpu.regs[1], DRAM_BASE + 4);
}

#[test]
fn jal_backwards() {
    let mut cpu = machine(&[]);
    cpu.pc = DRAM_BASE + 0x100;
    let pc = cpu.execute(j_type(-0x100, 0)).unwrap();
    assert_eq!(pc, DRAM_BASE);
    assert_eq!(cpu.regs[0], 0);
}

#[test]
fn lui_loads_upper_immediate() {
    // lui x5, 0x1
    assert_eq!(u_type(1, 5, 0x37), 0x0000_12b7);
    let mut cpu = machine(&[0x0000_12b7]);
    cpu.step().unwrap();
    assert_eq!(cpu.regs[5], 0x1000);
}

#[test]
fn lui_sign_extends_the_word() {
    let mut cpu = machine(&[]);
    cpu.execute(u_type(0x80000, 5, 0x37)).unwrap();
    assert_eq!(cpu.regs[5], 0xffff_ffff_8000_0000);
    cpu.execute(u_type(0x7ffff, 5, 0x37)).unwrap();
    assert_eq!(cpu.regs[5], 0x7fff_f000);
    cpu.execute(u_type(0xfffff, 5, 0x37)).unwrap();
    assert_eq!(cpu.regs[5], 0xffff_ffff_ffff_f000);
}

#[test]
fn auipc_adds_to_the_program_counter() {
    let mut cpu = machine(&[]);
    cpu.pc = DRAM_BASE + 0x10;
    let pc = cpu.execute(u_type(2, 5, 0x17)).unwrap();
    assert_eq!(cpu.regs[5], DRAM_BASE + 0x10 + 0x2000);
    assert_eq!(pc, DRAM_BASE + 0x14);
    cpu.execute(u_type(0xfffff, 6, 0x17)).unwrap();
    assert_eq!(cpu.regs[6], DRAM_BASE + 0x10 - 0x1000);
}

#[test]
fn jalr_jumps_to_register_plus_offset_with_bit_zero_cleared() {
    let mut cpu = machine(&[]);
    cpu.regs[5] = DRAM_BASE + 0x101;
    // jalr x1, 6(x5)
    let pc = cpu.execute(i_type(6, 5, 0, 1, 0x67)).unwrap();
    assert_eq!(pc, DRAM_BASE + 0x106);
    assert_eq!(cpu.pc, DRAM_BASE + 0x106);
    assert_eq!(cpu.pcimm, 0);
    assert_eq!(cpu.regs[1], DRAM_BASE + 4);
    // the link register may be the base register
    let mut cpu = machine(&[]);
    cpu.regs[1] = DRAM_BASE + 0x200;
    let pc = cpu.execute(i_type(-8, 1, 0, 1, 0x67)).unwrap();
    assert_eq!(pc, DRAM_BASE + 0x1f8);
    assert_eq!(cpu.regs[1], DRAM_BASE + 4);
}

#[test]
fn branch_not_taken_falls_through() {
    // bne x0, x0, 8 ; addi x10, x0, 42
    assert_eq!(b_type(8, 0, 0, 1), 0x0000_1463);
    let mut cpu = machine(&[0x0000_1463, 0x02a0_0513]);
    cpu.step().unwrap();
    assert_eq!(cpu.pcimm, 4);
    assert_eq!(cpu.pc, DRAM_BASE + 4);
    cpu.step().unwrap();
    assert_eq!(cpu.regs[10], 42);
    assert_eq!(cpu.pc, DRAM_BASE + 8);
}

#[test]
fn branch_taken_skips_the_next_instruction() {
    // beq x0, x0, 8 ; addi x10, x0, 42 ; addi x11, x0, 7
    let mut cpu = machine(&[b_type(8, 0, 0, 0), 0x02a0_0513, i_type(7, 0, 0, 11, 0x13)]);
    cpu.step().unwrap();
    assert_eq!(cpu.pc, DRAM_BASE + 8);
    cpu.step().unwrap();
    assert_eq!(cpu.regs[10], 0);
    assert_eq!(cpu.regs[11], 7);
    assert_eq!(cpu.pcimm, 4);
}

#[test]
fn the_six_branch_conditions() {
    // beq, bne
    assert!(taken(0, 5, 5));
    assert!(!taken(0, 5, 6));
    assert!(!taken(1, 5, 5));
    assert!(taken(1, 5, 6));
    // blt, bge: signed
    assert!(taken(4, NEG1, 0));
    assert!(!taken(4, 0, NEG1));
    assert!(!taken(4, 3, 3));
    assert!(taken(4, MIN, MIN + 1));
    assert!(!taken(5, NEG1, 0));
    assert!(taken(5, 0, NEG1));
    assert!(taken(5, 3, 3));
    // bltu, bgeu: unsigned
    assert!(!taken(6, NEG1, 0));
    assert!(taken(6, 0, NEG1));
    assert!(!taken(6, 3, 3));
    assert!(taken(7, NEG1, 0));
    assert!(!taken(7, 0, NEG1));
    assert!(taken(7, 3, 3));
}

#[test]
fn branch_with_negative_offset() {
    let mut cpu = machine(&[]);
    cpu.pc = DRAM_BASE + 0x20;
    let pc = cpu.execute(b_type(-0x20, 0, 0, 0)).unwrap();
    assert_eq!(pc, DRAM_BASE);
}

#[test]
fn register_immediate_arithmetic() {
    // addi
    assert_eq!(ri(0, 10, 5), 15);
    assert_eq!(ri(0, 10, -11), NEG1);
    assert_eq!(ri(0, NEG1, 1), 0);
    assert_eq!(ri(0, 0, -2048), 0xffff_ffff_ffff_f800);
    assert_eq!(ri(0, 0, 2047), 2047);
    // slti
    assert_eq!(ri(2, 4, 5), 1);
    assert_eq!(ri(2, 5, 5), 0);
    assert_eq!(ri(2, NEG1, 0), 1);
    assert_eq!(ri(2, 0, -1), 0);
    assert_eq!(ri(2, MIN, -2048), 1);
    // sltiu
    assert_eq!(ri(3, 4, 5), 1);
    assert_eq!(ri(3, NEG1, 0), 0);
    assert_eq!(ri(3, 0, -1), 1);
    assert_eq!(ri(3, NEG1, -1), 0);
    // xori, ori, andi
    assert_eq!(ri(4, 0b1100, 0b1010), 0b0110);
    assert_eq!(ri(4, 0x1234, -1), !0x1234u64);
    assert_eq!(ri(6, 0b1100, 0b1010), 0b1110);
    assert_eq!(ri(6, 0, -2048), 0xffff_ffff_ffff_f800);
    assert_eq!(ri(7, 0b1100, 0b1010), 0b1000);
    assert_eq!(ri(7, 0xdead_beef_0000_ffff, -16), 0xdead_beef_0000_fff0);
}

#[test]
fn register_register_arithmetic() {
    // add, sub
    assert_eq!(rr(0, 0, 0x33, 2, 3), 5);
    assert_eq!(rr(0, 0, 0x33, NEG1, 2), 1);
    assert_eq!(rr(0x20, 0, 0x33, 2, 3), NEG1);
    assert_eq!(rr(0x20, 0, 0x33, MIN, 1), 0x7fff_ffff_ffff_ffff);
    // or, and
    assert_eq!(rr(0, 6, 0x33, 0xf0, 0x0f), 0xff);
    assert_eq!(rr(0, 7, 0x33, 0xf0, 0x3c), 0x30);
}

#[test]
fn multiplication() {
    // mul
    assert_eq!(rr(1, 0, 0x33, 6, 7), 42);
    assert_eq!(rr(1, 0, 0x33, NEG1, NEG1), 1);
    assert_eq!(rr(1, 0, 0x33, 0x1_0000_0000, 0x1_0000_0000), 0);
    assert_eq!(rr(1, 0, 0x33, NEG1, 3), 0xffff_ffff_ffff_fffd);
    // mulhu
    assert_eq!(rr(1, 3, 0x33, 6, 7), 0);
    assert_eq!(rr(1, 3, 0x33, NEG1, NEG1), 0xffff_ffff_ffff_fffe);
    assert_eq!(rr(1, 3, 0x33, 0x1_0000_0000, 0x1_0000_0000), 1);
    assert_eq!(rr(1, 3, 0x33, MIN, 2), 1);
    // mulw
    assert_eq!(rr(1, 0, 0x3b, 6, 7), 42);
    assert_eq!(rr(1, 0, 0x3b, 0x10000, 0x8000), 0xffff_ffff_8000_0000);
    assert_eq!(rr(1, 0, 0x3b, 0x1_0000_0003, 5), 15);
    assert_eq!(rr(1, 0, 0x3b, 0xffff_ffff, 0xffff_ffff), 1);
}

#[test]
fn signed_division() {
    let m7 = (-7i64) as u64;
    let m2 = (-2i64) as u64;
    // div
    assert_eq!(rr(1, 4, 0x33, 7, 2), 3);
    assert_eq!(rr(1, 4, 0x33, m7, 2), (-3i64) as u64);
    assert_eq!(rr(1, 4, 0x33, 7, m2), (-3i64) as u64);
    assert_eq!(rr(1, 4, 0x33, m7, m2), 3);
    assert_eq!(rr(1, 4, 0x33, 0, 5), 0);
    // rem
    assert_eq!(rr(1, 6, 0x33, 7, 2), 1);
    assert_eq!(rr(1, 6, 0x33, m7, 2), NEG1);
    assert_eq!(rr(1, 6, 0x33, 7, m2), 1);
    assert_eq!(rr(1, 6, 0x33, m7, m2), NEG1);
    // the one overflow: the most negative number by -1
    assert_eq!(rr(1, 4, 0x33, MIN, NEG1), MIN);
    assert_eq!(rr(1, 6, 0x33, MIN, NEG1), 0);
}

#[test]
fn unsigned_division() {
    assert_eq!(rr(1, 5, 0x33, 7, 2), 3);
    assert_eq!(rr(1, 5, 0x33, NEG1, 2), 0x7fff_ffff_ffff_ffff);
    assert_eq!(rr(1, 5, 0x33, 1, NEG1), 0);
    assert_eq!(rr(1, 7, 0x33, 7, 2), 1);
    assert_eq!(rr(1, 7, 0x33, NEG1, 16), 15);
    assert_eq!(rr(1, 7, 0x33, 1, NEG1), 1);
}

#[test]
fn unsigned_divide_by_zero_gives_all_ones() {
    // divu x3, x1, x2
    assert_eq!(r_type(1, 2, 1, 5, 3, 0x33), 0x0220_d1b3);
    let mut cpu = machine(&[0x0220_d1b3]);
    cpu.regs[1] = 77;
    cpu.regs[2] = 0;
    let (_, pc) = cpu.step().unwrap();
    assert_eq!(cpu.regs[3], u64::MAX);
    assert_eq!(pc, DRAM_BASE + 4);
}

#[test]
fn division_by_zero_raises_no_fault() {
    // div, divu: all ones
    assert_eq!(rr(1, 4, 0x33, 77, 0), NEG1);
    assert_eq!(rr(1, 4, 0x33, (-77i64) as u64, 0), NEG1);
    assert_eq!(rr(1, 5, 0x33, 77, 0), NEG1);
    assert_eq!(rr(1, 5, 0x33, 0, 0), NEG1);
    // rem, remu: the dividend
    assert_eq!(rr(1, 6, 0x33, 77, 0), 77);
    assert_eq!(rr(1, 6, 0x33, (-77i64) as u64, 0), (-77i64) as u64);
    assert_eq!(rr(1, 7, 0x33, 77, 0), 77);
    assert_eq!(rr(1, 7, 0x33, NEG1, 0), NEG1);
    // divw, divuw: all ones
    assert_eq!(rr(1, 4, 0x3b, 77, 0), NEG1);
    assert_eq!(rr(1, 5, 0x3b, 77, 0), NEG1);
    // a divisor whose low half is zero counts as zero
    assert_eq!(rr(1, 4, 0x3b, 77, 0x5_0000_0000), NEG1);
    assert_eq!(rr(1, 5, 0x3b, 77, 0x5_0000_0000), NEG1);
    // remw, remuw: the low half of the dividend, sign extended
    assert_eq!(rr(1, 6, 0x3b, 77, 0), 77);
    assert_eq!(rr(1, 6, 0x3b, 0x1_8000_0001, 0), 0xffff_ffff_8000_0001);
    assert_eq!(rr(1, 7, 0x3b, 77, 0), 77);
    assert_eq!(rr(1, 7, 0x3b, 0x1_8000_0001, 0), 0xffff_ffff_8000_0001);
}

#[test]
fn word_division() {
    let m7 = (-7i64) as u64;
    // divw
    assert_eq!(rr(1, 4, 0x3b, 7, 2), 3);
    assert_eq!(rr(1, 4, 0x3b, m7, 2), (-3i64) as u64);
    assert_eq!(rr(1, 4, 0x3b, 0xffff_fff9, 2), (-3i64) as u64);
    assert_eq!(rr(1, 4, 0x3b, 0x7_0000_0007, 0x9_0000_0002), 3);
    assert_eq!(rr(1, 4, 0x3b, 0x8000_0000, 0xffff_ffff), 0xffff_ffff_8000_0000);
    // divuw
    assert_eq!(rr(1, 5, 0x3b, 0xffff_fff9, 2), 0x7fff_fffc);
    assert_eq!(rr(1, 5, 0x3b, 0xffff_ffff, 1), NEG1);
    assert_eq!(rr(1, 5, 0x3b, 0x7_0000_0007, 0x9_0000_0002), 3);
    // remw
    assert_eq!(rr(1, 6, 0x3b, m7, 2), NEG1);
    assert_eq!(rr(1, 6, 0x3b, 7, (-2i64) as u64), 1);
    assert_eq!(rr(1, 6, 0x3b, 0x8000_0000, 0xffff_ffff), 0);
    // remuw
    assert_eq!(rr(1, 7, 0x3b, 0xffff_fff9, 16), 9);
    assert_eq!(rr(1, 7, 0x3b, 0xffff_ffff, 0x1_0000_0000 - 0x8000_0000), 0x7fff_ffff);
    assert_eq!(rr(1, 7, 0x3b, 0x1_8000_0001, 0xffff_ffff), 0xffff_ffff_8000_0001);
}

#[test]
fn loads_extend_by_sign_or_by_zero() {
    let data: u64 = 0x8877_6655_c433_a281;
    let mut code = vec![0u8; 16];
    code[8..16].copy_from_slice(&data.to_le_bytes());
    let load = |funct3: u32| -> u64 {
        let mut cpu = Cpu::with_registers(code.clone(), [0u64; 32]);
        cpu.regs[5] = DRAM_BASE + 12;
        let pc = cpu.execute(i_type(-4, 5, funct3, 7, 0x03)).unwrap();
        assert_eq!(pc, DRAM_BASE + 4);
        cpu.regs[7]
    };
    assert_eq!(load(0), 0xffff_ffff_ffff_ff81); // lb
    assert_eq!(load(1), 0xffff_ffff_ffff_a281); // lh
    assert_eq!(load(2), 0xffff_ffff_c433_a281); // lw
    assert_eq!(load(3), data); // ld
    assert_eq!(load(4), 0x81); // lbu
    assert_eq!(load(5), 0xa281); // lhu
    assert_eq!(load(6), 0xc433_a281); // lwu

    let positive: u64 = 0x0000_0000_7f33_2211;
    code[8..16].copy_from_slice(&positive.to_le_bytes());
    let load = |funct3: u32| -> u64 {
        let mut cpu = Cpu::with_registers(code.clone(), [0u64; 32]);
        cpu.regs[5] = DRAM_BASE + 8;
        cpu.execute(i_type(0, 5, funct3, 7, 0x03)).unwrap();
        cpu.regs[7]
    };
    assert_eq!(load(0), 0x11);
    assert_eq!(load(1), 0x2211);
    assert_eq!(load(2), 0x7f33_2211);
}

#[test]
fn stores_write_the_low_bits_of_the_source() {
    let value: u64 = 0x1122_3344_5566_7788;
    let store = |funct3: u32| -> u64 {
        let mut cpu = machine(&[]);
        cpu.regs[5] = DRAM_BASE + 0x108;
        cpu.regs[6] = value;
        let pc = cpu.execute(s_type(-8, 6, 5, funct3)).unwrap();
        assert_eq!(pc, DRAM_BASE + 4);
        assert_eq!(cpu.load(DRAM_BASE + 0x108, 64), Ok(0));
        cpu.load(DRAM_BASE + 0x100, 64).unwrap()
    };
    assert_eq!(store(0), 0x88); // sb
    assert_eq!(store(1), 0x7788); // sh
    assert_eq!(store(2), 0x5566_7788); // sw
    assert_eq!(store(3), value); // sd
}

#[test]
fn store_then_load_through_instructions() {
    // sd x6, 0(x5) ; lw x7, 4(x5)
    let mut cpu = machine(&[s_type(0, 6, 5, 3), i_type(4, 5, 2, 7, 0x03)]);
    cpu.regs[5] = DRAM_BASE + 0x40;
    cpu.regs[6] = 0x8123_4567_89ab_cdef;
    cpu.step().unwrap();
    cpu.step().unwrap();
    assert_eq!(cpu.regs[7], 0xffff_ffff_8123_4567);
    assert_eq!(cpu.pc, DRAM_BASE + 8);
}

#[test]
fn register_zero_stays_zero() {
    // addi x0, x0, 5
    let mut cpu = machine(&[i_type(5, 0, 0, 0, 0x13)]);
    cpu.step().unwrap();
    assert_eq!(cpu.regs[0], 0);
    // jal x0, 8
    cpu.execute(j_type(8, 0)).unwrap();
    assert_eq!(cpu.regs[0], 0);
    // lui x0, 0xfffff
    cpu.execute(u_type(0xfffff, 0, 0x37)).unwrap();
    assert_eq!(cpu.regs[0], 0);
    // a stray value in register 0 is cleared before the handler reads it
    cpu.regs[0] = 99;
    cpu.execute(i_type(1, 0, 0, 5, 0x13)).unwrap();
    assert_eq!(cpu.regs[5], 1);
    assert_eq!(cpu.regs[0], 0);
    // and also where the word is refused
    cpu.regs[0] = 99;
    assert!(cpu.execute(0).is_err());
    assert_eq!(cpu.regs[0], 0);
}

#[test]
fn zero_word_is_illegal() {
    let mut cpu = machine(&[0]);
    assert_eq!(cpu.step(), Err(Exception::IllegalInstruction(0)));
    assert_eq!(cpu.pc, DRAM_BASE);
    assert_eq!(cpu.pcimm, 4);
}

#[test]
fn words_without_a_definition_are_illegal() {
    let mut cpu = machine(&[]);
    let words: [u32; 8] = [
        0x0000_0000,
        0xffff_ffff,
        0x0000_0080,         // opcode field zero, other bits set
        0x0000_007f,         // an opcode without definitions
        0x0000_100f,         // fence.i
        0x0010_0073,         // ebreak
        0x0050_1093,         // slli: opcode 0x13, funct3 1
        0x8000_0033,         // opcode 0x33 with an unknown funct7
    ];
    for w in words {
        assert_eq!(cpu.execute(w), Err(Exception::IllegalInstruction(w)));
        assert_eq!(cpu.pc, DRAM_BASE);
    }
}

#[test]
fn a_faulting_load_leaves_registers_and_pc() {
    // ld x7, 0(x5)
    let mut cpu = machine(&[i_type(0, 5, 3, 7, 0x03)]);
    cpu.regs[5] = 0x1000;
    cpu.regs[7] = 1234;
    assert_eq!(cpu.step(), Err(Exception::LoadAccessFault(0x1000)));
    assert_eq!(cpu.regs[7], 1234);
    assert_eq!(cpu.pc, DRAM_BASE);
    // the address wraps around
    cpu.regs[5] = 3;
    assert_eq!(
        cpu.execute(i_type(-4, 5, 0, 7, 0x03)),
        Err(Exception::LoadAccessFault(u64::MAX))
    );
    // a span that leaves memory
    cpu.regs[5] = DRAM_END;
    assert_eq!(
        cpu.execute(i_type(-2, 5, 2, 7, 0x03)),
        Err(Exception::LoadAccessFault(DRAM_END - 2))
    );
    assert_eq!(cpu.regs[7], 1234);
}

#[test]
fn a_faulting_store_leaves_memory_and_pc() {
    // sd x6, 0(x5)
    let mut cpu = machine(&[s_type(0, 6, 5, 3)]);
    cpu.regs[5] = DRAM_END - 3;
    cpu.regs[6] = u64::MAX;
    assert_eq!(cpu.step(), Err(Exception::StoreAMOAccessFault(DRAM_END - 3)));
    assert_eq!(cpu.pc, DRAM_BASE);
    assert_eq!(cpu.load(DRAM_END - 3, 32), Ok(0));
    cpu.regs[5] = 0;
    assert_eq!(
        cpu.execute(s_type(0, 6, 5, 0)),
        Err(Exception::StoreAMOAccessFault(0))
    );
}

#[test]
fn a_faulting_fetch_leaves_everything() {
    let mut cpu = machine(&[0x0050_0093]);
    cpu.pc = 0x10;
    cpu.regs[0] = 5;
    cpu.pcimm = 0;
    assert_eq!(cpu.fetch(), Err(Exception::LoadAccessFault(0x10)));
    assert_eq!(cpu.step(), Err(Exception::LoadAccessFault(0x10)));
    assert_eq!(cpu.pc, 0x10);
    assert_eq!(cpu.pcimm, 0);
    assert_eq!(cpu.regs[0], 5);
    cpu.pc = DRAM_END - 2;
    assert_eq!(cpu.step(), Err(Exception::LoadAccessFault(DRAM_END - 2)));
}

#[test]
fn fetch_reads_the_word_at_the_program_counter() {
    let mut cpu = machine(&[0x0050_0093, 0xdead_beef]);
    assert_eq!(cpu.fetch(), Ok(0x0050_0093));
    cpu.pc = DRAM_BASE + 4;
    assert_eq!(cpu.fetch(), Ok(0xdead_beef));
    cpu.pc = DRAM_BASE + 8;
    assert_eq!(cpu.fetch(), Ok(0));
}

#[test]
fn registers_are_read_and_written_by_index() {
    let mut cpu = machine(&[]);
    *cpu.wgpr(31) = 0xabcd;
    *cpu.wgpr(1) += 2;
    assert_eq!(cpu.rgpr(31), 0xabcd);
    assert_eq!(cpu.rgpr(1), 2);
    assert_eq!(cpu.rgpr(30), 0);
    assert_eq!(cpu.regs[31], 0xabcd);
}

#[test]
fn cpu_load_and_store_go_through_the_bus() {
    let mut cpu = machine(&[0x0403_0201]);
    assert_eq!(cpu.load(DRAM_BASE, 16), Ok(0x0201));
    assert_eq!(cpu.store(DRAM_BASE + 2, 16, 0xbbaa), Ok(()));
    assert_eq!(cpu.load(DRAM_BASE, 32), Ok(0xbbaa_0201));
    assert_eq!(cpu.load(DRAM_BASE - 4, 32), Err(Exception::LoadAccessFault(DRAM_BASE - 4)));
    assert_eq!(
        cpu.store(DRAM_END + 1, 8, 1),
        Err(Exception::StoreAMOAccessFault(DRAM_END + 1))
    );
    assert_eq!(cpu.load(DRAM_BASE, 5), Err(Exception::LoadAccessFault(DRAM_BASE)));
}

#[test]
fn reset_with_given_registers() {
    let mut seeds = [0u64; 32];
    for i in 0..32 {
        seeds[i] = 100 + i as u64;
    }
    let cpu = Cpu::with_registers(vec![1, 2, 3, 4], seeds);
    assert_eq!(cpu.regs[0], 0);
    assert_eq!(cpu.regs[1], 101);
    assert_eq!(cpu.regs[2], DRAM_END);
    assert_eq!(cpu.regs[3], 103);
    assert_eq!(cpu.regs[31], 131);
    assert_eq!(cpu.pc, DRAM_BASE);
    assert_eq!(cpu.pcimm, 4);
    assert!(!cpu.running);
    assert!(cpu.breakpoints.is_empty());
    assert_eq!(cpu.bus.load(DRAM_BASE, 64), Ok(0x0403_0201));
}

#[test]
fn new_sets_zero_and_stack_pointer() {
    let cpu = Cpu::new(vec![0x93, 0x00, 0x50, 0x00]);
    assert_eq!(cpu.regs[0], 0);
    assert_eq!(cpu.regs[2], DRAM_END);
    assert_eq!(cpu.pc, DRAM_BASE);
    assert_eq!(cpu.pcimm, 4);
    assert!(!cpu.running);
    assert!(cpu.breakpoints.is_empty());
    assert_eq!(cpu.bus.load(DRAM_BASE, 32), Ok(0x0050_0093));
    assert_eq!(cpu.bus.load(DRAM_BASE + 4, 64), Ok(0));
}

#[test]
fn new_seeds_the_other_registers() {
    // 29 random 64-bit values are all zero, or all the same in two
    // processors, with a probability that can be ignored
    let a = Cpu::new(Vec::new());
    let b = Cpu::new(Vec::new());
    assert!(a.regs.iter().any(|&r| r != 0 && r != DRAM_END));
    assert_ne!(a.regs, b.regs);
}

#[test]
fn the_table_of_a_new_processor_has_ten_opcodes() {
    let cpu = Cpu::new(Vec::new());
    let mut opcodes: Vec<u32> = cpu.isa_define_map.keys().copied().collect();
    opcodes.sort();
    assert_eq!(
        opcodes,
        vec![0x03, 0x13, 0x17, 0x23, 0x33, 0x37, 0x3b, 0x63, 0x67, 0x6f]
    );
    let names: Vec<&str> = cpu.isa_define_map[&0x33].iter().map(|d| d.mnemonic).collect();
    assert_eq!(
        names,
        vec!["add", "sub", "or", "and", "mul", "mulhu", "div", "divu", "rem", "remu"]
    );
    let names: Vec<&str> = cpu.isa_define_map[&0x63].iter().map(|d| d.mnemonic).collect();
    assert_eq!(names, vec!["beq", "bne", "blt", "bge", "bltu", "bgeu"]);
    let total: usize = cpu.isa_define_map.values().map(|v| v.len()).sum();
    assert_eq!(total, 42);
}

#[test]
fn a_small_program_runs_to_its_end() {
    // sum the numbers 1..=10 in x10
    let program = [
        i_type(10, 0, 0, 5, 0x13),         // addi x5, x0, 10
        i_type(0, 0, 0, 10, 0x13),         // addi x10, x0, 0
        r_type(0, 5, 10, 0, 10, 0x33),     // add x10, x10, x5
        i_type(-1, 5, 0, 5, 0x13),         // addi x5, x5, -1
        b_type(-8, 0, 5, 1),               // bne x5, x0, -8
        s_type(-7, 10, 2, 3),              // sd x10, -7(x2)
    ];
    let mut cpu = machine(&program);
    let mut steps = 0;
    while cpu.pc != DRAM_BASE + 4 * program.len() as u64 {
        cpu.step().unwrap();
        steps += 1;
        assert!(steps < 100);
    }
    assert_eq!(cpu.regs[10], 55);
    assert_eq!(steps, 2 + 3 * 10 + 1);
    assert_eq!(cpu.load(DRAM_END - 7, 64), Ok(55));
}
