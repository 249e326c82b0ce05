//! The base integer instructions: their definitions and their handlers.

use vstd::prelude::*;
use vstd::arithmetic::power2::lemma2_to64;
use std::collections::HashMap;
use super::alu::{offset, signed_lt, simm, upper};
use super::cpu::{runs, Cpu};
use super::dram::lemma_read_fits;
use super::except::Exception;
use super::isa::{
    install,
    install_all,
    lemma_install_all_push,
    table_view,
    IsaDefine,
    IsaProcessor,
};
use crate::kit::bits::{lemma_sext_value, lemma_zext_value, sext, zext};
use crate::kit::insn::{BType, IType, InsnType, JType, RType, SType, UType};

verus! {

/// Load upper immediate: the destination gets the 20-bit field above
/// twelve zero bits, as a signed 32-bit number.
pub fn exec_lui(cpu: &mut Cpu, insn: u32) -> (r: Result<u64, Exception>)
    ensures
        runs(IsaProcessor::Lui, *old(cpu), insn, *final(cpu), r),
{
    let u = UType::decode(insn);
    *cpu.wgpr(u.rd) = upper(u.imm);
    Ok(0)
}

/// Add upper immediate to pc: the destination gets the program counter
/// plus the value that `lui` would load.
pub fn exec_auipc(cpu: &mut Cpu, insn: u32) -> (r: Result<u64, Exception>)
    ensures
        runs(IsaProcessor::Auipc, *old(cpu), insn, *final(cpu), r),
{
    let u = UType::decode(insn);
    let pc: u64 = cpu.pc;
    *cpu.wgpr(u.rd) = pc.wrapping_add(upper(u.imm));
    Ok(0)
}

/// Jump and link: the destination gets the address of the next
/// instruction, and control goes to the program counter plus the signed
/// 21-bit offset.
pub fn exec_jal(cpu: &mut Cpu, insn: u32) -> (r: Result<u64, Exception>)
    ensures
        runs(IsaProcessor::Jal, *old(cpu), insn, *final(cpu), r),
{
    let j = JType::decode(insn);
    let pc: u64 = cpu.pc;
    proof {
        lemma2_to64();
    }
    *cpu.wgpr(j.rd) = pc.wrapping_add(4);
    cpu.pc = offset(pc, j.imm, 21);
    cpu.pcimm = 0;
    Ok(0)
}

/// Jump and link register: control goes to the first source register plus
/// the signed 12-bit offset, with its lowest bit cleared; the destination
/// gets the address of the next instruction.
pub fn exec_jalr(cpu: &mut Cpu, insn: u32) -> (r: Result<u64, Exception>)
    ensures
        runs(IsaProcessor::Jalr, *old(cpu), insn, *final(cpu), r),
{
    let i = IType::decode(insn);
    proof {
        lemma2_to64();
    }
    let t: u64 = cpu.pc.wrapping_add(4);
    cpu.pc = offset(cpu.rgpr(i.rs1), i.imm, 12) & !1u64;
    cpu.pcimm = 0;
    *cpu.wgpr(i.rd) = t;
    Ok(0)
}

/// Branch if the two source registers are equal.
pub fn exec_beq(cpu: &mut Cpu, insn: u32) -> (r: Result<u64, Exception>)
    ensures
        runs(IsaProcessor::Beq, *old(cpu), insn, *final(cpu), r),
{
    let b = BType::decode(insn);
    proof {
        lemma2_to64();
    }
    if cpu.rgpr(b.rs1) == cpu.rgpr(b.rs2) {
        cpu.pc = offset(cpu.pc, b.imm, 13);
        cpu.pcimm = 0;
    }
    Ok(0)
}

/// Branch if the two source registers differ.
pub fn exec_bne(cpu: &mut Cpu, insn: u32) -> (r: Result<u64, Exception>)
    ensures
        runs(IsaProcessor::Bne, *old(cpu), insn, *final(cpu), r),
{
    let b = BType::decode(insn);
    proof {
        lemma2_to64();
    }
    if cpu.rgpr(b.rs1) != cpu.rgpr(b.rs2) {
        cpu.pc = offset(cpu.pc, b.imm, 13);
        cpu.pcimm = 0;
    }
    Ok(0)
}

/// Branch if the first source register is below the second, both read as
/// signed integers.
pub fn exec_blt(cpu: &mut Cpu, insn: u32) -> (r: Result<u64, Exception>)
    ensures
        runs(IsaProcessor::Blt, *old(cpu), insn, *final(cpu), r),
{
    let b = BType::decode(insn);
    proof {
        lemma2_to64();
    }
    if signed_lt(cpu.rgpr(b.rs1), cpu.rgpr(b.rs2)) {
        cpu.pc = offset(cpu.pc, b.imm, 13);
        cpu.pcimm = 0;
    }
    Ok(0)
}

/// Branch if the first source register is not below the second, both read
/// as signed integers.
pub fn exec_bge(cpu: &mut Cpu, insn: u32) -> (r: Result<u64, Exception>)
    ensures
        runs(IsaProcessor::Bge, *old(cpu), insn, *final(cpu), r),
{
    let b = BType::decode(insn);
    proof {
        lemma2_to64();
    }
    if !signed_lt(cpu.rgpr(b.rs1), cpu.rgpr(b.rs2)) {
        cpu.pc = offset(cpu.pc, b.imm, 13);
        cpu.pcimm = 0;
    }
    Ok(0)
}

/// Branch if the first source register is below the second, both read as
/// unsigned integers.
pub fn exec_bltu(cpu: &mut Cpu, insn: u32) -> (r: Result<u64, Exception>)
    ensures
        runs(IsaProcessor::Bltu, *old(cpu), insn, *final(cpu), r),
{
    let b = BType::decode(insn);
    proof {
        lemma2_to64();
    }
    if cpu.rgpr(b.rs1) < cpu.rgpr(b.rs2) {
        cpu.pc = offset(cpu.pc, b.imm, 13);
        cpu.pcimm = 0;
    }
    Ok(0)
}

/// Branch if the first source register is not below the second, both read
/// as unsigned integers.
pub fn exec_bgeu(cpu: &mut Cpu, insn: u32) -> (r: Result<u64, Exception>)
    ensures
        runs(IsaProcessor::Bgeu, *old(cpu), insn, *final(cpu), r),
{
    let b = BType::decode(insn);
    proof {
        lemma2_to64();
    }
    if cpu.rgpr(b.rs1) >= cpu.rgpr(b.rs2) {
        cpu.pc = offset(cpu.pc, b.imm, 13);
        cpu.pcimm = 0;
    }
    Ok(0)
}

/// Load byte: 8 bits, sign extended.
pub fn exec_lb(cpu: &mut Cpu, insn: u32) -> (r: Result<u64, Exception>)
    ensures
        runs(IsaProcessor::Lb, *old(cpu), insn, *final(cpu), r),
{
    let i = IType::decode(insn);
    proof {
        lemma2_to64();
    }
    let addr: u64 = offset(cpu.rgpr(i.rs1), i.imm, 12);
    match cpu.load(addr, 8) {
        Ok(v) => {
            proof {
                lemma_read_fits(cpu@.mem, addr, 8);
                lemma_sext_value(v, 8);
            }
            *cpu.wgpr(i.rd) = sext(v, 8);
            Ok(0)
        },
        Err(e) => Err(e),
    }
}

/// Load halfword: 16 bits, sign extended.
pub fn exec_lh(cpu: &mut Cpu, insn: u32) -> (r: Result<u64, Exception>)
    ensures
        runs(IsaProcessor::Lh, *old(cpu), insn, *final(cpu), r),
{
    let i = IType::decode(insn);
    proof {
        lemma2_to64();
    }
    let addr: u64 = offset(cpu.rgpr(i.rs1), i.imm, 12);
    match cpu.load(addr, 16) {
        Ok(v) => {
            proof {
                lemma_read_fits(cpu@.mem, addr, 16);
                lemma_sext_value(v, 16);
            }
            *cpu.wgpr(i.rd) = sext(v, 16);
            Ok(0)
        },
        Err(e) => Err(e),
    }
}

/// Load word: 32 bits, sign extended.
pub fn exec_lw(cpu: &mut Cpu, insn: u32) -> (r: Result<u64, Exception>)
    ensures
        runs(IsaProcessor::Lw, *old(cpu), insn, *final(cpu), r),
{
    let i = IType::decode(insn);
    proof {
        lemma2_to64();
    }
    let addr: u64 = offset(cpu.rgpr(i.rs1), i.imm, 12);
    match cpu.load(addr, 32) {
        Ok(v) => {
            proof {
                lemma_read_fits(cpu@.mem, addr, 32);
                lemma_sext_value(v, 32);
            }
            *cpu.wgpr(i.rd) = sext(v, 32);
            Ok(0)
        },
        Err(e) => Err(e),
    }
}

/// Load doubleword: 64 bits.
pub fn exec_ld(cpu: &mut Cpu, insn: u32) -> (r: Result<u64, Exception>)
    ensures
        runs(IsaProcessor::Ld, *old(cpu), insn, *final(cpu), r),
{
    let i = IType::decode(insn);
    proof {
        lemma2_to64();
    }
    let addr: u64 = offset(cpu.rgpr(i.rs1), i.imm, 12);
    match cpu.load(addr, 64) {
        Ok(v) => {
            *cpu.wgpr(i.rd) = v;
            Ok(0)
        },
        Err(e) => Err(e),
    }
}

/// Load byte unsigned: 8 bits, zero extended.
pub fn exec_lbu(cpu: &mut Cpu, insn: u32) -> (r: Result<u64, Exception>)
    ensures
        runs(IsaProcessor::Lbu, *old(cpu), insn, *final(cpu), r),
{
    let i = IType::decode(insn);
    proof {
        lemma2_to64();
    }
    let addr: u64 = offset(cpu.rgpr(i.rs1), i.imm, 12);
    match cpu.load(addr, 8) {
        Ok(v) => {
            proof {
                lemma_read_fits(cpu@.mem, addr, 8);
                lemma_zext_value(v, 8);
            }
            *cpu.wgpr(i.rd) = zext(v, 8);
            Ok(0)
        },
        Err(e) => Err(e),
    }
}

/// Load halfword unsigned: 16 bits, zero extended.
pub fn exec_lhu(cpu: &mut Cpu, insn: u32) -> (r: Result<u64, Exception>)
    ensures
        runs(IsaProcessor::Lhu, *old(cpu), insn, *final(cpu), r),
{
    let i = IType::decode(insn);
    proof {
        lemma2_to64();
    }
    let addr: u64 = offset(cpu.rgpr(i.rs1), i.imm, 12);
    match cpu.load(addr, 16) {
        Ok(v) => {
            proof {
                lemma_read_fits(cpu@.mem, addr, 16);
                lemma_zext_value(v, 16);
            }
            *cpu.wgpr(i.rd) = zext(v, 16);
            Ok(0)
        },
        Err(e) => Err(e),
    }
}

/// Load word unsigned: 32 bits, zero extended.
pub fn exec_lwu(cpu: &mut Cpu, insn: u32) -> (r: Result<u64, Exception>)
    ensures
        runs(IsaProcessor::Lwu, *old(cpu), insn, *final(cpu), r),
{
    let i = IType::decode(insn);
    proof {
        lemma2_to64();
    }
    let addr: u64 = offset(cpu.rgpr(i.rs1), i.imm, 12);
    match cpu.load(addr, 32) {
        Ok(v) => {
            proof {
                lemma_read_fits(cpu@.mem, addr, 32);
                lemma_zext_value(v, 32);
            }
            *cpu.wgpr(i.rd) = zext(v, 32);
            Ok(0)
        },
        Err(e) => Err(e),
    }
}

/// Store byte: the low 8 bits of the second source register.
pub fn exec_sb(cpu: &mut Cpu, insn: u32) -> (r: Result<u64, Exception>)
    ensures
        runs(IsaProcessor::Sb, *old(cpu), insn, *final(cpu), r),
{
    let s = SType::decode(insn);
    proof {
        lemma2_to64();
    }
    let addr: u64 = offset(cpu.rgpr(s.rs1), s.imm, 12);
    let value: u64 = cpu.rgpr(s.rs2);
    match cpu.store(addr, 8, value) {
        Ok(_) => Ok(0),
        Err(e) => Err(e),
    }
}

/// Store halfword: the low 16 bits of the second source register.
pub fn exec_sh(cpu: &mut Cpu, insn: u32) -> (r: Result<u64, Exception>)
    ensures
        runs(IsaProcessor::Sh, *old(cpu), insn, *final(cpu), r),
{
    let s = SType::decode(insn);
    proof {
        lemma2_to64();
    }
    let addr: u64 = offset(cpu.rgpr(s.rs1), s.imm, 12);
    let value: u64 = cpu.rgpr(s.rs2);
    match cpu.store(addr, 16, value) {
        Ok(_) => Ok(0),
        Err(e) => Err(e),
    }
}

/// Store word: the low 32 bits of the second source register.
pub fn exec_sw(cpu: &mut Cpu, insn: u32) -> (r: Result<u64, Exception>)
    ensures
        runs(IsaProcessor::Sw, *old(cpu), insn, *final(cpu), r),
{
    let s = SType::decode(insn);
    proof {
        lemma2_to64();
    }
    let addr: u64 = offset(cpu.rgpr(s.rs1), s.imm, 12);
    let value: u64 = cpu.rgpr(s.rs2);
    match cpu.store(addr, 32, value) {
        Ok(_) => Ok(0),
        Err(e) => Err(e),
    }
}

/// Store doubleword: the second source register.
pub fn exec_sd(cpu: &mut Cpu, insn: u32) -> (r: Result<u64, Exception>)
    ensures
        runs(IsaProcessor::Sd, *old(cpu), insn, *final(cpu), r),
{
    let s = SType::decode(insn);
    proof {
        lemma2_to64();
    }
    let addr: u64 = offset(cpu.rgpr(s.rs1), s.imm, 12);
    let value: u64 = cpu.rgpr(s.rs2);
    match cpu.store(addr, 64, value) {
        Ok(_) => Ok(0),
        Err(e) => Err(e),
    }
}

/// Add immediate: the first source register plus the signed 12-bit
/// immediate.
pub fn exec_addi(cpu: &mut Cpu, insn: u32) -> (r: Result<u64, Exception>)
    ensures
        runs(IsaProcessor::Addi, *old(cpu), insn, *final(cpu), r),
{
    let i = IType::decode(insn);
    proof {
        lemma2_to64();
    }
    let a: u64 = cpu.rgpr(i.rs1);
    *cpu.wgpr(i.rd) = offset(a, i.imm, 12);
    Ok(0)
}

/// Set if less than immediate: 1 if the first source register is below the
/// immediate, both read as signed integers, else 0.
pub fn exec_slti(cpu: &mut Cpu, insn: u32) -> (r: Result<u64, Exception>)
    ensures
        runs(IsaProcessor::Slti, *old(cpu), insn, *final(cpu), r),
{
    let i = IType::decode(insn);
    proof {
        lemma2_to64();
    }
    let a: u64 = cpu.rgpr(i.rs1);
    *cpu.wgpr(i.rd) = if signed_lt(a, simm(i.imm, 12)) {
        1
    } else {
        0
    };
    Ok(0)
}

/// Set if less than immediate, unsigned: 1 if the first source register is
/// below the sign-extended immediate, both read as unsigned integers,
/// else 0.
pub fn exec_sltiu(cpu: &mut Cpu, insn: u32) -> (r: Result<u64, Exception>)
    ensures
        runs(IsaProcessor::Sltiu, *old(cpu), insn, *final(cpu), r),
{
    let i = IType::decode(insn);
    proof {
        lemma2_to64();
    }
    let a: u64 = cpu.rgpr(i.rs1);
    *cpu.wgpr(i.rd) = if a < simm(i.imm, 12) {
        1
    } else {
        0
    };
    Ok(0)
}

/// Exclusive or with the sign-extended immediate.
pub fn exec_xori(cpu: &mut Cpu, insn: u32) -> (r: Result<u64, Exception>)
    ensures
        runs(IsaProcessor::Xori, *old(cpu), insn, *final(cpu), r),
{
    let i = IType::decode(insn);
    proof {
        lemma2_to64();
    }
    let a: u64 = cpu.rgpr(i.rs1);
    *cpu.wgpr(i.rd) = a ^ simm(i.imm, 12);
    Ok(0)
}

/// Or with the sign-extended immediate.
pub fn exec_ori(cpu: &mut Cpu, insn: u32) -> (r: Result<u64, Exception>)
    ensures
        runs(IsaProcessor::Ori, *old(cpu), insn, *final(cpu), r),
{
    let i = IType::decode(insn);
    proof {
        lemma2_to64();
    }
    let a: u64 = cpu.rgpr(i.rs1);
    *cpu.wgpr(i.rd) = a | simm(i.imm, 12);
    Ok(0)
}

/// And with the sign-extended immediate.
pub fn exec_andi(cpu: &mut Cpu, insn: u32) -> (r: Result<u64, Exception>)
    ensures
        runs(IsaProcessor::Andi, *old(cpu), insn, *final(cpu), r),
{
    let i = IType::decode(insn);
    proof {
        lemma2_to64();
    }
    let a: u64 = cpu.rgpr(i.rs1);
    *cpu.wgpr(i.rd) = a & simm(i.imm, 12);
    Ok(0)
}

/// Add: the sum of the two source registers, modulo 2^64.
pub fn exec_add(cpu: &mut Cpu, insn: u32) -> (r: Result<u64, Exception>)
    ensures
        runs(IsaProcessor::Add, *old(cpu), insn, *final(cpu), r),
{
    let r = RType::decode(insn);
    let a: u64 = cpu.rgpr(r.rs1);
    let b: u64 = cpu.rgpr(r.rs2);
    *cpu.wgpr(r.rd) = a.wrapping_add(b);
    Ok(0)
}

/// Subtract: the first source register minus the second, modulo 2^64.
pub fn exec_sub(cpu: &mut Cpu, insn: u32) -> (r: Result<u64, Exception>)
    ensures
        runs(IsaProcessor::Sub, *old(cpu), insn, *final(cpu), r),
{
    let r = RType::decode(insn);
    let a: u64 = cpu.rgpr(r.rs1);
    let b: u64 = cpu.rgpr(r.rs2);
    *cpu.wgpr(r.rd) = a.wrapping_sub(b);
    Ok(0)
}

/// Bitwise or of the two source registers.
pub fn exec_or(cpu: &mut Cpu, insn: u32) -> (r: Result<u64, Exception>)
    ensures
        runs(IsaProcessor::Or, *old(cpu), insn, *final(cpu), r),
{
    let r = RType::decode(insn);
    let a: u64 = cpu.rgpr(r.rs1);
    let b: u64 = cpu.rgpr(r.rs2);
    *cpu.wgpr(r.rd) = a | b;
    Ok(0)
}

/// Bitwise and of the two source registers.
pub fn exec_and(cpu: &mut Cpu, insn: u32) -> (r: Result<u64, Exception>)
    ensures
        runs(IsaProcessor::And, *old(cpu), insn, *final(cpu), r),
{
    let r = RType::decode(insn);
    let a: u64 = cpu.rgpr(r.rs1);
    let b: u64 = cpu.rgpr(r.rs2);
    *cpu.wgpr(r.rd) = a & b;
    Ok(0)
}

/// The definition of `lui`.
#[verifier::allow_in_spec]
pub fn lui() -> IsaDefine
    returns
        IsaDefine::new(IsaProcessor::Lui, "lui", 0x37, InsnType::U),
{
    IsaDefine::new(IsaProcessor::Lui, "lui", 0x37, InsnType::U)
}

/// The definition of `auipc`.
#[verifier::allow_in_spec]
pub fn auipc() -> IsaDefine
    returns
        IsaDefine::new(IsaProcessor::Auipc, "auipc", 0x17, InsnType::U),
{
    IsaDefine::new(IsaProcessor::Auipc, "auipc", 0x17, InsnType::U)
}

/// The definition of `jal`.
#[verifier::allow_in_spec]
pub fn jal() -> IsaDefine
    returns
        IsaDefine::new(IsaProcessor::Jal, "jal", 0x6f, InsnType::J),
{
    IsaDefine::new(IsaProcessor::Jal, "jal", 0x6f, InsnType::J)
}

/// The definition of `jalr`.
#[verifier::allow_in_spec]
pub fn jalr() -> IsaDefine
    returns
        IsaDefine::new(IsaProcessor::Jalr, "jalr", 0x67, InsnType::I),
{
    IsaDefine::new(IsaProcessor::Jalr, "jalr", 0x67, InsnType::I)
}

/// The definition of `beq`.
#[verifier::allow_in_spec]
pub fn beq() -> IsaDefine
    returns
        IsaDefine::new(IsaProcessor::Beq, "beq", 0x63, InsnType::B),
{
    IsaDefine::new(IsaProcessor::Beq, "beq", 0x63, InsnType::B)
}

/// The definition of `bne`.
#[verifier::allow_in_spec]
pub fn bne() -> IsaDefine
    returns
        IsaDefine::new(IsaProcessor::Bne, "bne", 0x1063, InsnType::B),
{
    IsaDefine::new(IsaProcessor::Bne, "bne", 0x1063, InsnType::B)
}

/// The definition of `blt`.
#[verifier::allow_in_spec]
pub fn blt() -> IsaDefine
    returns
        IsaDefine::new(IsaProcessor::Blt, "blt", 0x4063, InsnType::B),
{
    IsaDefine::new(IsaProcessor::Blt, "blt", 0x4063, InsnType::B)
}

/// The definition of `bge`.
#[verifier::allow_in_spec]
pub fn bge() -> IsaDefine
    returns
        IsaDefine::new(IsaProcessor::Bge, "bge", 0x5063, InsnType::B),
{
    IsaDefine::new(IsaProcessor::Bge, "bge", 0x5063, InsnType::B)
}

/// The definition of `bltu`.
#[verifier::allow_in_spec]
pub fn bltu() -> IsaDefine
    returns
        IsaDefine::new(IsaProcessor::Bltu, "bltu", 0x6063, InsnType::B),
{
    IsaDefine::new(IsaProcessor::Bltu, "bltu", 0x6063, InsnType::B)
}

/// The definition of `bgeu`.
#[verifier::allow_in_spec]
pub fn bgeu() -> IsaDefine
    returns
        IsaDefine::new(IsaProcessor::Bgeu, "bgeu", 0x7063, InsnType::B),
{
    IsaDefine::new(IsaProcessor::Bgeu, "bgeu", 0x7063, InsnType::B)
}

/// The definition of `lb`.
#[verifier::allow_in_spec]
pub fn lb() -> IsaDefine
    returns
        IsaDefine::new(IsaProcessor::Lb, "lb", 0x3, InsnType::I),
{
    IsaDefine::new(IsaProcessor::Lb, "lb", 0x3, InsnType::I)
}

/// The definition of `lh`.
#[verifier::allow_in_spec]
pub fn lh() -> IsaDefine
    returns
        IsaDefine::new(IsaProcessor::Lh, "lh", 0x1003, InsnType::I),
{
    IsaDefine::new(IsaProcessor::Lh, "lh", 0x1003, InsnType::I)
}

/// The definition of `lw`.
#[verifier::allow_in_spec]
pub fn lw() -> IsaDefine
    returns
        IsaDefine::new(IsaProcessor::Lw, "lw", 0x2003, InsnType::I),
{
    IsaDefine::new(IsaProcessor::Lw, "lw", 0x2003, InsnType::I)
}

/// The definition of `ld`.
#[verifier::allow_in_spec]
pub fn ld() -> IsaDefine
    returns
        IsaDefine::new(IsaProcessor::Ld, "ld", 0x3003, InsnType::I),
{
    IsaDefine::new(IsaProcessor::Ld, "ld", 0x3003, InsnType::I)
}

/// The definition of `lbu`.
#[verifier::allow_in_spec]
pub fn lbu() -> IsaDefine
    returns
        IsaDefine::new(IsaProcessor::Lbu, "lbu", 0x4003, InsnType::I),
{
    IsaDefine::new(IsaProcessor::Lbu, "lbu", 0x4003, InsnType::I)
}

/// The definition of `lhu`.
#[verifier::allow_in_spec]
pub fn lhu() -> IsaDefine
    returns
        IsaDefine::new(IsaProcessor::Lhu, "lhu", 0x5003, InsnType::I),
{
    IsaDefine::new(IsaProcessor::Lhu, "lhu", 0x5003, InsnType::I)
}

/// The definition of `lwu`.
#[verifier::allow_in_spec]
pub fn lwu() -> IsaDefine
    returns
        IsaDefine::new(IsaProcessor::Lwu, "lwu", 0x6003, InsnType::I),
{
    IsaDefine::new(IsaProcessor::Lwu, "lwu", 0x6003, InsnType::I)
}

/// The definition of `sb`.
#[verifier::allow_in_spec]
pub fn sb() -> IsaDefine
    returns
        IsaDefine::new(IsaProcessor::Sb, "sb", 0x23, InsnType::S),
{
    IsaDefine::new(IsaProcessor::Sb, "sb", 0x23, InsnType::S)
}

/// The definition of `sh`.
#[verifier::allow_in_spec]
pub fn sh() -> IsaDefine
    returns
        IsaDefine::new(IsaProcessor::Sh, "sh", 0x1023, InsnType::S),
{
    IsaDefine::new(IsaProcessor::Sh, "sh", 0x1023, InsnType::S)
}

/// The definition of `sw`.
#[verifier::allow_in_spec]
pub fn sw() -> IsaDefine
    returns
        IsaDefine::new(IsaProcessor::Sw, "sw", 0x2023, InsnType::S),
{
    IsaDefine::new(IsaProcessor::Sw, "sw", 0x2023, InsnType::S)
}

/// The definition of `sd`.
#[verifier::allow_in_spec]
pub fn sd() -> IsaDefine
    returns
        IsaDefine::new(IsaProcessor::Sd, "sd", 0x3023, InsnType::S),
{
    IsaDefine::new(IsaProcessor::Sd, "sd", 0x3023, InsnType::S)
}

/// The definition of `addi`.
#[verifier::allow_in_spec]
pub fn addi() -> IsaDefine
    returns
        IsaDefine::new(IsaProcessor::Addi, "addi", 0x13, InsnType::I),
{
    IsaDefine::new(IsaProcessor::Addi, "addi", 0x13, InsnType::I)
}

/// The definition of `slti`.
#[verifier::allow_in_spec]
pub fn slti() -> IsaDefine
    returns
        IsaDefine::new(IsaProcessor::Slti, "slti", 0x2013, InsnType::I),
{
    IsaDefine::new(IsaProcessor::Slti, "slti", 0x2013, InsnType::I)
}

/// The definition of `sltiu`.
#[verifier::allow_in_spec]
pub fn sltiu() -> IsaDefine
    returns
        IsaDefine::new(IsaProcessor::Sltiu, "sltiu", 0x3013, InsnType::I),
{
    IsaDefine::new(IsaProcessor::Sltiu, "sltiu", 0x3013, InsnType::I)
}

/// The definition of `xori`.
#[verifier::allow_in_spec]
pub fn xori() -> IsaDefine
    returns
        IsaDefine::new(IsaProcessor::Xori, "xori", 0x4013, InsnType::I),
{
    IsaDefine::new(IsaProcessor::Xori, "xori", 0x4013, InsnType::I)
}

/// The definition of `ori`.
#[verifier::allow_in_spec]
pub fn ori() -> IsaDefine
    returns
        IsaDefine::new(IsaProcessor::Ori, "ori", 0x6013, InsnType::I),
{
    IsaDefine::new(IsaProcessor::Ori, "ori", 0x6013, InsnType::I)
}

/// The definition of `andi`.
#[verifier::allow_in_spec]
pub fn andi() -> IsaDefine
    returns
        IsaDefine::new(IsaProcessor::Andi, "andi", 0x7013, InsnType::I),
{
    IsaDefine::new(IsaProcessor::Andi, "andi", 0x7013, InsnType::I)
}

/// The definition of `add`.
#[verifier::allow_in_spec]
pub fn add() -> IsaDefine
    returns
        IsaDefine::new(IsaProcessor::Add, "add", 0x33, InsnType::R),
{
    IsaDefine::new(IsaProcessor::Add, "add", 0x33, InsnType::R)
}

/// The definition of `sub`.
#[verifier::allow_in_spec]
pub fn sub() -> IsaDefine
    returns
        IsaDefine::new(IsaProcessor::Sub, "sub", 0x40000033, InsnType::R),
{
    IsaDefine::new(IsaProcessor::Sub, "sub", 0x40000033, InsnType::R)
}

/// The definition of `or`.
#[verifier::allow_in_spec]
pub fn or() -> IsaDefine
    returns
        IsaDefine::new(IsaProcessor::Or, "or", 0x6033, InsnType::R),
{
    IsaDefine::new(IsaProcessor::Or, "or", 0x6033, InsnType::R)
}

/// The definition of `and`.
#[verifier::allow_in_spec]
pub fn and() -> IsaDefine
    returns
        IsaDefine::new(IsaProcessor::And, "and", 0x7033, InsnType::R),
{
    IsaDefine::new(IsaProcessor::And, "and", 0x7033, InsnType::R)
}

/// The base integer instructions, in the order of their installation.
pub open spec fn base_set() -> Seq<IsaDefine> {
    seq![
        lui(),
        auipc(),
        jal(),
        jalr(),
        beq(),
        bne(),
        blt(),
        bge(),
        bltu(),
        bgeu(),
        lb(),
        lh(),
        lw(),
        ld(),
        lbu(),
        lhu(),
        lwu(),
        sb(),
        sh(),
        sw(),
        sd(),
        addi(),
        slti(),
        sltiu(),
        xori(),
        ori(),
        andi(),
        self::add(),
        self::sub(),
        or(),
        and(),
    ]
}

/// Installs the definitions of `base_set` in `map`, in their order.
pub fn register_ext(map: &mut HashMap<u32, Vec<IsaDefine>>)
    ensures
        table_view(*final(map)) == install_all(table_view(*old(map)), base_set()),
{
    let ghost before = table_view(*map);
    let ghost mut done: Seq<IsaDefine> = Seq::empty();
    install(map, lui());
    proof {
        lemma_install_all_push(before, done, lui());
        done = done.push(lui());
    }
    install(map, auipc());
    proof {
        lemma_install_all_push(before, done, auipc());
        done = done.push(auipc());
    }
    install(map, jal());
    proof {
        lemma_install_all_push(before, done, jal());
        done = done.push(jal());
    }
    install(map, jalr());
    proof {
        lemma_install_all_push(before, done, jalr());
        done = done.push(jalr());
    }
    install(map, beq());
    proof {
        lemma_install_all_push(before, done, beq());
        done = done.push(beq());
    }
    install(map, bne());
    proof {
        lemma_install_all_push(before, done, bne());
        done = done.push(bne());
    }
    install(map, blt());
    proof {
        lemma_install_all_push(before, done, blt());
        done = done.push(blt());
    }
    install(map, bge());
    proof {
        lemma_install_all_push(before, done, bge());
        done = done.push(bge());
    }
    install(map, bltu());
    proof {
        lemma_install_all_push(before, done, bltu());
        done = done.push(bltu());
    }
    install(map, bgeu());
    proof {
        lemma_install_all_push(before, done, bgeu());
        done = done.push(bgeu());
    }
    install(map, lb());
    proof {
        lemma_install_all_push(before, done, lb());
        done = done.push(lb());
    }
    install(map, lh());
    proof {
        lemma_install_all_push(before, done, lh());
        done = done.push(lh());
    }
    install(map, lw());
    proof {
        lemma_install_all_push(before, done, lw());
        done = done.push(lw());
    }
    install(map, ld());
    proof {
        lemma_install_all_push(before, done, ld());
        done = done.push(ld());
    }
    install(map, lbu());
    proof {
        lemma_install_all_push(before, done, lbu());
        done = done.push(lbu());
    }
    install(map, lhu());
    proof {
        lemma_install_all_push(before, done, lhu());
        done = done.push(lhu());
    }
    install(map, lwu());
    proof {
        lemma_install_all_push(before, done, lwu());
        done = done.push(lwu());
    }
    install(map, sb());
    proof {
        lemma_install_all_push(before, done, sb());
        done = done.push(sb());
    }
    install(map, sh());
    proof {
        lemma_install_all_push(before, done, sh());
        done = done.push(sh());
    }
    install(map, sw());
    proof {
        lemma_install_all_push(before, done, sw());
        done = done.push(sw());
    }
    install(map, sd());
    proof {
        lemma_install_all_push(before, done, sd());
        done = done.push(sd());
    }
    install(map, addi());
    proof {
        lemma_install_all_push(before, done, addi());
        done = done.push(addi());
    }
    install(map, slti());
    proof {
        lemma_install_all_push(before, done, slti());
        done = done.push(slti());
    }
    install(map, sltiu());
    proof {
        lemma_install_all_push(before, done, sltiu());
        done = done.push(sltiu());
    }
    install(map, xori());
    proof {
        lemma_install_all_push(before, done, xori());
        done = done.push(xori());
    }
    install(map, ori());
    proof {
        lemma_install_all_push(before, done, ori());
        done = done.push(ori());
    }
    install(map, andi());
    proof {
        lemma_install_all_push(before, done, andi());
        done = done.push(andi());
    }
    install(map, self::add());
    proof {
        lemma_install_all_push(before, done, self::add());
        done = done.push(self::add());
    }
    install(map, self::sub());
    proof {
        lemma_install_all_push(before, done, self::sub());
        done = done.push(self::sub());
    }
    install(map, or());
    proof {
        lemma_install_all_push(before, done, or());
        done = done.push(or());
    }
    install(map, and());
    proof {
        lemma_install_all_push(before, done, and());
        done = done.push(and());
    }
    assert(done =~= base_set());
}

} // verus!
