//! The multiply and divide instructions: their definitions and their
//! handlers. A division by zero raises no fault: the quotient is all ones
//! and the remainder is the dividend, in the signed and in the unsigned
//! forms, for 64 and for 32 bits.

use vstd::prelude::*;
use std::collections::HashMap;
use super::alu::{magnitude32, magnitude64, mul_high, signed_quotient, signed_remainder, word};
use super::cpu::{runs, Cpu};
use super::except::Exception;
use super::isa::{
    install,
    install_all,
    lemma_install_all_push,
    table_view,
    IsaDefine,
    IsaProcessor,
};
use crate::kit::bits::{lemma_zext_is_mod, zext};
use crate::kit::insn::{InsnType, RType};

verus! {

/// Multiply: the low 64 bits of the product.
pub fn exec_mul(cpu: &mut Cpu, insn: u32) -> (r: Result<u64, Exception>)
    ensures
        runs(IsaProcessor::Mul, *old(cpu), insn, *final(cpu), r),
{
    let r = RType::decode(insn);
    let a: u64 = cpu.rgpr(r.rs1);
    let b: u64 = cpu.rgpr(r.rs2);
    *cpu.wgpr(r.rd) = a.wrapping_mul(b);
    Ok(0)
}

/// Multiply high unsigned: the upper 64 bits of the product of the two
/// source registers read as unsigned integers.
pub fn exec_mulhu(cpu: &mut Cpu, insn: u32) -> (r: Result<u64, Exception>)
    ensures
        runs(IsaProcessor::Mulhu, *old(cpu), insn, *final(cpu), r),
{
    let r = RType::decode(insn);
    let a: u64 = cpu.rgpr(r.rs1);
    let b: u64 = cpu.rgpr(r.rs2);
    *cpu.wgpr(r.rd) = mul_high(a, b);
    Ok(0)
}

/// Divide: the quotient of the two source registers read as signed
/// integers, rounded toward zero.
pub fn exec_div(cpu: &mut Cpu, insn: u32) -> (r: Result<u64, Exception>)
    ensures
        runs(IsaProcessor::Div, *old(cpu), insn, *final(cpu), r),
{
    let r = RType::decode(insn);
    let a: u64 = cpu.rgpr(r.rs1);
    let b: u64 = cpu.rgpr(r.rs2);
    let x = magnitude64(a);
    let y = magnitude64(b);
    *cpu.wgpr(r.rd) = signed_quotient(x.0, x.1, y.0, y.1);
    Ok(0)
}

/// Divide unsigned.
pub fn exec_divu(cpu: &mut Cpu, insn: u32) -> (r: Result<u64, Exception>)
    ensures
        runs(IsaProcessor::Divu, *old(cpu), insn, *final(cpu), r),
{
    let r = RType::decode(insn);
    let a: u64 = cpu.rgpr(r.rs1);
    let b: u64 = cpu.rgpr(r.rs2);
    *cpu.wgpr(r.rd) = if b == 0 {
        u64::MAX
    } else {
        a / b
    };
    Ok(0)
}

/// Remainder of the signed division; it has the sign of the dividend.
pub fn exec_rem(cpu: &mut Cpu, insn: u32) -> (r: Result<u64, Exception>)
    ensures
        runs(IsaProcessor::Rem, *old(cpu), insn, *final(cpu), r),
{
    let r = RType::decode(insn);
    let a: u64 = cpu.rgpr(r.rs1);
    let b: u64 = cpu.rgpr(r.rs2);
    let x = magnitude64(a);
    let y = magnitude64(b);
    *cpu.wgpr(r.rd) = signed_remainder(x.0, x.1, y.0, y.1);
    Ok(0)
}

/// Remainder of the unsigned division.
pub fn exec_remu(cpu: &mut Cpu, insn: u32) -> (r: Result<u64, Exception>)
    ensures
        runs(IsaProcessor::Remu, *old(cpu), insn, *final(cpu), r),
{
    let r = RType::decode(insn);
    let a: u64 = cpu.rgpr(r.rs1);
    let b: u64 = cpu.rgpr(r.rs2);
    *cpu.wgpr(r.rd) = if b == 0 {
        a
    } else {
        a % b
    };
    Ok(0)
}

/// Multiply word: the low 32 bits of the product, sign extended.
pub fn exec_mulw(cpu: &mut Cpu, insn: u32) -> (r: Result<u64, Exception>)
    ensures
        runs(IsaProcessor::Mulw, *old(cpu), insn, *final(cpu), r),
{
    let r = RType::decode(insn);
    let a: u64 = cpu.rgpr(r.rs1);
    let b: u64 = cpu.rgpr(r.rs2);
    *cpu.wgpr(r.rd) = word(a.wrapping_mul(b));
    Ok(0)
}

/// Divide word: the quotient of the low halves of the two source
/// registers read as signed 32-bit integers, sign extended.
pub fn exec_divw(cpu: &mut Cpu, insn: u32) -> (r: Result<u64, Exception>)
    ensures
        runs(IsaProcessor::Divw, *old(cpu), insn, *final(cpu), r),
{
    let r = RType::decode(insn);
    let a: u64 = cpu.rgpr(r.rs1);
    let b: u64 = cpu.rgpr(r.rs2);
    let x = magnitude32(a);
    let y = magnitude32(b);
    *cpu.wgpr(r.rd) = word(signed_quotient(x.0, x.1, y.0, y.1));
    Ok(0)
}

/// Divide word unsigned: the quotient of the low halves of the two source
/// registers read as unsigned 32-bit integers, sign extended.
pub fn exec_divuw(cpu: &mut Cpu, insn: u32) -> (r: Result<u64, Exception>)
    ensures
        runs(IsaProcessor::Divuw, *old(cpu), insn, *final(cpu), r),
{
    let r = RType::decode(insn);
    let a: u64 = cpu.rgpr(r.rs1);
    let b: u64 = cpu.rgpr(r.rs2);
    proof {
        lemma_zext_is_mod(a);
        lemma_zext_is_mod(b);
    }
    let x: u64 = zext(a, 32);
    let y: u64 = zext(b, 32);
    *cpu.wgpr(r.rd) = word(
        if y == 0 {
            u64::MAX
        } else {
            x / y
        },
    );
    Ok(0)
}

/// Remainder word: the remainder of the signed 32-bit division, sign
/// extended.
pub fn exec_remw(cpu: &mut Cpu, insn: u32) -> (r: Result<u64, Exception>)
    ensures
        runs(IsaProcessor::Remw, *old(cpu), insn, *final(cpu), r),
{
    let r = RType::decode(insn);
    let a: u64 = cpu.rgpr(r.rs1);
    let b: u64 = cpu.rgpr(r.rs2);
    let x = magnitude32(a);
    let y = magnitude32(b);
    *cpu.wgpr(r.rd) = word(signed_remainder(x.0, x.1, y.0, y.1));
    Ok(0)
}

/// Remainder word unsigned: the remainder of the unsigned 32-bit
/// division, sign extended.
pub fn exec_remuw(cpu: &mut Cpu, insn: u32) -> (r: Result<u64, Exception>)
    ensures
        runs(IsaProcessor::Remuw, *old(cpu), insn, *final(cpu), r),
{
    let r = RType::decode(insn);
    let a: u64 = cpu.rgpr(r.rs1);
    let b: u64 = cpu.rgpr(r.rs2);
    proof {
        lemma_zext_is_mod(a);
        lemma_zext_is_mod(b);
    }
    let x: u64 = zext(a, 32);
    let y: u64 = zext(b, 32);
    *cpu.wgpr(r.rd) = word(
        if y == 0 {
            x
        } else {
            x % y
        },
    );
    Ok(0)
}

/// The definition of `mul`.
#[verifier::allow_in_spec]
pub fn mul() -> IsaDefine
    returns
        IsaDefine::new(IsaProcessor::Mul, "mul", 0x2000033, InsnType::R),
{
    IsaDefine::new(IsaProcessor::Mul, "mul", 0x2000033, InsnType::R)
}

/// The definition of `mulhu`.
#[verifier::allow_in_spec]
pub fn mulhu() -> IsaDefine
    returns
        IsaDefine::new(IsaProcessor::Mulhu, "mulhu", 0x2003033, InsnType::R),
{
    IsaDefine::new(IsaProcessor::Mulhu, "mulhu", 0x2003033, InsnType::R)
}

/// The definition of `div`.
#[verifier::allow_in_spec]
pub fn div() -> IsaDefine
    returns
        IsaDefine::new(IsaProcessor::Div, "div", 0x2004033, InsnType::R),
{
    IsaDefine::new(IsaProcessor::Div, "div", 0x2004033, InsnType::R)
}

/// The definition of `divu`.
#[verifier::allow_in_spec]
pub fn divu() -> IsaDefine
    returns
        IsaDefine::new(IsaProcessor::Divu, "divu", 0x2005033, InsnType::R),
{
    IsaDefine::new(IsaProcessor::Divu, "divu", 0x2005033, InsnType::R)
}

/// The definition of `rem`.
#[verifier::allow_in_spec]
pub fn rem() -> IsaDefine
    returns
        IsaDefine::new(IsaProcessor::Rem, "rem", 0x2006033, InsnType::R),
{
    IsaDefine::new(IsaProcessor::Rem, "rem", 0x2006033, InsnType::R)
}

/// The definition of `remu`.
#[verifier::allow_in_spec]
pub fn remu() -> IsaDefine
    returns
        IsaDefine::new(IsaProcessor::Remu, "remu", 0x2007033, InsnType::R),
{
    IsaDefine::new(IsaProcessor::Remu, "remu", 0x2007033, InsnType::R)
}

/// The definition of `mulw`.
#[verifier::allow_in_spec]
pub fn mulw() -> IsaDefine
    returns
        IsaDefine::new(IsaProcessor::Mulw, "mulw", 0x200003b, InsnType::R),
{
    IsaDefine::new(IsaProcessor::Mulw, "mulw", 0x200003b, InsnType::R)
}

/// The definition of `divw`.
#[verifier::allow_in_spec]
pub fn divw() -> IsaDefine
    returns
        IsaDefine::new(IsaProcessor::Divw, "divw", 0x200403b, InsnType::R),
{
    IsaDefine::new(IsaProcessor::Divw, "divw", 0x200403b, InsnType::R)
}

/// The definition of `divuw`.
#[verifier::allow_in_spec]
pub fn divuw() -> IsaDefine
    returns
        IsaDefine::new(IsaProcessor::Divuw, "divuw", 0x200503b, InsnType::R),
{
    IsaDefine::new(IsaProcessor::Divuw, "divuw", 0x200503b, InsnType::R)
}

/// The definition of `remw`.
#[verifier::allow_in_spec]
pub fn remw() -> IsaDefine
    returns
        IsaDefine::new(IsaProcessor::Remw, "remw", 0x200603b, InsnType::R),
{
    IsaDefine::new(IsaProcessor::Remw, "remw", 0x200603b, InsnType::R)
}

/// The definition of `remuw`.
#[verifier::allow_in_spec]
pub fn remuw() -> IsaDefine
    returns
        IsaDefine::new(IsaProcessor::Remuw, "remuw", 0x200703b, InsnType::R),
{
    IsaDefine::new(IsaProcessor::Remuw, "remuw", 0x200703b, InsnType::R)
}

/// The multiply and divide instructions, in the order of their
/// installation.
pub open spec fn m_set() -> Seq<IsaDefine> {
    seq![
        self::mul(),
        mulhu(),
        div(),
        divu(),
        rem(),
        remu(),
        mulw(),
        divw(),
        divuw(),
        remw(),
        remuw(),
    ]
}

/// Installs the definitions of `m_set` in `map`, in their order.
pub fn register_ext(map: &mut HashMap<u32, Vec<IsaDefine>>)
    ensures
        table_view(*final(map)) == install_all(table_view(*old(map)), m_set()),
{
    let ghost before = table_view(*map);
    let ghost mut done: Seq<IsaDefine> = Seq::empty();
    install(map, self::mul());
    proof {
        lemma_install_all_push(before, done, self::mul());
        done = done.push(self::mul());
    }
    install(map, mulhu());
    proof {
        lemma_install_all_push(before, done, mulhu());
        done = done.push(mulhu());
    }
    install(map, div());
    proof {
        lemma_install_all_push(before, done, div());
        done = done.push(div());
    }
    install(map, divu());
    proof {
        lemma_install_all_push(before, done, divu());
        done = done.push(divu());
    }
    install(map, rem());
    proof {
        lemma_install_all_push(before, done, rem());
        done = done.push(rem());
    }
    install(map, remu());
    proof {
        lemma_install_all_push(before, done, remu());
        done = done.push(remu());
    }
    install(map, mulw());
    proof {
        lemma_install_all_push(before, done, mulw());
        done = done.push(mulw());
    }
    install(map, divw());
    proof {
        lemma_install_all_push(before, done, divw());
        done = done.push(divw());
    }
    install(map, divuw());
    proof {
        lemma_install_all_push(before, done, divuw());
        done = done.push(divuw());
    }
    install(map, remw());
    proof {
        lemma_install_all_push(before, done, remw());
        done = done.push(remw());
    }
    install(map, remuw());
    proof {
        lemma_install_all_push(before, done, remuw());
        done = done.push(remuw());
    }
    assert(done =~= m_set());
}

} // verus!
