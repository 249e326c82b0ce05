//! Two's-complement arithmetic on 64-bit register values, stated over the
//! integers.

use vstd::prelude::*;
use vstd::arithmetic::power2::{lemma2_to64, lemma_pow2_pos, lemma_pow2_unfold, pow2};
use crate::kit::bits::{
    lemma_sext_value,
    lemma_upper_value,
    lemma_sext_zext,
    sext,
    signed64,
    signed_low,
    wrap64,
    zext,
};

verus! {

/// The integer with the given sign and magnitude.
pub open spec fn sign_mag(neg: bool, mag: u64) -> int {
    if neg {
        -(mag as int)
    } else {
        mag as int
    }
}

/// The absolute value of `x`.
pub open spec fn abs(x: int) -> int {
    if x < 0 {
        -x
    } else {
        x
    }
}

/// The quotient of `x` by `y`, rounded toward zero. For `y != 0`.
pub open spec fn trunc_div(x: int, y: int) -> int {
    let q = abs(x) / abs(y);
    if (x < 0) != (y < 0) {
        -q
    } else {
        q
    }
}

/// The remainder that belongs to `trunc_div`: it has the sign of `x`.
/// For `y != 0`.
pub open spec fn trunc_rem(x: int, y: int) -> int {
    let r = abs(x) % abs(y);
    if x < 0 {
        -r
    } else {
        r
    }
}

/// The result of a signed division: a zero divisor gives -1, every other
/// divisor the quotient rounded toward zero.
pub open spec fn div_value(x: int, y: int) -> int {
    if y == 0 {
        -1
    } else {
        trunc_div(x, y)
    }
}

/// The result of a signed remainder: a zero divisor gives the dividend,
/// every other divisor the remainder with the dividend's sign.
pub open spec fn rem_value(x: int, y: int) -> int {
    if y == 0 {
        x
    } else {
        trunc_rem(x, y)
    }
}

/// The result of an unsigned division: a zero divisor gives all ones.
pub open spec fn divu_value(a: u64, b: u64) -> u64 {
    if b == 0 {
        u64::MAX
    } else {
        a / b
    }
}

/// The result of an unsigned remainder: a zero divisor gives the dividend.
pub open spec fn remu_value(a: u64, b: u64) -> u64 {
    if b == 0 {
        a
    } else {
        a % b
    }
}

/// The register value of a 32-bit result: the low 32 bits of `k`, sign
/// extended to 64 bits.
pub open spec fn word_value(k: int) -> u64 {
    wrap64(signed_low(wrap64(k), 32))
}

/// The low 32 bits of a register value, as an unsigned number.
pub open spec fn low32(a: u64) -> u64 {
    a % 0x1_0000_0000
}

/// The quotient and the remainder of a division that rounds toward zero
/// make up the dividend, and the remainder is smaller than the divisor.
pub proof fn lemma_trunc_div_rem(x: int, y: int)
    requires
        y != 0,
    ensures
        x == y * trunc_div(x, y) + trunc_rem(x, y),
        abs(trunc_rem(x, y)) < abs(y),
{
    let q = abs(x) / abs(y);
    let r = abs(x) % abs(y);
    vstd::arithmetic::div_mod::lemma_fundamental_div_mod(abs(x), abs(y));
    assert(abs(x) == abs(y) * q + r);
    assert(y * (-q) == -(y * q)) by (nonlinear_arith);
    assert((-y) * q == -(y * q)) by (nonlinear_arith);
}

/// The low `n` bits read as a signed integer lie between -2^(n-1) and
/// 2^(n-1) - 1.
pub proof fn lemma_signed_low_bounds(v: u64, n: u32)
    requires
        1 <= n <= 64,
    ensures
        -pow2((n - 1) as nat) <= signed_low(v, n) < pow2((n - 1) as nat),
{
    lemma_pow2_unfold(n as nat);
    lemma_pow2_pos(n as nat);
}

/// `base` plus the `bits`-bit two's-complement number in `field`, modulo
/// 2^64.
pub fn offset(base: u64, field: u32, bits: u32) -> (r: u64)
    requires
        1 <= bits <= 32,
        field < pow2(bits as nat),
    ensures
        r == wrap64(base + signed_low(field as u64, bits)),
{
    proof {
        lemma_sext_value(field as u64, bits);
        lemma_signed_low_bounds(field as u64, bits);
        lemma2_to64();
        vstd::arithmetic::power2::lemma_pow2_strictly_increases((bits - 1) as nat, 32);
    }
    base.wrapping_add(sext(field as u64, bits))
}

/// The 64-bit pattern of the `bits`-bit two's-complement number in `field`.
pub fn simm(field: u32, bits: u32) -> (r: u64)
    requires
        1 <= bits <= 32,
        field < pow2(bits as nat),
    ensures
        r == wrap64(signed_low(field as u64, bits)),
        signed64(r) == signed_low(field as u64, bits),
{
    proof {
        lemma_sext_value(field as u64, bits);
    }
    sext(field as u64, bits)
}

/// The 64-bit pattern of the signed 32-bit number that has the 20-bit
/// `field` as its upper bits and zeros below.
pub fn upper(field: u32) -> (r: u64)
    requires
        field < 0x10_0000,
    ensures
        r == wrap64(signed_low((field * 4096) as u64, 32)),
{
    proof {
        lemma_upper_value(field as u64);
    }
    sext(field as u64, 20) << 12
}

/// Whether `a` is below `b` when both are read as signed integers.
pub fn signed_lt(a: u64, b: u64) -> (r: bool)
    ensures
        r == (signed64(a) < signed64(b)),
{
    let a_neg: bool = a >= 0x8000_0000_0000_0000;
    let b_neg: bool = b >= 0x8000_0000_0000_0000;
    if a_neg != b_neg {
        a_neg
    } else {
        a < b
    }
}

/// The register value of a 32-bit result held in the low half of `t`.
pub fn word(t: u64) -> (r: u64)
    ensures
        r == wrap64(signed_low(t, 32)),
{
    proof {
        lemma_sext_zext(t, 32);
    }
    sext(zext(t, 32), 32)
}

/// Sign and magnitude of a register value read as a signed integer.
pub fn magnitude64(a: u64) -> (r: (bool, u64))
    ensures
        sign_mag(r.0, r.1) == signed64(a),
        r.0 ==> r.1 > 0,
{
    if a >= 0x8000_0000_0000_0000 {
        (true, 0u64.wrapping_sub(a))
    } else {
        (false, a)
    }
}

/// Sign and magnitude of the low 32 bits of a register value read as a
/// signed integer.
pub fn magnitude32(a: u64) -> (r: (bool, u64))
    ensures
        sign_mag(r.0, r.1) == signed_low(a, 32),
        r.0 ==> r.1 > 0,
        r.1 <= 0x8000_0000,
{
    proof {
        lemma_sext_zext(a, 32);
        lemma2_to64();
    }
    let low: u64 = zext(a, 32);
    if low >= 0x8000_0000 {
        (true, 0x1_0000_0000 - low)
    } else {
        (false, low)
    }
}

/// The 64-bit pattern of the signed quotient of two numbers given by sign
/// and magnitude.
pub fn signed_quotient(x_neg: bool, x_mag: u64, y_neg: bool, y_mag: u64) -> (r: u64)
    requires
        x_neg ==> x_mag > 0,
        y_neg ==> y_mag > 0,
    ensures
        r == wrap64(div_value(sign_mag(x_neg, x_mag), sign_mag(y_neg, y_mag))),
{
    if y_mag == 0 {
        u64::MAX
    } else {
        let q: u64 = x_mag / y_mag;
        if x_neg != y_neg {
            0u64.wrapping_sub(q)
        } else {
            q
        }
    }
}

/// The 64-bit pattern of the signed remainder of two numbers given by sign
/// and magnitude.
pub fn signed_remainder(x_neg: bool, x_mag: u64, y_neg: bool, y_mag: u64) -> (r: u64)
    requires
        x_neg ==> x_mag > 0,
        y_neg ==> y_mag > 0,
    ensures
        r == wrap64(rem_value(sign_mag(x_neg, x_mag), sign_mag(y_neg, y_mag))),
{
    if y_mag == 0 {
        if x_neg {
            0u64.wrapping_sub(x_mag)
        } else {
            x_mag
        }
    } else {
        let m: u64 = x_mag % y_mag;
        if x_neg {
            0u64.wrapping_sub(m)
        } else {
            m
        }
    }
}

proof fn lemma_high_half(p: u128)
    by (bit_vector)
    ensures
        p >> 64u128 == p / 0x1_0000_0000_0000_0000u128,
        p >> 64u128 <= 0xffff_ffff_ffff_ffffu128,
{
}

/// The upper 64 bits of the 128-bit product of two unsigned numbers.
pub fn mul_high(a: u64, b: u64) -> (r: u64)
    ensures
        r == (a * b) / 0x1_0000_0000_0000_0000,
{
    assert(a * b <= 0xffff_ffff_ffff_ffff * 0xffff_ffff_ffff_ffff) by (nonlinear_arith)
        requires
            a <= 0xffff_ffff_ffff_ffff,
            b <= 0xffff_ffff_ffff_ffff,
    ;
    let p: u128 = (a as u128) * (b as u128);
    proof {
        lemma_high_half(p);
    }
    (p >> 64) as u64
}

} // verus!
