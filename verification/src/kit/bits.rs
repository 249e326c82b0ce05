//! Bit masks, sign and zero extension, and immediate reassembly.

use vstd::prelude::*;
use vstd::arithmetic::power2::{lemma2_to64, lemma_pow2_unfold, pow2};
use vstd::bits::lemma_u64_shl_is_mul;

verus! {

/// The 64-bit pattern `a` read as a two's-complement integer.
pub open spec fn signed64(a: u64) -> int {
    if a < 0x8000_0000_0000_0000 {
        a as int
    } else {
        a - 0x1_0000_0000_0000_0000
    }
}

/// The 64-bit pattern that stands for the integer `x`: `x` modulo 2^64.
pub open spec fn wrap64(x: int) -> u64 {
    (x % 0x1_0000_0000_0000_0000) as u64
}

/// The low `n` bits of `v` read as an `n`-bit two's-complement integer.
pub open spec fn signed_low(v: u64, n: u32) -> int {
    let low = v as int % pow2(n as nat) as int;
    if low >= pow2((n - 1) as nat) {
        low - pow2(n as nat)
    } else {
        low
    }
}

/// The value whose low `n` bits are set and whose other bits are clear.
pub open spec fn mask_spec(n: u32) -> u64 {
    if n >= 64 {
        u64::MAX
    } else {
        ((1u64 << n) - 1) as u64
    }
}

/// `reg` with every bit from position `n` upwards replaced by bit `n - 1`.
pub open spec fn sext_spec(reg: u64, n: u32) -> u64 {
    if (reg >> ((n - 1) as u32)) & 1 != 0 {
        reg | !mask_spec(n)
    } else {
        reg
    }
}

/// `reg` with every bit from position `n` upwards cleared.
pub open spec fn zext_spec(reg: u64, n: u32) -> u64 {
    reg & mask_spec(n)
}

/// Bits `begin..=end` of `inst`, moved down to position 0.
pub open spec fn span_spec(inst: u32, end: u32, begin: u32) -> u32 {
    if end - begin + 1 >= 32 {
        inst >> begin
    } else {
        (inst >> begin) & (((1u32 << ((end - begin + 1) as u32)) - 1) as u32)
    }
}

/// The jump offset spelled by the 20-bit field of a jump instruction: field
/// bit 19 is offset bit 20, field bits 7..=0 are offset bits 19..=12, field
/// bit 8 is offset bit 11, field bits 18..=9 are offset bits 10..=1, and
/// offset bit 0 is clear.
pub open spec fn jimm20_spec(jimm20: u32) -> u64 {
    ((((jimm20 >> 19) & 0x1) as u64) << 20) | (((jimm20 & 0xff) as u64) << 12) | ((((jimm20 >> 8)
        & 0x1) as u64) << 11) | ((((jimm20 >> 9) & 0x3ff) as u64) << 1)
}

/// The 12-bit store offset whose upper seven bits are `imm12hi` and whose
/// lower five bits are `imm12lo`.
pub open spec fn imm12hilo_spec(imm12hi: u32, imm12lo: u32) -> u64 {
    ((imm12hi as u64) << 5) | (imm12lo as u64)
}

/// The branch offset spelled by the two fields of a branch instruction:
/// bit 6 of `bimm12hi` is offset bit 12, bit 0 of `bimm12lo` is offset
/// bit 11, bits 5..=0 of `bimm12hi` are offset bits 10..=5, bits 4..=1 of
/// `bimm12lo` are offset bits 4..=1, and offset bit 0 is clear.
pub open spec fn bimm12hilo_spec(bimm12hi: u32, bimm12lo: u32) -> u64 {
    ((((bimm12hi >> 6) & 0x1) as u64) << 12) | (((bimm12lo & 0x1) as u64) << 11) | (((bimm12hi
        & 0x3f) as u64) << 5) | ((((bimm12lo >> 1) & 0xf) as u64) << 1)
}

/// A 64-bit value with the low `n` bits set; all ones once `n` reaches 64.
pub fn mask(n: u32) -> (r: u64)
    ensures
        r == mask_spec(n),
{
    if n >= 64 {
        u64::MAX
    } else {
        assert((1u64 << n) >= 1) by (bit_vector)
            requires
                n < 64,
        ;
        (1u64 << n) - 1
    }
}

/// Sign-extends the low `n` bits of `reg` to 64 bits: bit `n - 1` is the sign.
pub fn sext(reg: u64, n: u32) -> (r: u64)
    requires
        1 <= n <= 64,
    ensures
        r == sext_spec(reg, n),
{
    let m: u64 = !mask(n);
    let sign: u64 = (reg >> (n - 1)) & 1;
    if sign != 0 {
        reg | m
    } else {
        reg
    }
}

/// Zero-extends the low `n` bits of `reg` to 64 bits.
pub fn zext(reg: u64, n: u32) -> (r: u64)
    ensures
        r == zext_spec(reg, n),
{
    reg & mask(n)
}

/// The mask of the low `n` bits is 2^n - 1.
pub proof fn lemma_mask_is_pow2(n: u32)
    requires
        n <= 64,
    ensures
        mask_spec(n) == pow2(n as nat) - 1,
{
    lemma2_to64();
    if n < 64 {
        vstd::arithmetic::power2::lemma_pow2_pos(n as nat);
        vstd::arithmetic::power2::lemma_pow2_strictly_increases(n as nat, 64);
        lemma_u64_shl_is_mul(1, n as u64);
    }
}

/// Reading a 64-bit pattern as a signed integer and taking the pattern of
/// that integer gives the pattern back; and the other way round for every
/// integer from -2^63 to 2^63 - 1.
pub proof fn lemma_signed_wrap(a: u64, x: int)
    requires
        -0x8000_0000_0000_0000 <= x < 0x8000_0000_0000_0000,
    ensures
        wrap64(signed64(a)) == a,
        signed64(wrap64(x)) == x,
        -0x8000_0000_0000_0000 <= signed64(a) < 0x8000_0000_0000_0000,
{
}

/// Zero extension to 8, 16 or 32 bits is the remainder modulo 2 to that
/// power, and zero extension to 64 bits changes nothing.
pub proof fn lemma_zext_is_mod(v: u64)
    by (bit_vector)
    ensures
        zext_spec(v, 8) == v % 0x100,
        zext_spec(v, 16) == v % 0x1_0000,
        zext_spec(v, 32) == v % 0x1_0000_0000,
        zext_spec(v, 64) == v,
{
}

proof fn lemma_sext_zext_bits(v: u64, n: u32)
    by (bit_vector)
    requires
        1 <= n < 64,
    ensures
        ({
            let m = 1u64 << n;
            let h = 1u64 << ((n - 1) as u32);
            let z = zext_spec(v, n);
            let s = sext_spec(z, n);
            &&& m == 2 * h
            &&& h >= 1
            &&& m >= 2
            &&& z == v & ((m - 1) as u64)
            &&& z < m
            &&& z >= h ==> s == z + (0xffff_ffff_ffff_ffffu64 - m) + 1
            &&& z < h ==> s == z
        }),
{
}

proof fn lemma_sext_zext_full(v: u64)
    by (bit_vector)
    ensures
        sext_spec(zext_spec(v, 64), 64) == v,
        zext_spec(v, 64) == v,
{
}

/// Sign extension after zero extension gives the low `n` bits of `v` read
/// as an `n`-bit two's-complement integer, for every width from 1 to 64.
pub proof fn lemma_sext_zext(v: u64, n: u32)
    requires
        1 <= n <= 64,
    ensures
        signed64(sext_spec(zext_spec(v, n), n)) == signed_low(v, n),
        sext_spec(zext_spec(v, n), n) == wrap64(signed_low(v, n)),
        zext_spec(v, n) == v as int % pow2(n as nat) as int,
{
    lemma2_to64();
    if n == 64 {
        lemma_sext_zext_full(v);
        lemma_pow2_unfold(64);
    } else {
        lemma_sext_zext_bits(v, n);
        lemma_pow2_unfold(n as nat);
        vstd::arithmetic::power2::lemma_pow2_strictly_increases(n as nat, 64);
        vstd::arithmetic::power2::lemma_pow2_strictly_increases((n - 1) as nat, 63);
        lemma_pow2_unfold(64);
        lemma_u64_shl_is_mul(1, n as u64);
        lemma_u64_shl_is_mul(1, (n - 1) as u64);
        vstd::bits::lemma_u64_low_bits_mask_is_mod(v, n as nat);
    }
}

/// Sign extension of a value that fits in `n` bits gives the 64-bit pattern
/// of that value read as an `n`-bit two's-complement integer.
pub proof fn lemma_sext_value(v: u64, n: u32)
    requires
        1 <= n <= 64,
        v < pow2(n as nat),
    ensures
        signed64(sext_spec(v, n)) == signed_low(v, n),
        sext_spec(v, n) == wrap64(signed_low(v, n)),
{
    lemma_sext_zext(v, n);
    vstd::arithmetic::div_mod::lemma_small_mod(v as nat, pow2(n as nat));
}

/// Zero extension of a value that fits in `n` bits changes nothing.
pub proof fn lemma_zext_value(v: u64, n: u32)
    requires
        1 <= n <= 64,
        v < pow2(n as nat),
    ensures
        zext_spec(v, n) == v,
{
    lemma_sext_zext(v, n);
    vstd::arithmetic::div_mod::lemma_small_mod(v as nat, pow2(n as nat));
}

proof fn lemma_upper_bits(f: u64)
    by (bit_vector)
    requires
        f < 0x10_0000,
    ensures
        sext_spec(f, 20) << 12u64 == sext_spec(f << 12u64, 32),
        f << 12u64 == f * 4096,
        f << 12u64 < 0x1_0000_0000,
{
}

/// The sign extension of a 20-bit field, moved up by twelve bits, is the
/// 64-bit pattern of the signed 32-bit number that has the field as its
/// upper 20 bits and zeros below.
pub proof fn lemma_upper_value(f: u64)
    requires
        f < 0x10_0000,
    ensures
        sext_spec(f, 20) << 12u64 == wrap64(signed_low((f * 4096) as u64, 32)),
{
    lemma_upper_bits(f);
    lemma2_to64();
    lemma_sext_value((f * 4096) as u64, 32);
}

/// Extracts bits `begin..=end` of `inst`.
pub fn span(inst: u32, end: u32, begin: u32) -> (r: u32)
    requires
        begin <= end < 32,
    ensures
        r == span_spec(inst, end, begin),
{
    let width: u32 = end - begin + 1;
    if width >= 32 {
        inst >> begin
    } else {
        assert((1u32 << width) >= 1) by (bit_vector)
            requires
                width < 32,
        ;
        let m: u32 = (1u32 << width) - 1;
        (inst >> begin) & m
    }
}

proof fn lemma_span_fields(f: u32)
    by (bit_vector)
    ensures
        (f >> 19u32) & (((1u32 << 1u32) - 1) as u32) == (f >> 19u32) & 0x1,
        (f >> 0u32) & (((1u32 << 8u32) - 1) as u32) == f & 0xff,
        (f >> 8u32) & (((1u32 << 1u32) - 1) as u32) == (f >> 8u32) & 0x1,
        (f >> 9u32) & (((1u32 << 10u32) - 1) as u32) == (f >> 9u32) & 0x3ff,
        (f >> 6u32) & (((1u32 << 1u32) - 1) as u32) == (f >> 6u32) & 0x1,
        (f >> 0u32) & (((1u32 << 1u32) - 1) as u32) == f & 0x1,
        (f >> 0u32) & (((1u32 << 6u32) - 1) as u32) == f & 0x3f,
        (f >> 1u32) & (((1u32 << 4u32) - 1) as u32) == (f >> 1u32) & 0xf,
{
}

proof fn lemma_shift_or_chain(a: u64, b: u64, c: u64, d: u64)
    by (bit_vector)
    ensures
        ((((((a << 8u64) | b) << 1u64) | c) << 10u64) | d) << 1u64 == (a << 20u64) | (b << 12u64)
            | (c << 11u64) | (d << 1u64),
        ((((((a << 1u64) | b) << 6u64) | c) << 4u64) | d) << 1u64 == (a << 12u64) | (b << 11u64)
            | (c << 5u64) | (d << 1u64),
{
}

/// Reassembles the offset of a jump from its 20-bit instruction field.
pub fn from_jimm20(jimm20: u32) -> (r: u64)
    ensures
        r == jimm20_spec(jimm20),
{
    proof {
        lemma_span_fields(jimm20);
    }
    let a: u64 = span(jimm20, 19, 19) as u64;
    let b: u64 = span(jimm20, 7, 0) as u64;
    let c: u64 = span(jimm20, 8, 8) as u64;
    let d: u64 = span(jimm20, 18, 9) as u64;
    proof {
        lemma_shift_or_chain(a, b, c, d);
    }
    let mut r: u64 = a;
    r <<= 8;
    r |= b;
    r <<= 1;
    r |= c;
    r <<= 10;
    r |= d;
    r <<= 1;
    r
}

/// Joins the upper and lower field of a store offset.
pub fn from_imm12hilo(imm12hi: u32, imm12lo: u32) -> (r: u64)
    ensures
        r == imm12hilo_spec(imm12hi, imm12lo),
{
    let mut r: u64 = imm12hi as u64;
    r <<= 5;
    r |= imm12lo as u64;
    r
}

/// Reassembles the offset of a branch from its two instruction fields.
pub fn from_bimm12hilo(bimm12hi: u32, bimm12lo: u32) -> (r: u64)
    ensures
        r == bimm12hilo_spec(bimm12hi, bimm12lo),
{
    proof {
        lemma_span_fields(bimm12hi);
        lemma_span_fields(bimm12lo);
    }
    let a: u64 = span(bimm12hi, 6, 6) as u64;
    let b: u64 = span(bimm12lo, 0, 0) as u64;
    let c: u64 = span(bimm12hi, 5, 0) as u64;
    let d: u64 = span(bimm12lo, 4, 1) as u64;
    proof {
        lemma_shift_or_chain(a, b, c, d);
    }
    let mut r: u64 = a;
    r <<= 1;
    r |= b;
    r <<= 6;
    r |= c;
    r <<= 4;
    r |= d;
    r <<= 1;
    r
}

} // verus!
