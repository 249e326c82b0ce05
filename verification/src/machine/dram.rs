//! The backing store: a byte array mapped at `DRAM_BASE`, read and written
//! in little-endian order.

use vstd::prelude::*;
use super::except::Exception;
use super::param::{DRAM_BASE, DRAM_SIZE};

verus! {

/// 256 to the power `n`.
pub open spec fn pow256(n: nat) -> nat
    decreases n,
{
    if n == 0 {
        1
    } else {
        256 * pow256((n - 1) as nat)
    }
}

/// The number that `bytes` spell, least significant byte first.
pub open spec fn le_value(bytes: Seq<u8>) -> nat
    decreases bytes.len(),
{
    if bytes.len() == 0 {
        0
    } else {
        bytes[0] as nat + 256 * le_value(bytes.subrange(1, bytes.len() as int))
    }
}

/// The `n` lowest bytes of `value`, least significant byte first.
pub open spec fn le_bytes(value: nat, n: nat) -> Seq<u8>
    decreases n,
{
    if n == 0 {
        Seq::empty()
    } else {
        seq![(value % 256) as u8] + le_bytes(value / 256, (n - 1) as nat)
    }
}

/// A fresh memory image: `code` at offset 0, zeros up to `DRAM_SIZE` bytes.
pub open spec fn image_spec(code: Seq<u8>) -> Seq<u8> {
    Seq::new(DRAM_SIZE as nat, |i: int| if i < code.len() { code[i] } else { 0u8 })
}

/// The access widths, in bits, that the store serves.
pub open spec fn width_ok(size: u64) -> bool {
    size == 8 || size == 16 || size == 32 || size == 64
}

/// Whether the `size / 8` bytes at address `addr` lie inside a store of
/// `len` bytes mapped at `DRAM_BASE`.
pub open spec fn span_ok(len: nat, addr: u64, size: u64) -> bool {
    DRAM_BASE <= addr && addr - DRAM_BASE + size / 8 <= len
}

/// What a load of `size` bits at `addr` reads from `mem`.
pub open spec fn read_spec(mem: Seq<u8>, addr: u64, size: u64) -> u64 {
    le_value(mem.subrange(addr - DRAM_BASE, addr - DRAM_BASE + size / 8)) as u64
}

/// `mem` after a store of the low `size` bits of `value` at `addr`.
pub open spec fn write_spec(mem: Seq<u8>, addr: u64, size: u64, value: u64) -> Seq<u8> {
    mem.subrange(0, addr - DRAM_BASE) + le_bytes(value as nat, (size / 8) as nat) + mem.subrange(
        addr - DRAM_BASE + size / 8,
        mem.len() as int,
    )
}

/// The bytes of a value take as many places as were asked for.
pub proof fn lemma_le_bytes_len(value: nat, n: nat)
    ensures
        le_bytes(value, n).len() == n,
    decreases n,
{
    if n > 0 {
        lemma_le_bytes_len(value / 256, (n - 1) as nat);
    }
}

/// The number that `n` bytes spell is below 256 to the power `n`.
pub proof fn lemma_le_value_bound(bytes: Seq<u8>)
    ensures
        le_value(bytes) < pow256(bytes.len()),
    decreases bytes.len(),
{
    if bytes.len() > 0 {
        lemma_le_value_bound(bytes.subrange(1, bytes.len() as int));
    }
}

/// Reading back the `n` lowest bytes of a value gives the value modulo
/// 256 to the power `n`.
pub proof fn lemma_le_round_trip(value: nat, n: nat)
    ensures
        le_value(le_bytes(value, n)) == value % pow256(n),
    decreases n,
{
    if n == 0 {
        assert(le_bytes(value, n).len() == 0);
    } else {
        let m = (n - 1) as nat;
        let s = le_bytes(value, n);
        let tail = le_bytes(value / 256, m);
        lemma_le_bytes_len(value / 256, m);
        lemma_le_round_trip(value / 256, m);
        assert(s.subrange(1, s.len() as int) =~= tail);
        assert(s[0] == (value % 256) as u8);
        lemma_pow256_pos(m);
        vstd::arithmetic::div_mod::lemma_mod_breakdown(value as int, 256, pow256(m) as int);
    }
}

/// 256 to any power is positive.
pub proof fn lemma_pow256_pos(n: nat)
    ensures
        pow256(n) > 0,
    decreases n,
{
    if n > 0 {
        lemma_pow256_pos((n - 1) as nat);
    }
}

/// What a load reads fits the width that was asked for.
pub proof fn lemma_read_fits(mem: Seq<u8>, addr: u64, size: u64)
    requires
        width_ok(size),
        span_ok(mem.len(), addr, size),
    ensures
        read_spec(mem, addr, size) == le_value(
            mem.subrange(addr - DRAM_BASE, addr - DRAM_BASE + size / 8),
        ),
        read_spec(mem, addr, size) < vstd::arithmetic::power2::pow2(size as nat),
{
    lemma_le_value_bound(mem.subrange(addr - DRAM_BASE, addr - DRAM_BASE + size / 8));
    reveal_with_fuel(pow256, 9);
    vstd::arithmetic::power2::lemma2_to64();
}

/// RAM: a contiguous byte array whose first byte has address `DRAM_BASE`.
pub struct Dram {
    pub dram: Vec<u8>,
}

impl View for Dram {
    type V = Seq<u8>;

    open spec fn view(&self) -> Seq<u8> {
        self.dram@
    }
}

impl Dram {
    /// The store has its full size.
    pub open spec fn wf(&self) -> bool {
        self@.len() == DRAM_SIZE
    }

    /// A zeroed store of `DRAM_SIZE` bytes with `code` copied to offset 0.
    pub fn new(code: Vec<u8>) -> (r: Dram)
        requires
            code@.len() <= DRAM_SIZE,
        ensures
            r@ == image_spec(code@),
            r.wf(),
    {
        let mut dram: Vec<u8> = vec![0u8; DRAM_SIZE as usize];
        let n: usize = code.len();
        let mut i: usize = 0;
        while i < n
            invariant
                n == code@.len(),
                n <= DRAM_SIZE,
                i <= n,
                dram@.len() == DRAM_SIZE,
                forall|k: int| 0 <= k < i ==> dram@[k] == code@[k],
                forall|k: int| i <= k < DRAM_SIZE ==> dram@[k] == 0u8,
            decreases n - i,
        {
            dram.set(i, code[i]);
            i += 1;
        }
        assert(dram@ =~= image_spec(code@));
        Dram { dram }
    }

    /// Reads `size` bits at `addr`, least significant byte first. A width
    /// other than 8, 16, 32 or 64, or a span that leaves the store, is a
    /// load access fault at `addr`.
    pub fn load(&self, addr: u64, size: u64) -> (r: Result<u64, Exception>)
        ensures
            r == if width_ok(size) && span_ok(self@.len(), addr, size) {
                Ok::<u64, Exception>(read_spec(self@, addr, size))
            } else {
                Err::<u64, Exception>(Exception::LoadAccessFault(addr))
            },
    {
        if !(size == 8 || size == 16 || size == 32 || size == 64) {
            return Err(Exception::LoadAccessFault(addr));
        }
        let nbytes: u64 = size / 8;
        let len: usize = self.dram.len();
        if addr < DRAM_BASE || addr - DRAM_BASE > len as u64 || nbytes > len as u64 - (addr
            - DRAM_BASE) {
            return Err(Exception::LoadAccessFault(addr));
        }
        let index: usize = (addr - DRAM_BASE) as usize;
        let n: usize = nbytes as usize;
        let mut code: u64 = 0;
        let mut j: usize = n;
        proof {
            reveal_with_fuel(pow256, 9);
            assert(self@.subrange(index + j, index + n).len() == 0);
        }
        while j > 0
            invariant
                j <= n <= 8,
                index + n <= len == self.dram@.len(),
                code == le_value(self@.subrange(index + j, index + n)),
            decreases j,
        {
            j -= 1;
            proof {
                reveal_with_fuel(pow256, 9);
                let tail = self@.subrange(index + j + 1, index + n);
                let cur = self@.subrange(index + j, index + n);
                lemma_le_value_bound(tail);
                lemma_le_value_bound(cur);
                assert(cur.subrange(1, cur.len() as int) =~= tail);
                assert(cur[0] == self@[index + j]);
            }
            code = code * 256 + self.dram[index + j] as u64;
        }
        Ok(code)
    }

    /// Writes the low `size` bits of `value` at `addr`, least significant
    /// byte first. A width other than 8, 16, 32 or 64, or a span that leaves
    /// the store, is a store access fault at `addr` and changes nothing.
    pub fn store(&mut self, addr: u64, size: u64, value: u64) -> (r: Result<(), Exception>)
        ensures
            width_ok(size) && span_ok(old(self)@.len(), addr, size) ==> r == Ok::<(), Exception>(())
                && final(self)@ == write_spec(old(self)@, addr, size, value),
            !(width_ok(size) && span_ok(old(self)@.len(), addr, size)) ==> r == Err::<
                (),
                Exception,
            >(Exception::StoreAMOAccessFault(addr)) && final(self)@ == old(self)@,
            final(self)@.len() == old(self)@.len(),
    {
        if !(size == 8 || size == 16 || size == 32 || size == 64) {
            return Err(Exception::StoreAMOAccessFault(addr));
        }
        let nbytes: u64 = size / 8;
        let len: usize = self.dram.len();
        if addr < DRAM_BASE || addr - DRAM_BASE > len as u64 || nbytes > len as u64 - (addr
            - DRAM_BASE) {
            return Err(Exception::StoreAMOAccessFault(addr));
        }
        let index: usize = (addr - DRAM_BASE) as usize;
        let n: usize = nbytes as usize;
        let mut rest: u64 = value;
        let mut i: usize = 0;
        while i < n
            invariant
                i <= n <= 8,
                index + n <= len == self.dram@.len(),
                self.dram@.len() == old(self).dram@.len(),
                forall|k: int| 0 <= k < index ==> self.dram@[k] == old(self).dram@[k],
                forall|k: int|
                    index + i <= k < self.dram@.len() ==> self.dram@[k] == old(self).dram@[k],
                le_bytes(value as nat, n as nat) == self.dram@.subrange(index as int, index + i)
                    + le_bytes(rest as nat, (n - i) as nat),
            decreases n - i,
        {
            let byte: u8 = (rest % 256) as u8;
            proof {
                let before = self.dram@.subrange(index as int, index + i);
                let after = self.dram@.update(index + i, byte).subrange(index as int, index + i + 1);
                assert(after =~= before + seq![byte]);
                assert(before + (seq![byte] + le_bytes((rest / 256) as nat, (n - i - 1) as nat))
                    =~= (before + seq![byte]) + le_bytes((rest / 256) as nat, (n - i - 1) as nat));
            }
            self.dram.set(index + i, byte);
            rest = rest / 256;
            i += 1;
        }
        proof {
            lemma_le_bytes_len(value as nat, n as nat);
            assert(le_bytes(rest as nat, 0) =~= Seq::<u8>::empty());
            assert(self.dram@ =~= write_spec(old(self)@, addr, size, value));
        }
        Ok(())
    }
}

} // verus!
