//! The bus: routes an access by its address to the one mapped region, RAM at
//! `DRAM_BASE..=DRAM_END`, and refuses every other address.

use vstd::prelude::*;
use super::dram::{
    image_spec,
    le_bytes,
    le_value,
    lemma_le_bytes_len,
    lemma_le_round_trip,
    pow256,
    read_spec,
    span_ok,
    width_ok,
    write_spec,
    Dram,
};
use super::except::Exception;
use super::param::{DRAM_BASE, DRAM_END, DRAM_SIZE};
use crate::kit::bits::{lemma_zext_is_mod, zext_spec};

verus! {

/// Whether an access of `size` bits at `addr` is served by a bus whose RAM
/// holds `len` bytes: the address is mapped, the width is one of 8, 16, 32
/// and 64, and the bytes accessed all lie in RAM.
pub open spec fn access_ok(len: nat, addr: u64, size: u64) -> bool {
    DRAM_BASE <= addr <= DRAM_END && width_ok(size) && span_ok(len, addr, size)
}

/// The address router in front of RAM.
pub struct Bus {
    dram: Dram,
}

impl View for Bus {
    type V = Seq<u8>;

    /// The bytes of RAM, from address `DRAM_BASE` upwards.
    closed spec fn view(&self) -> Seq<u8> {
        self.dram@
    }
}

impl Bus {
    /// RAM has its full size.
    pub open spec fn wf(&self) -> bool {
        self@.len() == DRAM_SIZE
    }

    /// A bus over fresh RAM that holds `code` at offset 0 and zeros elsewhere.
    pub fn new(code: Vec<u8>) -> (r: Bus)
        requires
            code@.len() <= DRAM_SIZE,
        ensures
            r@ == image_spec(code@),
            r.wf(),
    {
        Self { dram: Dram::new(code) }
    }

    /// Replaces RAM by fresh RAM that holds `new_code` at offset 0 and zeros
    /// elsewhere: nothing of the earlier contents is kept.
    pub fn replace(&mut self, new_code: Vec<u8>)
        requires
            new_code@.len() <= DRAM_SIZE,
        ensures
            final(self)@ == image_spec(new_code@),
            final(self).wf(),
    {
        self.dram = Dram::new(new_code);
    }

    /// Reads `size` bits at `addr`, least significant byte first, or returns
    /// a load access fault that carries `addr`.
    pub fn load(&self, addr: u64, size: u64) -> (r: Result<u64, Exception>)
        ensures
            r == if access_ok(self@.len(), addr, size) {
                Ok::<u64, Exception>(read_spec(self@, addr, size))
            } else {
                Err::<u64, Exception>(Exception::LoadAccessFault(addr))
            },
            !(DRAM_BASE <= addr <= DRAM_END) ==> r == Err::<u64, Exception>(
                Exception::LoadAccessFault(addr),
            ),
    {
        if DRAM_BASE <= addr && addr <= DRAM_END {
            self.dram.load(addr, size)
        } else {
            Err(Exception::LoadAccessFault(addr))
        }
    }

    /// Writes the low `size` bits of `value` at `addr`, least significant
    /// byte first, or changes nothing and returns a store access fault that
    /// carries `addr`.
    pub fn store(&mut self, addr: u64, size: u64, value: u64) -> (r: Result<(), Exception>)
        ensures
            access_ok(old(self)@.len(), addr, size) ==> r == Ok::<(), Exception>(())
                && final(self)@ == write_spec(old(self)@, addr, size, value),
            !access_ok(old(self)@.len(), addr, size) ==> r == Err::<(), Exception>(
                Exception::StoreAMOAccessFault(addr),
            ) && final(self)@ == old(self)@,
            !(DRAM_BASE <= addr <= DRAM_END) ==> r == Err::<(), Exception>(
                Exception::StoreAMOAccessFault(addr),
            ),
            final(self)@.len() == old(self)@.len(),
    {
        if DRAM_BASE <= addr && addr <= DRAM_END {
            self.dram.store(addr, size, value)
        } else {
            Err(Exception::StoreAMOAccessFault(addr))
        }
    }
}

/// A store of width `size` at `addr` followed by a load of the same width at
/// the same address reads the stored value cut to its low `size` bits.
pub proof fn lemma_store_then_load(mem: Seq<u8>, addr: u64, size: u64, value: u64)
    requires
        access_ok(mem.len(), addr, size),
    ensures
        access_ok(write_spec(mem, addr, size, value).len(), addr, size),
        read_spec(write_spec(mem, addr, size, value), addr, size) == zext_spec(value, size as u32),
{
    let n = (size / 8) as nat;
    let off = addr - DRAM_BASE;
    let after = write_spec(mem, addr, size, value);
    lemma_le_bytes_len(value as nat, n);
    lemma_le_round_trip(value as nat, n);
    assert(after.subrange(off, off + n) =~= le_bytes(value as nat, n));
    lemma_zext_is_mod(value);
    reveal_with_fuel(pow256, 9);
    assert(pow256(1) == 0x100 && pow256(2) == 0x1_0000 && pow256(4) == 0x1_0000_0000 && pow256(8)
        == 0x1_0000_0000_0000_0000);
    assert(le_value(after.subrange(off, off + n)) == (value as nat) % pow256(n));
    if size == 8 {
        assert((value as nat) % pow256(n) == value % 0x100);
    } else if size == 16 {
        assert((value as nat) % pow256(n) == value % 0x1_0000);
    } else if size == 32 {
        assert((value as nat) % pow256(n) == value % 0x1_0000_0000);
    } else {
        assert((value as nat) % pow256(n) == value);
    }
}

/// A store changes no byte outside the span that it writes: a load whose
/// span is disjoint from it reads what it read before.
pub proof fn lemma_store_elsewhere(
    mem: Seq<u8>,
    addr: u64,
    size: u64,
    value: u64,
    other: u64,
    other_size: u64,
)
    requires
        access_ok(mem.len(), addr, size),
        access_ok(mem.len(), other, other_size),
        other + other_size / 8 <= addr || addr + size / 8 <= other,
    ensures
        read_spec(write_spec(mem, addr, size, value), other, other_size) == read_spec(
            mem,
            other,
            other_size,
        ),
{
    let after = write_spec(mem, addr, size, value);
    lemma_le_bytes_len(value as nat, (size / 8) as nat);
    let a = other - DRAM_BASE;
    let b = other - DRAM_BASE + other_size / 8;
    assert(after.subrange(a, b) =~= mem.subrange(a, b));
}

} // verus!
