//! The memory that a core sees.
//!
//! A read may change what it reads from, as a FIFO does, so every access is a step from one state
//! of the bus to the next.

use vstd::prelude::*;

verus! {

/// Byte, halfword and word accesses, as one core makes them.
pub trait Bus: Sized {
    /// Everything that an access can depend on.
    type State;

    spec fn state(&self) -> Self::State;

    /// What a read of each width answers.
    spec fn byte(s: Self::State, addr: u32) -> u8;

    spec fn half(s: Self::State, addr: u32) -> u16;

    spec fn word(s: Self::State, addr: u32) -> u32;

    /// What a read of each width leaves behind.
    spec fn after_read8(s: Self::State, addr: u32) -> Self::State;

    spec fn after_read16(s: Self::State, addr: u32) -> Self::State;

    spec fn after_read32(s: Self::State, addr: u32) -> Self::State;

    /// What a write of each width leaves behind.
    spec fn after_write8(s: Self::State, addr: u32, value: u8) -> Self::State;

    spec fn after_write16(s: Self::State, addr: u32, value: u16) -> Self::State;

    spec fn after_write32(s: Self::State, addr: u32, value: u32) -> Self::State;

    fn read8(&mut self, addr: u32) -> (r: u8)
        ensures
            r == Self::byte(old(self).state(), addr),
            final(self).state() == Self::after_read8(old(self).state(), addr),
    ;

    fn read16(&mut self, addr: u32) -> (r: u16)
        ensures
            r == Self::half(old(self).state(), addr),
            final(self).state() == Self::after_read16(old(self).state(), addr),
    ;

    fn read32(&mut self, addr: u32) -> (r: u32)
        ensures
            r == Self::word(old(self).state(), addr),
            final(self).state() == Self::after_read32(old(self).state(), addr),
    ;

    fn write8(&mut self, addr: u32, value: u8)
        ensures
            final(self).state() == Self::after_write8(old(self).state(), addr, value),
    ;

    fn write16(&mut self, addr: u32, value: u16)
        ensures
            final(self).state() == Self::after_write16(old(self).state(), addr, value),
    ;

    fn write32(&mut self, addr: u32, value: u32)
        ensures
            final(self).state() == Self::after_write32(old(self).state(), addr, value),
    ;
}

/// Flat memory with nothing behind it: reads past the end see zero, and writes there are dropped.
#[derive(Debug)]
pub struct FlatBus {
    pub bytes: Vec<u8>,
}

/// The byte at an address of flat memory.
pub open spec fn flat_byte(s: Seq<u8>, addr: u32) -> u8 {
    if addr < s.len() { s[addr as int] } else { 0 }
}

/// The little-endian halfword at an address of flat memory.
pub open spec fn flat_half(s: Seq<u8>, addr: u32) -> u16 {
    (flat_byte(s, addr) + 0x100 * flat_byte(s, addr.wrapping_add(1))) as u16
}

/// Flat memory after a byte was written.
pub open spec fn flat_written(s: Seq<u8>, addr: u32, value: u8) -> Seq<u8> {
    if addr < s.len() { s.update(addr as int, value) } else { s }
}

/// Flat memory after a halfword was written, low byte first.
pub open spec fn flat_written16(s: Seq<u8>, addr: u32, value: u16) -> Seq<u8> {
    flat_written(
        flat_written(s, addr, (value % 0x100) as u8),
        addr.wrapping_add(1),
        (value / 0x100) as u8,
    )
}

impl FlatBus {
    /// Zeroed memory.
    pub fn new(size: usize) -> (r: Self)
        ensures
            r.bytes@ == Seq::new(size as nat, |i: int| 0u8),
    {
        let r = FlatBus { bytes: vec![0u8;size] };
        assert(r.bytes@ =~= Seq::new(size as nat, |i: int| 0u8));
        r
    }
}

impl Bus for FlatBus {
    type State = Seq<u8>;

    open spec fn state(&self) -> Seq<u8> {
        self.bytes@
    }

    open spec fn byte(s: Seq<u8>, addr: u32) -> u8 {
        flat_byte(s, addr)
    }

    open spec fn half(s: Seq<u8>, addr: u32) -> u16 {
        flat_half(s, addr)
    }

    open spec fn word(s: Seq<u8>, addr: u32) -> u32 {
        (flat_half(s, addr) + 0x1_0000 * flat_half(s, addr.wrapping_add(2))) as u32
    }

    open spec fn after_read8(s: Seq<u8>, addr: u32) -> Seq<u8> {
        s
    }

    open spec fn after_read16(s: Seq<u8>, addr: u32) -> Seq<u8> {
        s
    }

    open spec fn after_read32(s: Seq<u8>, addr: u32) -> Seq<u8> {
        s
    }

    open spec fn after_write8(s: Seq<u8>, addr: u32, value: u8) -> Seq<u8> {
        flat_written(s, addr, value)
    }

    open spec fn after_write16(s: Seq<u8>, addr: u32, value: u16) -> Seq<u8> {
        flat_written16(s, addr, value)
    }

    open spec fn after_write32(s: Seq<u8>, addr: u32, value: u32) -> Seq<u8> {
        flat_written16(
            flat_written16(s, addr, (value % 0x1_0000) as u16),
            addr.wrapping_add(2),
            (value / 0x1_0000) as u16,
        )
    }

    fn read8(&mut self, addr: u32) -> (r: u8) {
        if (addr as usize) < self.bytes.len() {
            self.bytes[addr as usize]
        } else {
            0
        }
    }

    fn read16(&mut self, addr: u32) -> (r: u16) {
        let low = self.read8(addr);
        let high = self.read8(addr.wrapping_add(1));
        low as u16 + 0x100 * high as u16
    }

    fn read32(&mut self, addr: u32) -> (r: u32) {
        let low = self.read16(addr);
        let high = self.read16(addr.wrapping_add(2));
        low as u32 + 0x1_0000 * high as u32
    }

    fn write8(&mut self, addr: u32, value: u8) {
        if (addr as usize) < self.bytes.len() {
            self.bytes[addr as usize] = value;
        }
    }

    fn write16(&mut self, addr: u32, value: u16) {
        self.write8(addr, (value % 0x100) as u8);
        self.write8(addr.wrapping_add(1), (value / 0x100) as u8);
    }

    fn write32(&mut self, addr: u32, value: u32) {
        self.write16(addr, (value % 0x1_0000) as u16);
        self.write16(addr.wrapping_add(2), (value / 0x1_0000) as u16);
    }
}

/// Flat memory reads back what was written to it.
pub proof fn law_flat_memory_reads_back(s: Seq<u8>, addr: u32, value: u8)
    requires
        addr < s.len(),
    ensures
        flat_byte(flat_written(s, addr, value), addr) == value,
        forall|other: u32| other != addr ==> #[trigger] flat_byte(flat_written(s, addr, value), other)
            == flat_byte(s, other),
{
}

} // verus!
