//! The memory that the ARM7, and the sound hardware beside it, fetches from: main RAM and the ARM7's
//! private work RAM, each mirrored through its window.

use vstd::prelude::*;
use crate::bits::{align2, align4};

verus! {

/// Main RAM, at `0x0200_0000`.
pub const MAIN_RAM_SIZE: usize = 0x40_0000;

/// The ARM7's own work RAM, at `0x0380_0000`.
pub const ARM7_WRAM_SIZE: usize = 0x1_0000;

/// Which core sees which half of the shared work RAM.
#[derive(Debug, Clone, Copy, PartialEq, Eq, Structural)]
pub enum WramSplit {
    /// Both halves belong to the ARM9.
    AllArm9,
    /// The ARM9 has the second half.
    UpperArm9,
    /// The ARM9 has the first half.
    LowerArm9,
    /// Both halves belong to the ARM7.
    AllArm7,
}

#[derive(Debug, Clone)]
pub struct NdsMemory {
    pub main: Vec<u8>,
    pub wram: Vec<u8>,
}

/// What the ARM7 sees.
#[verifier::ext_equal]
pub struct MemoryState {
    pub main: Seq<u8>,
    pub wram: Seq<u8>,
}

impl View for NdsMemory {
    type V = MemoryState;

    open spec fn view(&self) -> MemoryState {
        MemoryState { main: self.main@, wram: self.wram@ }
    }
}

impl MemoryState {
    pub open spec fn wf(self) -> bool {
        self.main.len() == MAIN_RAM_SIZE && self.wram.len() == ARM7_WRAM_SIZE
    }

    /// The byte at an address, where there is memory.
    pub open spec fn byte(self, addr: u32) -> Option<u8> {
        if 0x0200_0000 <= addr < 0x0300_0000 {
            Some(self.main[addr as int % 0x40_0000])
        } else if 0x0380_0000 <= addr < 0x0400_0000 {
            Some(self.wram[addr as int % 0x1_0000])
        } else {
            None
        }
    }

    /// The byte that a fetch gets: zero where there is no memory.
    pub open spec fn fetch8(self, addr: u32) -> u8 {
        match self.byte(addr) {
            Some(byte) => byte,
            None => 0,
        }
    }

    /// The halfword that holds an address.
    pub open spec fn fetch16(self, addr: u32) -> u16 {
        let at = align2(addr);
        (self.fetch8(at) + 0x100 * self.fetch8((at + 1) as u32)) as u16
    }

    /// The word that holds an address.
    pub open spec fn fetch32(self, addr: u32) -> u32 {
        let at = align4(addr);
        (self.fetch16(at) + 0x1_0000 * self.fetch16((at + 2) as u32)) as u32
    }

    /// Memory with a byte written. A write where there is no memory is dropped.
    pub open spec fn written(self, addr: u32, value: u8) -> MemoryState {
        if 0x0200_0000 <= addr < 0x0300_0000 {
            MemoryState { main: self.main.update(addr as int % 0x40_0000, value), ..self }
        } else if 0x0380_0000 <= addr < 0x0400_0000 {
            MemoryState { wram: self.wram.update(addr as int % 0x1_0000, value), ..self }
        } else {
            self
        }
    }
}

impl NdsMemory {
    /// Zeroed memory.
    pub fn new() -> (r: Self)
        ensures
            r@.wf(),
            r@ == (MemoryState {
                main: Seq::new(MAIN_RAM_SIZE as nat, |i: int| 0u8),
                wram: Seq::new(ARM7_WRAM_SIZE as nat, |i: int| 0u8),
            }),
    {
        let r = NdsMemory { main: vec![0u8;MAIN_RAM_SIZE], wram: vec![0u8;ARM7_WRAM_SIZE] };
        assert(r@.main =~= Seq::new(MAIN_RAM_SIZE as nat, |i: int| 0u8));
        assert(r@.wram =~= Seq::new(ARM7_WRAM_SIZE as nat, |i: int| 0u8));
        r
    }

    pub fn read8_arm7(&self, addr: u32) -> (r: Option<u8>)
        requires
            self@.wf(),
        ensures
            r == self@.byte(addr),
    {
        if 0x0200_0000 <= addr && addr < 0x0300_0000 {
            Some(self.main[(addr % 0x40_0000) as usize])
        } else if 0x0380_0000 <= addr && addr < 0x0400_0000 {
            Some(self.wram[(addr % 0x1_0000) as usize])
        } else {
            None
        }
    }

    pub fn write8_arm7(&mut self, addr: u32, value: u8)
        requires
            old(self)@.wf(),
        ensures
            final(self)@.wf(),
            final(self)@ == old(self)@.written(addr, value),
    {
        if 0x0200_0000 <= addr && addr < 0x0300_0000 {
            self.main.set((addr % 0x40_0000) as usize, value);
        } else if 0x0380_0000 <= addr && addr < 0x0400_0000 {
            self.wram.set((addr % 0x1_0000) as usize, value);
        }
    }

    pub fn fetch8(&self, addr: u32) -> (r: u8)
        requires
            self@.wf(),
        ensures
            r == self@.fetch8(addr),
    {
        match self.read8_arm7(addr) {
            Some(byte) => byte,
            None => 0,
        }
    }

    pub fn fetch16(&self, addr: u32) -> (r: u16)
        requires
            self@.wf(),
        ensures
            r == self@.fetch16(addr),
    {
        let at = align2(addr);
        self.fetch8(at) as u16 + 0x100 * self.fetch8(at + 1) as u16
    }

    pub fn fetch32(&self, addr: u32) -> (r: u32)
        requires
            self@.wf(),
        ensures
            r == self@.fetch32(addr),
    {
        let at = align4(addr);
        self.fetch16(at) as u32 + 0x1_0000 * self.fetch16(at + 2) as u32
    }
}

impl Default for NdsMemory {
    fn default() -> (r: Self)
        ensures
            r@.wf(),
            r@ == (MemoryState {
                main: Seq::new(MAIN_RAM_SIZE as nat, |i: int| 0u8),
                wram: Seq::new(ARM7_WRAM_SIZE as nat, |i: int| 0u8),
            }),
    {
        NdsMemory::new()
    }
}

/// Memory is mirrored through its window: main RAM every 4 MiB of the sixteen from `0x0200_0000` on, and
/// the work RAM every 64 KiB of the eight MiB from `0x0380_0000` on. A byte that is written reads back at
/// every mirror of its address and at no other address.
pub proof fn law_memory_is_mirrored(m: MemoryState, addr: u32, value: u8, other: u32)
    requires
        m.wf(),
    ensures
        ({
            let after = m.written(addr, value);
            let main = |a: u32| 0x0200_0000 <= a < 0x0300_0000;
            let work = |a: u32| 0x0380_0000 <= a < 0x0400_0000;
            &&& main(addr) && main(other) && (addr - other) % 0x40_0000 == 0 ==> after.byte(other) == Some(
                value,
            )
            &&& work(addr) && work(other) && (addr - other) % 0x1_0000 == 0 ==> after.byte(other) == Some(
                value,
            )
            &&& main(addr) && main(other) && (addr - other) % 0x40_0000 != 0 ==> after.byte(other)
                == m.byte(other)
            &&& work(addr) && work(other) && (addr - other) % 0x1_0000 != 0 ==> after.byte(other) == m.byte(
                other,
            )
            &&& main(addr) != main(other) ==> after.byte(other) == m.byte(other)
            &&& !main(other) && !work(other) ==> after.byte(other) is None && after.fetch8(other) == 0
            &&& after.wf()
        }),
{
}

/// A fetch of a word gives the four bytes from the word's address on, the lowest first, and one of a
/// halfword the two.
pub proof fn law_fetches_are_lowest_byte_first(m: MemoryState, addr: u32)
    requires
        addr < 0xFFFF_FFF0,
    ensures
        ({
            let w = (addr - addr % 4) as u32;
            let h = (addr - addr % 2) as u32;
            &&& m.fetch32(addr) == m.fetch8(w) + 0x100 * m.fetch8((w + 1) as u32) + 0x1_0000 * m.fetch8(
                (w + 2) as u32,
            ) + 0x100_0000 * m.fetch8((w + 3) as u32)
            &&& m.fetch16(addr) == m.fetch8(h) + 0x100 * m.fetch8((h + 1) as u32)
        }),
{
    let w = (addr - addr % 4) as u32;
    assert((w + 2) % 2 == 0 && w % 2 == 0);
    assert(m.fetch16(w) == m.fetch8(w) + 0x100 * m.fetch8((w + 1) as u32));
    assert(m.fetch16((w + 2) as u32) == m.fetch8((w + 2) as u32) + 0x100 * m.fetch8((w + 3) as u32));
}

} // verus!
