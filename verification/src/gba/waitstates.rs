//! Memory access timing: `WAITCNT` and the cost of a bus access in each region.
//!
//! A ROM access that follows on from the previous address is faster than one that jumps, and a word
//! access to a 16-bit bus is two accesses, the second of which is always sequential. With the
//! prefetch buffer on, a sequential instruction fetch that follows another fetch finds its word
//! already there.

use vstd::prelude::*;
use crate::gba::memory::Region;
use crate::state::{self, StateError, StateReader, StateWriter};

verus! {

pub const WAITCNT: u32 = 0x0400_0204;

/// Whether an access follows on from the previous one.
#[derive(Debug, Clone, Copy, PartialEq, Eq, Structural)]
pub enum Access {
    /// The address continues from the last one, so the cartridge bus keeps its latch.
    Sequential,
    NonSequential,
}

/// First-access wait states, by the two-bit setting; the save chip has the same ones.
#[verifier::allow_in_spec]
pub fn first_wait(setting: u16) -> u32
    returns
        (if setting == 0 {
            4u32
        } else if setting == 1 {
            3
        } else if setting == 2 {
            2
        } else {
            8
        }),
{
    if setting == 0 {
        4
    } else if setting == 1 {
        3
    } else if setting == 2 {
        2
    } else {
        8
    }
}

/// Sequential wait states of a ROM window. The fast setting makes every window the same.
#[verifier::allow_in_spec]
pub fn sequential_wait(window: u8, fast: bool) -> u32
    returns
        (if fast {
            1u32
        } else if window == 0 {
            2
        } else if window == 1 {
            4
        } else {
            8
        }),
{
    if fast {
        1
    } else if window == 0 {
        2
    } else if window == 1 {
        4
    } else {
        8
    }
}

#[derive(Debug, Clone, Copy, PartialEq, Eq, Structural)]
pub struct WaitControl {
    pub value: u16,
    /// Whether the prefetch buffer is currently ahead of the CPU. Set by a code fetch from ROM;
    /// cleared by anything else that touches the bus.
    pub prefetch_primed: bool,
}

/// How many bytes the register saves.
pub open spec fn saved_size() -> int {
    2
}

impl WaitControl {
    /// The first-access setting of a ROM window.
    fn rom_first(&self, window: u8) -> (r: u16)
        ensures
            r == rom_first_of(self.value, window),
    {
        if window == 0 {
            self.value / 4 % 4
        } else if window == 1 {
            self.value / 0x20 % 4
        } else {
            self.value / 0x100 % 4
        }
    }

    /// Whether a ROM window has the fast sequential setting.
    fn rom_fast(&self, window: u8) -> (r: bool)
        ensures
            r == rom_fast_of(self.value, window),
    {
        if window == 0 {
            self.value / 0x10 % 2 == 1
        } else if window == 1 {
            self.value / 0x80 % 2 == 1
        } else {
            self.value / 0x400 % 2 == 1
        }
    }

    /// Bit 14: the game pak prefetch buffer.
    fn prefetch_enabled(&self) -> (r: bool)
        ensures
            r == (self.value / 0x4000 % 2 == 1),
    {
        self.value / 0x4000 % 2 == 1
    }

    /// What one halfword of ROM costs.
    pub open spec fn rom_cost(self, window: u8, access: Access) -> int {
        match access {
            Access::Sequential => 1 + sequential_wait(window, rom_fast_of(self.value, window)),
            Access::NonSequential => 1 + first_wait(rom_first_of(self.value, window)),
        }
    }

    /// Cycles that an access costs, including the one that every access takes.
    pub open spec fn price(self, addr: u32, width: u32, access: Access, is_fetch: bool) -> int {
        let wide = width == 4;
        match Region::of(addr) {
            Region::Rom { wait_state } => {
                if is_fetch && access == Access::Sequential && self.value / 0x4000 % 2 == 1
                    && self.prefetch_primed {
                    1
                } else if wide {
                    self.rom_cost(wait_state, access) + self.rom_cost(
                        wait_state,
                        Access::Sequential,
                    )
                } else {
                    self.rom_cost(wait_state, access)
                }
            },
            Region::IWram | Region::Io | Region::Bios | Region::Oam | Region::Unmapped => 1,
            Region::EWram => if wide { 6 } else { 3 },
            Region::Palette | Region::Vram => if wide { 2 } else { 1 },
            Region::Sram => 1 + first_wait(self.value % 4),
        }
    }

    /// What an access leaves of the buffer: it is ahead after a code fetch from ROM, and after
    /// nothing else.
    pub open spec fn after(self, addr: u32, is_fetch: bool) -> WaitControl {
        WaitControl {
            prefetch_primed: Region::of(addr) is Rom && is_fetch && self.value / 0x4000 % 2 == 1,
            ..self
        }
    }

    /// The register after reading the stream at `at`. A buffer is not saved: it is empty once the
    /// whole of the register was there.
    pub open spec fn restored(self, d: Seq<u8>, limit: int, at: int) -> WaitControl {
        WaitControl {
            value: state::or16(d, limit, at, self.value),
            prefetch_primed: if at + 2 <= limit { false } else { self.prefetch_primed },
        }
    }

    /// Whether the stream holds exactly this register at `at`, with the buffer empty.
    pub open spec fn encoded_at(self, d: Seq<u8>, at: int) -> bool {
        &&& at + saved_size() <= d.len()
        &&& self.restored(d, d.len() as int, at) == (WaitControl { prefetch_primed: false, ..self })
    }

    pub fn new() -> (r: Self)
        ensures
            r == (WaitControl { value: 0, prefetch_primed: false }),
    {
        WaitControl { value: 0, prefetch_primed: false }
    }

    pub fn owns(addr: u32) -> (r: bool)
        ensures
            r == (WAITCNT <= addr < WAITCNT + 4),
    {
        WAITCNT <= addr && addr < WAITCNT + 4
    }

    pub fn read16(&self) -> (r: u16)
        ensures
            r == self.value,
    {
        self.value
    }

    pub fn write16(&mut self, value: u16)
        ensures
            *final(self) == (WaitControl { value, ..*old(self) }),
    {
        self.value = value;
    }

    /// Cycles that an access to `addr` costs, including the one that every access takes.
    ///
    /// `width` is 1, 2, or 4 bytes. `is_fetch` is whether this access is the CPU fetching its next
    /// instruction; only a fetch can prime or hit the prefetch buffer.
    pub fn cost(&mut self, addr: u32, width: u32, access: Access, is_fetch: bool) -> (r: u32)
        ensures
            r == old(self).price(addr, width, access, is_fetch),
            *final(self) == old(self).after(addr, is_fetch),
    {
        let wide = width == 4;
        match Region::of(addr) {
            Region::Rom { wait_state } => {
                let hits_buffer = is_fetch && access == Access::Sequential
                    && self.prefetch_enabled() && self.prefetch_primed;
                let first = 1 + first_wait(self.rom_first(wait_state));
                let sequential = 1 + sequential_wait(wait_state, self.rom_fast(wait_state));
                let one = match access {
                    Access::Sequential => sequential,
                    Access::NonSequential => first,
                };
                // Any code fetch leaves the buffer free to walk ahead from here, whether or not it
                // hit the buffer itself.
                self.prefetch_primed = is_fetch && self.prefetch_enabled();
                if hits_buffer {
                    1
                } else if wide {
                    one + sequential
                } else {
                    one
                }
            },
            region => {
                // Anything that is not a ROM access breaks the run that the buffer was following.
                self.prefetch_primed = false;
                match region {
                    // 16-bit bus, two wait states, so a word costs twice.
                    Region::EWram => if wide {
                        6
                    } else {
                        3
                    },
                    // 16-bit bus but no wait state, so only a word costs extra.
                    Region::Palette | Region::Vram => if wide {
                        2
                    } else {
                        1
                    },
                    // The save chip is 8 bits wide: every access is one byte.
                    Region::Sram => 1 + first_wait(self.value % 4),
                    _ => 1,
                }
            },
        }
    }

    pub fn save(&self, w: &mut StateWriter)
        ensures
            state::continues(old(w)@, final(w)@),
            final(w)@.len() == old(w)@.len() + saved_size(),
            self.encoded_at(final(w)@, old(w)@.len() as int),
    {
        w.write_u16(self.value);
    }

    pub fn load(&mut self, r: &mut StateReader) -> (result: Result<(), StateError>)
        ensures
            *final(self) == old(self).restored(old(r).data(), old(r).limit(), old(r).pos() as int),
            state::advanced(*old(r), *final(r), saved_size()),
            result == state::verdict(*final(r)),
    {
        self.value = r.u16_or(self.value);
        if !r.failed() {
            self.prefetch_primed = false;
        }
        r.status()
    }
}

/// The first-access setting of a ROM window.
pub open spec fn rom_first_of(value: u16, window: u8) -> u16 {
    if window == 0 {
        value / 4 % 4
    } else if window == 1 {
        value / 0x20 % 4
    } else {
        value / 0x100 % 4
    }
}

/// Whether a ROM window has the fast sequential setting.
pub open spec fn rom_fast_of(value: u16, window: u8) -> bool {
    if window == 0 {
        value / 0x10 % 2 == 1
    } else if window == 1 {
        value / 0x80 % 2 == 1
    } else {
        value / 0x400 % 2 == 1
    }
}

impl Default for WaitControl {
    fn default() -> (r: Self)
        ensures
            r == (WaitControl { value: 0, prefetch_primed: false }),
    {
        WaitControl::new()
    }
}

/// A register that was saved comes back, with the buffer empty, whatever it is read into.
pub proof fn law_save_then_load(saved: WaitControl, before: WaitControl, d: Seq<u8>, at: int)
    requires
        0 <= at,
        saved.encoded_at(d, at),
    ensures
        before.restored(d, d.len() as int, at) == (WaitControl { prefetch_primed: false, ..saved }),
{
}

/// Every access takes at least one cycle and no more than eighteen.
pub proof fn law_no_access_is_free(
    wait: WaitControl,
    addr: u32,
    width: u32,
    access: Access,
    is_fetch: bool,
)
    ensures
        1 <= wait.price(addr, width, access, is_fetch) <= 18,
{
}

/// The second half of a word access to ROM is sequential, whatever the first was.
pub proof fn law_the_second_half_is_sequential(wait: WaitControl, addr: u32, access: Access)
    requires
        Region::of(addr) is Rom,
    ensures
        wait.price(addr, 4, access, false) == wait.price(addr, 2, access, false) + wait.price(
            addr,
            2,
            Access::Sequential,
            false,
        ),
{
}

/// A sequential fetch right after another fetch from ROM costs one cycle while the buffer is on; a
/// data access in between makes it pay in full.
pub proof fn law_the_buffer_follows_fetches(
    wait: WaitControl,
    before: u32,
    addr: u32,
    width: u32,
)
    requires
        Region::of(before) is Rom,
        Region::of(addr) is Rom,
        wait.value / 0x4000 % 2 == 1,
    ensures
        wait.after(before, true).price(addr, width, Access::Sequential, true) == 1,
        wait.after(before, false).price(addr, width, Access::Sequential, true) > 1,
{
}

/// With the bit clear a fetch costs what a data access costs.
pub proof fn law_the_buffer_does_nothing_when_off(
    wait: WaitControl,
    addr: u32,
    width: u32,
    access: Access,
)
    requires
        wait.value / 0x4000 % 2 == 0,
    ensures
        wait.price(addr, width, access, true) == wait.price(addr, width, access, false),
{
}

/// An access to the cartridge costs one cycle and the wait states that its window's setting names: 4, 3,
/// 2 or 8 for one that jumps; and for one that follows on 1 where the fast bit is set, else 2, 4 or 8 by
/// window. The windows are 32 MiB each from `0x0800_0000` on.
pub proof fn law_cartridge_waits_go_by_setting(wait: WaitControl, addr: u32, window: int)
    requires
        0 <= window < 3,
        0x0800_0000 + 0x200_0000 * window <= addr < 0x0800_0000 + 0x200_0000 * (window + 1),
    ensures
        ({
            let v = wait.value;
            let (first, fast) = if window == 0 {
                (v / 4 % 4, v / 16 % 2 == 1)
            } else if window == 1 {
                (v / 32 % 4, v / 128 % 2 == 1)
            } else {
                (v / 256 % 4, v / 1024 % 2 == 1)
            };
            let jump = wait.price(addr, 2, Access::NonSequential, false);
            let follow = wait.price(addr, 2, Access::Sequential, false);
            &&& first == 0 ==> jump == 5
            &&& first == 1 ==> jump == 4
            &&& first == 2 ==> jump == 3
            &&& first == 3 ==> jump == 9
            &&& fast ==> follow == 2
            &&& !fast && window == 0 ==> follow == 3
            &&& !fast && window == 1 ==> follow == 5
            &&& !fast && window == 2 ==> follow == 9
        }),
{
    if window == 0 {
        assert(Region::of(addr) == Region::Rom { wait_state: 0 });
    } else if window == 1 {
        assert(Region::of(addr) == Region::Rom { wait_state: 1 });
    } else {
        assert(Region::of(addr) == Region::Rom { wait_state: 2 });
    }
}

/// The other regions: the slow work RAM costs three cycles for each half of an access, palette and video
/// memory one, the save chip what the low two bits name, and the rest one whatever the width.
pub proof fn law_other_regions_have_fixed_costs(
    wait: WaitControl,
    addr: u32,
    width: u32,
    access: Access,
    is_fetch: bool,
)
    ensures
        ({
            let cost = wait.price(addr, width, access, is_fetch);
            let halves = if width == 4 { 2int } else { 1 };
            &&& 0x0200_0000 <= addr < 0x0300_0000 ==> cost == 3 * halves
            &&& 0x0300_0000 <= addr < 0x0500_0000 ==> cost == 1
            &&& 0x0500_0000 <= addr < 0x0700_0000 ==> cost == halves
            &&& addr < 0x0100_0000 || 0x0700_0000 <= addr < 0x0800_0000 ==> cost == 1
            &&& 0x0E00_0000 <= addr < 0x1000_0000 ==> cost == (if wait.value % 4 == 3 {
                9
            } else {
                5 - wait.value % 4
            })
        }),
{
}

} // verus!
