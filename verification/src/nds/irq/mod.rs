//! The two interrupt controllers: `IE`, `IF`, and `IME`, one set per core.
//!
//! The two cores do not have the same sources: the low bits mean the same on both, and above bit 15
//! they diverge. `IF` is acknowledged by writing ones, so a narrow write must leave the rest alone.

pub mod reg;
pub mod sources;

use vstd::prelude::*;
use crate::bits::{align4, byte_at, half_at, with_byte, with_half};
use crate::nds::Core;
use crate::state::{self, StateError, StateReader, StateWriter};

verus! {

/// Where each core takes an interrupt. The ARM9 runs with high vectors.
pub const ARM9_IRQ_VECTOR: u32 = 0xFFFF_0018;

pub const ARM7_IRQ_VECTOR: u32 = 0x0000_0018;

/// One core's `IE`, `IF`, and `IME`.
#[derive(Debug, Clone, Copy, PartialEq, Eq, Structural)]
pub struct InterruptController {
    pub core: Core,
    pub enable: u32,
    pub flags: u32,
    /// The master switch, distinct from the CPU's own `I` bit; both must allow it.
    pub master_enable: bool,
}

/// How many bytes a controller saves.
pub open spec fn saved_size() -> int {
    9
}

impl InterruptController {
    /// A register as it reads.
    pub open spec fn word(self, addr: u32) -> Option<u32> {
        if align4(addr) == reg::IME {
            Some(if self.master_enable { 1u32 } else { 0 })
        } else if align4(addr) == reg::IE {
            Some(self.enable)
        } else if align4(addr) == reg::IF {
            Some(self.flags)
        } else {
            None
        }
    }

    /// Some flags acknowledged.
    pub open spec fn acknowledged(self, ones: u32) -> InterruptController {
        InterruptController { flags: self.flags & !ones, ..self }
    }

    /// A whole register written.
    pub open spec fn written(self, addr: u32, value: u32) -> InterruptController {
        if align4(addr) == reg::IME {
            InterruptController { master_enable: value % 2 == 1, ..self }
        } else if align4(addr) == reg::IE {
            InterruptController { enable: value & sources::valid(self.core), ..self }
        } else if align4(addr) == reg::IF {
            self.acknowledged(value)
        } else {
            self
        }
    }

    /// Half a register written. The other half of `IF` is left alone.
    pub open spec fn written16(self, addr: u32, value: u16) -> InterruptController {
        match self.word(addr) {
            None => self,
            Some(current) => if align4(addr) == reg::IF {
                self.acknowledged(with_half(0, addr, value))
            } else {
                self.written(addr, with_half(current, addr, value))
            },
        }
    }

    /// A byte of a register written. The other bytes of `IF` are left alone.
    pub open spec fn written8(self, addr: u32, value: u8) -> InterruptController {
        match self.word(addr) {
            None => self,
            Some(current) => if align4(addr) == reg::IF {
                self.acknowledged(with_byte(0, addr, value))
            } else {
                self.written(addr, with_byte(current, addr, value))
            },
        }
    }

    /// Sources raised. One that this core does not have is dropped.
    pub open spec fn raised(self, sources: u32) -> InterruptController {
        InterruptController { flags: self.flags | (sources & sources::valid(self.core)), ..self }
    }

    /// The controller after reading the stream at `at`, as far as `limit` lets it be read.
    pub open spec fn restored(self, d: Seq<u8>, limit: int, at: int) -> InterruptController {
        InterruptController {
            core: self.core,
            enable: state::or32(d, limit, at, self.enable),
            flags: state::or32(d, limit, at + 4, self.flags),
            master_enable: state::or_bool(d, limit, at + 8, self.master_enable),
        }
    }

    /// Whether the stream holds exactly this controller at `at`.
    pub open spec fn encoded_at(self, d: Seq<u8>, at: int) -> bool {
        at + saved_size() <= d.len() && self.restored(d, d.len() as int, at) == self
    }

    /// Everything disabled and nothing flagged.
    #[verifier::allow_in_spec]
    pub fn new(core: Core) -> Self
        returns
            (InterruptController { core, enable: 0, flags: 0, master_enable: false }),
    {
        InterruptController { core, enable: 0, flags: 0, master_enable: false }
    }

    pub fn which_core(&self) -> (r: Core)
        ensures
            r == self.core,
    {
        self.core
    }

    /// Whether this address is one of the three registers.
    pub fn owns(addr: u32) -> (r: bool)
        ensures
            r == (align4(addr) == reg::IME || align4(addr) == reg::IE || align4(addr) == reg::IF),
    {
        let word = align4(addr);
        word == reg::IME || word == reg::IE || word == reg::IF
    }

    /// Raise one or more sources.
    ///
    /// A source that this core does not have is dropped. `IE` gates dispatch, not recording, so a
    /// disabled but valid source still sets its `IF` bit.
    pub fn raise(&mut self, sources: u32)
        ensures
            *final(self) == old(self).raised(sources),
    {
        self.flags = self.flags | (sources & sources::valid(self.core));
    }

    /// Whether this core should take an interrupt now. The CPU's own `I` bit is not consulted.
    pub fn pending(&self) -> (r: bool)
        ensures
            r == (self.master_enable && self.enable & self.flags != 0),
    {
        self.master_enable && (self.enable & self.flags) != 0
    }

    /// The sources both enabled and flagged.
    pub fn active(&self) -> (r: u32)
        ensures
            r == self.enable & self.flags,
    {
        self.enable & self.flags
    }

    pub fn flags(&self) -> (r: u32)
        ensures
            r == self.flags,
    {
        self.flags
    }

    pub fn read32(&self, addr: u32) -> (r: Option<u32>)
        ensures
            r == self.word(addr),
    {
        let word = align4(addr);
        if word == reg::IME {
            Some(if self.master_enable { 1 } else { 0 })
        } else if word == reg::IE {
            Some(self.enable)
        } else if word == reg::IF {
            Some(self.flags)
        } else {
            None
        }
    }

    pub fn write32(&mut self, addr: u32, value: u32) -> (r: bool)
        ensures
            *final(self) == old(self).written(addr, value),
            r == (old(self).word(addr) is Some),
    {
        let word = align4(addr);
        if word == reg::IME {
            self.master_enable = value % 2 == 1;
        } else if word == reg::IE {
            self.enable = value & sources::valid(self.core);
        } else if word == reg::IF {
            // Ones acknowledge.
            self.flags = self.flags & !value;
        } else {
            return false;
        }
        true
    }

    /// A halfword access, which is how `IME` is usually written.
    pub fn read16(&self, addr: u32) -> (r: Option<u16>)
        ensures
            r == (match self.word(addr) {
                Some(word) => Some(half_at(word, addr)),
                None => None,
            }),
    {
        match self.read32(addr) {
            Some(word) => Some(half_at(word, addr)),
            None => None,
        }
    }

    pub fn write16(&mut self, addr: u32, value: u16) -> (r: bool)
        ensures
            *final(self) == old(self).written16(addr, value),
            r == (old(self).word(addr) is Some),
    {
        match self.read32(addr) {
            None => false,
            Some(current) => {
                if align4(addr) == reg::IF {
                    // Writing back the half that was read would acknowledge everything in it.
                    self.flags = self.flags & !with_half(0, addr, value);
                    true
                } else {
                    self.write32(addr, with_half(current, addr, value))
                }
            },
        }
    }

    pub fn read8(&self, addr: u32) -> (r: Option<u8>)
        ensures
            r == (match self.word(addr) {
                Some(word) => Some(byte_at(word, addr)),
                None => None,
            }),
    {
        match self.read32(addr) {
            Some(word) => Some(byte_at(word, addr)),
            None => None,
        }
    }

    pub fn write8(&mut self, addr: u32, value: u8) -> (r: bool)
        ensures
            *final(self) == old(self).written8(addr, value),
            r == (old(self).word(addr) is Some),
    {
        match self.read32(addr) {
            None => false,
            Some(current) => {
                if align4(addr) == reg::IF {
                    self.flags = self.flags & !with_byte(0, addr, value);
                    true
                } else {
                    self.write32(addr, with_byte(current, addr, value))
                }
            },
        }
    }

    /// Everything back to zero; the controller stays its core's.
    pub fn reset(&mut self)
        ensures
            *final(self) == (InterruptController {
                core: old(self).core,
                enable: 0,
                flags: 0,
                master_enable: false,
            }),
    {
        self.enable = 0;
        self.flags = 0;
        self.master_enable = false;
    }

    pub fn save(&self, w: &mut StateWriter)
        ensures
            state::continues(old(w)@, final(w)@),
            final(w)@.len() == old(w)@.len() + saved_size(),
            self.encoded_at(final(w)@, old(w)@.len() as int),
    {
        w.write_u32(self.enable);
        w.write_u32(self.flags);
        w.write_bool(self.master_enable);
    }

    pub fn load(&mut self, r: &mut StateReader) -> (result: Result<(), StateError>)
        ensures
            *final(self) == old(self).restored(old(r).data(), old(r).limit(), old(r).pos() as int),
            state::advanced(*old(r), *final(r), saved_size()),
            result == state::verdict(*final(r)),
    {
        self.enable = r.u32_or(self.enable);
        self.flags = r.u32_or(self.flags);
        self.master_enable = r.bool_or(self.master_enable);
        r.status()
    }
}

/// A controller that was saved comes back whole, read into any controller of the same core.
pub proof fn law_save_then_load(
    saved: InterruptController,
    before: InterruptController,
    d: Seq<u8>,
    at: int,
)
    requires
        0 <= at,
        saved.core == before.core,
        saved.encoded_at(d, at),
    ensures
        before.restored(d, d.len() as int, at) == saved,
{
}

/// Acknowledging clears the bits that are written as ones, and no others.
pub proof fn law_ones_acknowledge(c: InterruptController, value: u32)
    ensures
        c.written(reg::IF, value).flags & value == 0,
        c.written(reg::IF, value).flags & !value == c.flags & !value,
        c.written(reg::IF, 0) == c,
{
    let flags = c.flags;
    lemma_masks(flags, value, 0, 0, 0, 0);
}

/// A narrow write to `IF` leaves the rest of the word alone.
pub proof fn law_a_narrow_acknowledge_is_narrow(c: InterruptController, half: u16, byte: u8)
    ensures
        c.written16(reg::IF, half).flags & 0xFFFF_0000 == c.flags & 0xFFFF_0000,
        c.written8(reg::IF, byte).flags & 0xFFFF_FF00 == c.flags & 0xFFFF_FF00,
{
    let flags = c.flags;
    lemma_masks(flags, 0, half, byte, 0, 0);
}

/// A source that the core does not have is neither recorded nor enabled; one that it has is
/// recorded whether or not it is enabled.
pub proof fn law_only_own_sources(c: InterruptController, bits: u32)
    ensures
        c.raised(bits).flags & !sources::valid(c.core) == c.flags & !sources::valid(c.core),
        c.raised(bits).flags & (bits & sources::valid(c.core)) == bits & sources::valid(c.core),
        c.raised(bits).enable == c.enable,
        c.written(reg::IE, bits).enable & !sources::valid(c.core) == 0,
{
    let flags = c.flags;
    let mask = sources::valid(c.core);
    lemma_masks(flags, 0, 0, 0, bits, mask);
}

/// Nothing is pending while the master switch is off.
pub proof fn law_the_master_switch_stops_everything(c: InterruptController, value: u32)
    requires
        value % 2 == 0,
    ensures
        !c.written(reg::IME, value).master_enable,
{
}

/// Clearing and setting by a mask.
proof fn lemma_masks(flags: u32, value: u32, half: u16, byte: u8, bits: u32, mask: u32)
    ensures
        (flags & !value) & value == 0,
        (flags & !value) & !value == flags & !value,
        flags & !0u32 == flags,
        (flags & !(half as u32)) & 0xFFFF_0000 == flags & 0xFFFF_0000,
        (flags & !(byte as u32)) & 0xFFFF_FF00 == flags & 0xFFFF_FF00,
        (flags | (bits & mask)) & !mask == flags & !mask,
        (flags | (bits & mask)) & (bits & mask) == bits & mask,
        (bits & mask) & !mask == 0,
{
    assert((flags & !value) & value == 0 && (flags & !value) & !value == flags & !value && flags & !0u32
        == flags && (flags & !(half as u32)) & 0xFFFF_0000 == flags & 0xFFFF_0000 && (flags & !(
    byte as u32)) & 0xFFFF_FF00 == flags & 0xFFFF_FF00 && (flags | (bits & mask)) & !mask == flags
        & !mask && (flags | (bits & mask)) & (bits & mask) == bits & mask && (bits & mask) & !mask == 0)
        by (bit_vector);
}

} // verus!
