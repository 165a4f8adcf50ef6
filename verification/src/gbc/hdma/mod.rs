//! VRAM DMA, behind `HDMA1` to `HDMA5`.
//!
//! General-purpose DMA copies everything at once; HBlank DMA copies sixteen bytes at the start of
//! each horizontal blank. The controller decides what to copy and when, and hands the block back.

pub mod reg;

use vstd::prelude::*;
use crate::fault::Fault;
use crate::state::{self, StateError, StateReader, StateWriter};

verus! {

/// Bytes moved per HBlank, and the granularity of the length field.
pub const BLOCK_BYTES: u16 = 16;

/// A block of bytes for the caller to copy.
#[derive(Debug, Clone, Copy, PartialEq, Eq, Structural)]
pub struct Block {
    /// Absolute address to read from.
    pub source: u16,
    /// Absolute address to write to; always inside VRAM.
    pub destination: u16,
    pub length: u16,
}

/// Which transfer is running.
#[derive(Debug, Clone, Copy, PartialEq, Eq, Structural)]
pub enum Mode {
    Idle,
    /// Copy everything now, stalling the CPU.
    GeneralPurpose,
    /// Copy one block per HBlank.
    HBlank,
}

/// The VRAM DMA controller.
#[derive(Debug, Clone, Copy, PartialEq, Eq, Structural)]
pub struct Hdma {
    pub source: u16,
    pub destination: u16,
    /// Blocks still to copy, minus one; the same encoding that `HDMA5` uses.
    pub remaining: u8,
    pub mode: Mode,
}

/// How many bytes the controller saves.
pub open spec fn saved_size() -> int {
    6
}

/// The mode that a byte of a stream stands for.
pub open spec fn mode_of(byte: u8) -> Option<Mode> {
    if byte == 0 {
        Some(Mode::Idle)
    } else if byte == 1 {
        Some(Mode::GeneralPurpose)
    } else if byte == 2 {
        Some(Mode::HBlank)
    } else {
        None
    }
}

/// What reading a controller does to a reader.
pub open spec fn load_error(r: StateReader) -> Option<StateError> {
    if r.pos() + 6 > r.limit() {
        Some(r.end_error())
    } else if mode_of(r.data()[r.pos() as int + 5]) is None {
        Some(StateError::Malformed(Fault::HdmaMode(r.data()[r.pos() as int + 5])))
    } else {
        None
    }
}

impl Hdma {
    /// A register as it reads. `HDMA5` is low in bit 7 while a transfer is active; the others are
    /// write-only.
    pub open spec fn byte(self, addr: u16) -> Option<u8> {
        if addr == reg::HDMA5 {
            Some(
                if self.mode == Mode::Idle {
                    0xFF
                } else {
                    (self.remaining % 0x80) as u8
                },
            )
        } else if reg::HDMA1 <= addr <= reg::HDMA4 {
            Some(0xFF)
        } else {
            None
        }
    }

    /// Whether a write to `HDMA5` cancels a running HBlank transfer, which the bit pattern of a
    /// general-purpose start does.
    pub open spec fn cancels(self, value: u8) -> bool {
        value < 0x80 && self.mode == Mode::HBlank
    }

    /// `HDMA5` written.
    pub open spec fn started(self, value: u8) -> Hdma {
        if self.cancels(value) {
            Hdma { mode: Mode::Idle, ..self }
        } else {
            Hdma {
                remaining: (value % 0x80) as u8,
                mode: if value >= 0x80 { Mode::HBlank } else { Mode::GeneralPurpose },
                ..self
            }
        }
    }

    /// A register written. The source is 16-byte aligned and the destination inside VRAM, whatever
    /// is written.
    pub open spec fn written(self, addr: u16, value: u8) -> Hdma {
        if addr == reg::HDMA1 {
            Hdma { source: (self.source % 0x100 + value * 0x100) as u16, ..self }
        } else if addr == reg::HDMA2 {
            Hdma {
                source: (self.source - self.source % 0x100 + (value - value % 16)) as u16,
                ..self
            }
        } else if addr == reg::HDMA3 {
            Hdma {
                destination: (self.destination % 0x100 + value % 0x20 * 0x100) as u16,
                ..self
            }
        } else if addr == reg::HDMA4 {
            Hdma {
                destination: (self.destination - self.destination % 0x100 + (value - value % 16)) as u16,
                ..self
            }
        } else if addr == reg::HDMA5 {
            self.started(value)
        } else {
            self
        }
    }

    /// The block that is due.
    pub open spec fn block(self) -> Block {
        Block {
            source: self.source,
            destination: (0x8000 + self.destination % 0x2000) as u16,
            length: BLOCK_BYTES,
        }
    }

    /// The controller once that block is taken.
    pub open spec fn taken(self) -> Hdma {
        if self.mode == Mode::Idle {
            self
        } else {
            Hdma {
                source: self.source.wrapping_add(BLOCK_BYTES),
                destination: self.destination.wrapping_add(BLOCK_BYTES),
                remaining: if self.remaining == 0 { 0 } else { (self.remaining - 1) as u8 },
                mode: if self.remaining == 0 { Mode::Idle } else { self.mode },
            }
        }
    }

    /// The controller once `n` blocks are taken.
    pub open spec fn taken_times(self, n: nat) -> Hdma
        decreases n,
    {
        if n == 0 { self } else { self.taken().taken_times((n - 1) as nat) }
    }

    /// The controller after reading the stream at `at`, as far as `limit` lets it be read. A mode
    /// that does not exist is not taken over.
    pub open spec fn restored(self, d: Seq<u8>, limit: int, at: int) -> Hdma {
        Hdma {
            source: state::or16(d, limit, at, self.source),
            destination: state::or16(d, limit, at + 2, self.destination),
            remaining: state::or8(d, limit, at + 4, self.remaining),
            mode: if at + 6 <= limit {
                match mode_of(d[at + 5]) {
                    Some(mode) => mode,
                    None => self.mode,
                }
            } else {
                self.mode
            },
        }
    }

    /// Whether the stream holds exactly this controller at `at`.
    pub open spec fn encoded_at(self, d: Seq<u8>, at: int) -> bool {
        &&& at + saved_size() <= d.len()
        &&& mode_of(d[at + 5]) == Some(self.mode)
        &&& self.restored(d, d.len() as int, at) == self
    }

    pub fn new() -> (r: Self)
        ensures
            r == (Hdma { source: 0, destination: 0, remaining: 0, mode: Mode::Idle }),
    {
        Hdma { source: 0, destination: 0, remaining: 0, mode: Mode::Idle }
    }

    pub fn owns(addr: u16) -> (r: bool)
        ensures
            r == (reg::HDMA1 <= addr <= reg::HDMA5),
    {
        reg::HDMA1 <= addr && addr <= reg::HDMA5
    }

    /// Whether an HBlank transfer is waiting for the next horizontal blank.
    pub fn is_hblank_pending(&self) -> (r: bool)
        ensures
            r == (self.mode == Mode::HBlank),
    {
        self.mode == Mode::HBlank
    }

    /// Only `HDMA5` reads back.
    pub fn read_register(&self, addr: u16) -> (r: Option<u8>)
        ensures
            r == self.byte(addr),
    {
        if addr == reg::HDMA5 {
            Some(
                if self.mode == Mode::Idle {
                    0xFF
                } else {
                    self.remaining % 0x80
                },
            )
        } else if reg::HDMA1 <= addr && addr <= reg::HDMA4 {
            Some(0xFF)
        } else {
            None
        }
    }

    /// Returns `Some(true)` when the write launched a general-purpose transfer, which the caller
    /// must complete at once by draining [`Hdma::take_block`].
    pub fn write_register(&mut self, addr: u16, value: u8) -> (r: Option<bool>)
        ensures
            *final(self) == old(self).written(addr, value),
            r == (if old(self).byte(addr) is None {
                None
            } else {
                Some(addr == reg::HDMA5 && value < 0x80 && !old(self).cancels(value))
            }),
    {
        if addr == reg::HDMA1 {
            self.source = self.source % 0x100 + value as u16 * 0x100;
        } else if addr == reg::HDMA2 {
            self.source = self.source - self.source % 0x100 + (value - value % 16) as u16;
        } else if addr == reg::HDMA3 {
            self.destination = self.destination % 0x100 + (value % 0x20) as u16 * 0x100;
        } else if addr == reg::HDMA4 {
            self.destination = self.destination - self.destination % 0x100 + (value - value % 16) as u16;
        } else if addr == reg::HDMA5 {
            return Some(self.start(value));
        } else {
            return None;
        }
        Some(false)
    }

    /// Handle a write to `HDMA5`.
    fn start(&mut self, value: u8) -> (r: bool)
        ensures
            *final(self) == old(self).started(value),
            r == (value < 0x80 && !old(self).cancels(value)),
    {
        let hblank = value >= 0x80;
        // A game that cancels a streaming transfer and one that begins a blocking copy write the
        // same bit pattern, and only the current mode tells them apart.
        if !hblank && self.mode == Mode::HBlank {
            self.mode = Mode::Idle;
            return false;
        }
        self.remaining = value % 0x80;
        self.mode = if hblank { Mode::HBlank } else { Mode::GeneralPurpose };
        !hblank
    }

    /// The next block to copy, advancing the transfer.
    ///
    /// Call it repeatedly for a general-purpose transfer and exactly once per HBlank for a streaming
    /// one.
    pub fn take_block(&mut self) -> (r: Option<Block>)
        ensures
            r == (if old(self).mode == Mode::Idle { None } else { Some(old(self).block()) }),
            *final(self) == old(self).taken(),
    {
        if self.mode == Mode::Idle {
            return None;
        }
        let block = Block {
            source: self.source,
            // Kept as an offset inside VRAM and based again on every block, so a transfer that
            // runs past the end of VRAM wraps within it.
            destination: 0x8000 + self.destination % 0x2000,
            length: BLOCK_BYTES,
        };
        self.source = self.source.wrapping_add(BLOCK_BYTES);
        self.destination = self.destination.wrapping_add(BLOCK_BYTES);
        if self.remaining == 0 {
            self.mode = Mode::Idle;
        } else {
            self.remaining = self.remaining - 1;
        }
        Some(block)
    }

    pub fn save(&self, w: &mut StateWriter)
        ensures
            state::continues(old(w)@, final(w)@),
            final(w)@.len() == old(w)@.len() + saved_size(),
            self.encoded_at(final(w)@, old(w)@.len() as int),
    {
        w.write_u16(self.source);
        w.write_u16(self.destination);
        w.write_u8(self.remaining);
        w.write_u8(
            match self.mode {
                Mode::Idle => 0,
                Mode::GeneralPurpose => 1,
                Mode::HBlank => 2,
            },
        );
    }

    pub fn load(&mut self, r: &mut StateReader) -> (result: Result<(), StateError>)
        ensures
            *final(self) == old(self).restored(old(r).data(), old(r).limit(), old(r).pos() as int),
            final(r).data() == old(r).data(),
            final(r).error() == load_error(*old(r)),
            final(r).error() is None ==> final(r).pos() == old(r).pos() + saved_size(),
            result == state::verdict(*final(r)),
    {
        self.source = r.u16_or(self.source);
        self.destination = r.u16_or(self.destination);
        self.remaining = r.u8_or(self.remaining);
        let mode = r.u8_or(0);
        if !r.failed() {
            if mode == 0 {
                self.mode = Mode::Idle;
            } else if mode == 1 {
                self.mode = Mode::GeneralPurpose;
            } else if mode == 2 {
                self.mode = Mode::HBlank;
            } else {
                r.reject(Fault::HdmaMode(mode));
            }
        }
        r.status()
    }
}

impl Default for Hdma {
    fn default() -> (r: Self)
        ensures
            r == (Hdma { source: 0, destination: 0, remaining: 0, mode: Mode::Idle }),
    {
        Hdma::new()
    }
}

/// A controller that was saved comes back whole, whatever it is read into.
pub proof fn law_save_then_load(saved: Hdma, before: Hdma, d: Seq<u8>, at: int)
    requires
        0 <= at,
        saved.encoded_at(d, at),
    ensures
        before.restored(d, d.len() as int, at) == saved,
{
}

/// Every block lands inside VRAM, wherever the transfer has got to.
pub proof fn law_blocks_land_in_vram(h: Hdma)
    ensures
        0x8000 <= h.block().destination < 0xA000,
{
}

/// Blocks are 16-byte aligned at both ends: the controller comes up so, and neither a write nor a
/// block taken changes it.
#[verifier::rlimit(30)]
pub proof fn law_blocks_are_aligned(h: Hdma, addr: u16, value: u8)
    requires
        h.source % 16 == 0,
        h.destination % 16 == 0,
    ensures
        h.block().source % 16 == 0,
        h.block().destination % 16 == 0,
        h.written(addr, value).source % 16 == 0,
        h.written(addr, value).destination % 16 == 0,
        h.taken().source % 16 == 0,
        h.taken().destination % 16 == 0,
{
    lemma_joined_bytes_are_aligned(h.source, value);
    lemma_joined_bytes_are_aligned(h.destination, value);
    lemma_joined_bytes_are_aligned(h.destination, value % 0x20);
}

/// Either byte of an aligned address can be replaced.
proof fn lemma_joined_bytes_are_aligned(address: u16, value: u8)
    requires
        address % 16 == 0,
    ensures
        (address % 0x100 + value * 0x100) % 16 == 0,
        (address - address % 0x100 + (value - value % 16)) % 16 == 0,
        0 <= address - address % 0x100 + (value - value % 16) < 0x10000,
{
    let low = address % 0x100;
    let high = address / 0x100;
    assert(address == high * 0x100 + low);
    assert(value == 16 * (value / 16) + value % 16);
}

/// A transfer has one block more than its length field says, and then it is over.
pub proof fn law_a_transfer_is_its_length_and_one(h: Hdma, value: u8, n: nat)
    requires
        !h.cancels(value),
    ensures
        (h.started(value).taken_times(n).mode == Mode::Idle) == (n > value % 0x80),
{
    lemma_blocks_left(h.started(value), n);
}

/// A running transfer goes on for as many blocks as remain, and one.
proof fn lemma_blocks_left(h: Hdma, n: nat)
    ensures
        h.mode != Mode::Idle ==> (h.taken_times(n).mode == Mode::Idle) == (n > h.remaining),
        h.mode == Mode::Idle ==> h.taken_times(n) == h,
    decreases n,
{
    if n > 0 {
        lemma_blocks_left(h.taken(), (n - 1) as nat);
    }
}

/// The controller with its four pointer registers written, high bytes first, and then its length
/// and mode.
#[verifier::opaque]
pub open spec fn programmed(h: Hdma, source: u16, destination: u16, value: u8) -> Hdma {
    h.written(reg::HDMA1, (source / 0x100) as u8).written(
        reg::HDMA2,
        (source % 0x100) as u8,
    ).written(reg::HDMA3, (destination / 0x100) as u8).written(
        reg::HDMA4,
        (destination % 0x100) as u8,
    ).written(reg::HDMA5, value)
}

/// Each block advances both pointers: block `k` of a transfer comes from 16 `k` bytes past the
/// aligned source, and lands 16 `k` bytes past the aligned destination, wrapping inside VRAM. After
/// the last block there is nothing left to take.
pub proof fn law_each_block_advances_both_pointers(
    h: Hdma,
    source: u16,
    destination: u16,
    value: u8,
    k: nat,
)
    requires
        !h.cancels(value),
    ensures
        ({
            let after = programmed(h, source, destination, value).taken_times(k);
            &&& k <= value % 0x80 ==> after.mode != Mode::Idle && after.block() == (Block {
                source: ((source - source % 16 + 16 * k) % 0x1_0000) as u16,
                destination: (0x8000 + (destination % 0x2000 - destination % 16 + 16 * k)
                    % 0x2000) as u16,
                length: 16,
            })
            &&& k > value % 0x80 ==> after.mode == Mode::Idle && after.byte(reg::HDMA5) == Some(
                0xFFu8,
            )
        }),
{
    lemma_programmed(h, source, destination, value);
    let start = programmed(h, source, destination, value);
    lemma_blocks_left(start, k);
    if k <= value % 0x80 {
        lemma_pointers_advance(start, k);
        lemma_wraps_inside(start.destination + 16 * k);
    }
}

/// What the registers hold once they are written.
proof fn lemma_programmed(h: Hdma, source: u16, destination: u16, value: u8)
    requires
        !h.cancels(value),
    ensures
        programmed(h, source, destination, value) == (Hdma {
            source: (source - source % 16) as u16,
            destination: (destination % 0x2000 - destination % 16) as u16,
            remaining: (value % 0x80) as u8,
            mode: if value >= 0x80 { Mode::HBlank } else { Mode::GeneralPurpose },
        }),
{
    reveal(programmed);
    let two = h.written(reg::HDMA1, (source / 0x100) as u8).written(
        reg::HDMA2,
        (source % 0x100) as u8,
    );
    lemma_source_written(h, source);
    lemma_destination_written(two, destination);
}

proof fn lemma_source_written(h: Hdma, source: u16)
    ensures
        h.written(reg::HDMA1, (source / 0x100) as u8).written(
            reg::HDMA2,
            (source % 0x100) as u8,
        ) == (Hdma { source: (source - source % 16) as u16, ..h }),
{
    lemma_joined(h.source, source, 0x100);
}

proof fn lemma_destination_written(h: Hdma, destination: u16)
    ensures
        h.written(reg::HDMA3, (destination / 0x100) as u8).written(
            reg::HDMA4,
            (destination % 0x100) as u8,
        ) == (Hdma { destination: (destination % 0x2000 - destination % 16) as u16, ..h }),
{
    lemma_joined(h.destination, destination, 0x20);
}

/// Writing the high byte of an address and then the low one replaces it, but for the high bits that
/// are not there and the low ones that are ignored.
proof fn lemma_joined(before: u16, address: u16, highs: int)
    requires
        highs == 0x20 || highs == 0x100,
    ensures
        ({
            let high = (address / 0x100) as u8;
            let low = (address % 0x100) as u8;
            let first = before % 0x100 + high as int % highs * 0x100;
            &&& 0 <= first < 0x1_0000
            &&& first - first % 0x100 + (low - low % 16) == address as int % (highs * 0x100)
                - address % 16
        }),
{
    let high = address as int / 0x100;
    let low = address as int % 0x100;
    assert(address == high * 0x100 + low);
    let first = before % 0x100 + high % highs * 0x100;
    assert(first - first % 0x100 == high % highs * 0x100);
    if highs == 0x20 {
        assert(address as int % 0x2000 == high % 0x20 * 0x100 + low);
    } else {
        assert(address as int % 0x1_0000 == high * 0x100 + low);
    }
}

/// Offsets that wrap at the size of an address space wrap inside VRAM as well.
proof fn lemma_wraps_inside(x: int)
    requires
        0 <= x,
    ensures
        x % 0x1_0000 % 0x2000 == x % 0x2000,
{
}

/// Where the pointers are after `k` blocks of a transfer that is still running.
proof fn lemma_pointers_advance(h: Hdma, k: nat)
    requires
        h.mode != Mode::Idle,
        k <= h.remaining,
    ensures
        h.taken_times(k).source as int == (h.source + 16 * k) % 0x1_0000,
        h.taken_times(k).destination as int == (h.destination + 16 * k) % 0x1_0000,
    decreases k,
{
    if k > 0 {
        lemma_pointers_advance(h.taken(), (k - 1) as nat);
    }
}

/// Writing the general-purpose pattern over a running HBlank transfer ends it and starts nothing.
pub proof fn law_a_cancel_is_not_a_start(h: Hdma, value: u8)
    requires
        h.mode == Mode::HBlank,
        value < 0x80,
    ensures
        h.written(reg::HDMA5, value).mode == Mode::Idle,
        h.written(reg::HDMA5, value).byte(reg::HDMA5) == Some(0xFFu8),
{
}

} // verus!
