//! Four DMA channels per core, eight in the machine.
//!
//! A transfer is described, not performed: [`DmaController::take_transfer`] returns the
//! highest-priority ready transfer and advances the channel as if it had happened. The word count is
//! 21 bits on the ARM9, with the top five in the low bits of the control halfword, and the two cores
//! read their start timings from different fields.

use vstd::prelude::*;
use crate::bits::{align2, align4, byte_at, half_at, with_half};
use crate::nds::Core;
use crate::state::{self, StateError, StateReader, StateWriter};

verus! {

pub const CHANNELS: usize = 4;

/// Base of the channel registers, identical in both cores' I/O space.
pub const BASE: u32 = 0x0400_00B0;

/// The four `DMA_FILL` words, which exist only on the ARM9 and only as DMA source data.
pub const FILL_BASE: u32 = 0x0400_00E0;

/// What starts a transfer.
#[derive(Debug, Clone, Copy, PartialEq, Eq, Structural)]
pub enum StartTiming {
    Immediate,
    VBlank,
    /// ARM9 only.
    HBlank,
    /// The start of a display frame. ARM9 only, and not armed.
    DisplayStart,
    /// Main-memory display mode. ARM9 only, and not armed.
    MainMemoryDisplay,
    /// A Slot-1 cartridge word is ready.
    CardSlot,
    /// The Slot-2 (Game Boy Advance) cartridge.
    GbaSlot,
    /// The 3D geometry command FIFO fell below half full. ARM9 only.
    GeometryFifo,
    /// ARM7 only, and never armed.
    Wifi,
}

/// The start-timing field, which is three bits wide on the ARM9 and two on the ARM7.
pub open spec fn timing_of(core: Core, control: u16) -> StartTiming {
    match core {
        Core::Arm9 => {
            let bits = control / 0x800 % 8;
            if bits == 0 {
                StartTiming::Immediate
            } else if bits == 1 {
                StartTiming::VBlank
            } else if bits == 2 {
                StartTiming::HBlank
            } else if bits == 3 {
                StartTiming::DisplayStart
            } else if bits == 4 {
                StartTiming::MainMemoryDisplay
            } else if bits == 5 {
                StartTiming::CardSlot
            } else if bits == 6 {
                StartTiming::GbaSlot
            } else {
                StartTiming::GeometryFifo
            }
        },
        Core::Arm7 => {
            let bits = control / 0x1000 % 4;
            if bits == 0 {
                StartTiming::Immediate
            } else if bits == 1 {
                StartTiming::VBlank
            } else if bits == 2 {
                StartTiming::CardSlot
            } else {
                StartTiming::GbaSlot
            }
        },
    }
}

impl StartTiming {
    /// Decode the start-timing field, which is three bits wide on the ARM9 and two on the ARM7.
    pub fn from_bits(core: Core, control: u16) -> (r: Self)
        ensures
            r == timing_of(core, control),
    {
        match core {
            Core::Arm9 => match control / 0x800 % 8 {
                0 => StartTiming::Immediate,
                1 => StartTiming::VBlank,
                2 => StartTiming::HBlank,
                3 => StartTiming::DisplayStart,
                4 => StartTiming::MainMemoryDisplay,
                5 => StartTiming::CardSlot,
                6 => StartTiming::GbaSlot,
                _ => StartTiming::GeometryFifo,
            },
            Core::Arm7 => match control / 0x1000 % 4 {
                0 => StartTiming::Immediate,
                1 => StartTiming::VBlank,
                2 => StartTiming::CardSlot,
                // Channels 0 and 1 read this as the Slot-2 cartridge, 2 and 3 as wifi. The channel
                // is not known here, so `arm_for` distinguishes them.
                _ => StartTiming::GbaSlot,
            },
        }
    }
}

/// How an address moves between units of a transfer.
#[derive(Debug, Clone, Copy, PartialEq, Eq, Structural)]
pub enum AddressStep {
    Increment,
    Decrement,
    Fixed,
    /// Increment during the transfer, then snap back to the written value for the next repeat.
    /// Destination only; the encoding is prohibited on a source and behaves as increment.
    IncrementReload,
}

impl AddressStep {
    #[verifier::allow_in_spec]
    fn from_bits(bits: u16) -> AddressStep
        returns
            step_of(bits),
    {
        match bits % 4 {
            0 => AddressStep::Increment,
            1 => AddressStep::Decrement,
            2 => AddressStep::Fixed,
            _ => AddressStep::IncrementReload,
        }
    }

    /// Bytes to move per unit transferred.
    pub fn delta(self, unit: u32) -> (r: i64)
        ensures
            r == (match self {
                AddressStep::Increment | AddressStep::IncrementReload => unit as int,
                AddressStep::Decrement => -(unit as int),
                AddressStep::Fixed => 0,
            }),
    {
        match self {
            AddressStep::Increment | AddressStep::IncrementReload => unit as i64,
            AddressStep::Decrement => -(unit as i64),
            AddressStep::Fixed => 0,
        }
    }
}

/// The two bits of an address step.
pub open spec fn step_of(bits: u16) -> AddressStep {
    if bits % 4 == 0 {
        AddressStep::Increment
    } else if bits % 4 == 1 {
        AddressStep::Decrement
    } else if bits % 4 == 2 {
        AddressStep::Fixed
    } else {
        AddressStep::IncrementReload
    }
}

/// Where an address is after a whole transfer.
pub open spec fn advanced(addr: u32, step: AddressStep, span: u32) -> u32 {
    match step {
        AddressStep::Increment | AddressStep::IncrementReload => addr.wrapping_add(span),
        AddressStep::Decrement => addr.wrapping_sub(span),
        AddressStep::Fixed => addr,
    }
}

fn advance(addr: u32, step: AddressStep, span: u32) -> (r: u32)
    ensures
        r == advanced(addr, step, span),
{
    match step {
        AddressStep::Increment | AddressStep::IncrementReload => addr.wrapping_add(span),
        AddressStep::Decrement => addr.wrapping_sub(span),
        AddressStep::Fixed => addr,
    }
}

/// One block of work for the bus to perform.
#[derive(Debug, Clone, Copy, PartialEq, Eq, Structural)]
pub struct Transfer {
    pub channel: usize,
    pub source: u32,
    pub destination: u32,
    /// Units to move, already resolved from the "zero means maximum" encoding.
    pub words: u32,
    /// 2 or 4 bytes.
    pub unit: u32,
    pub source_step: AddressStep,
    pub destination_step: AddressStep,
    pub raise_irq: bool,
}

/// One channel.
#[derive(Debug, Clone, Copy, PartialEq, Eq, Structural)]
pub struct Channel {
    pub source: u32,
    pub destination: u32,
    /// Up to 21 bits on the ARM9.
    pub words: u32,
    pub control: u16,
    /// The live addresses, latched on the off-to-on edge of the enable bit.
    pub current_source: u32,
    pub current_destination: u32,
    pub armed: bool,
}

/// Units that a channel can move.
#[verifier::allow_in_spec]
pub fn max_words(core: Core, index: usize) -> u32
    returns
        (match core {
            Core::Arm9 => 0x20_0000u32,
            Core::Arm7 => if index == 3 {
                0x1_0000
            } else {
                0x4000
            },
        }),
{
    match core {
        Core::Arm9 => 0x20_0000,
        Core::Arm7 => if index == 3 {
            0x1_0000
        } else {
            0x4000
        },
    }
}

impl Channel {
    /// Nothing set.
    pub open spec fn initial() -> Channel {
        Channel {
            source: 0,
            destination: 0,
            words: 0,
            control: 0,
            current_source: 0,
            current_destination: 0,
            armed: false,
        }
    }

    pub open spec fn is_enabled(self) -> bool {
        self.control >= 0x8000
    }

    pub open spec fn is_repeating(self) -> bool {
        self.control / 0x200 % 2 == 1
    }

    pub open spec fn unit_size(self) -> u32 {
        if self.control / 0x400 % 2 == 1 { 4 } else { 2 }
    }

    /// A source may not use the reload encoding, so it falls back to plain increment.
    pub open spec fn step_from(self) -> AddressStep {
        match step_of(self.control / 0x80) {
            AddressStep::IncrementReload => AddressStep::Increment,
            step => step,
        }
    }

    pub open spec fn step_to(self) -> AddressStep {
        step_of(self.control / 0x20)
    }

    /// Units that this channel will move, with zero meaning its maximum.
    pub open spec fn count(self, core: Core, index: usize) -> u32 {
        let requested = self.words % max_words(core, index);
        if requested == 0 { max_words(core, index) } else { requested }
    }

    /// The work that this channel is armed for.
    pub open spec fn transfer(self, core: Core, index: usize) -> Transfer {
        Transfer {
            channel: index,
            source: self.current_source,
            destination: self.current_destination,
            words: self.count(core, index),
            unit: self.unit_size(),
            source_step: self.step_from(),
            destination_step: self.step_to(),
            raise_irq: self.control / 0x4000 % 2 == 1,
        }
    }

    /// The channel once that work is done. A one-shot transfer clears its own enable bit, and the
    /// repeat bit means nothing without a trigger to repeat on.
    pub open spec fn finished(self, core: Core, index: usize) -> Channel {
        let span = (self.count(core, index) * self.unit_size()) as u32;
        Channel {
            armed: false,
            current_source: advanced(self.current_source, self.step_from(), span),
            current_destination: match self.step_to() {
                AddressStep::IncrementReload => self.destination,
                step => advanced(self.current_destination, step, span),
            },
            control: if !self.is_repeating() || timing_of(core, self.control)
                == StartTiming::Immediate {
                (self.control % 0x8000) as u16
            } else {
                self.control
            },
            ..self
        }
    }

    /// The low half of the word count written.
    pub open spec fn counted(self, low: u32) -> Channel {
        Channel { words: (self.words - self.words % 0x1_0000 + low % 0x1_0000) as u32, ..self }
    }

    /// The control halfword written; `full` is the whole count-and-control word as it now stands.
    /// Addresses are latched on the off-to-on edge, not on every write.
    pub open spec fn controlled(self, core: Core, value: u16, full: u32) -> Channel {
        let rising = !self.is_enabled() && value >= 0x8000;
        Channel {
            control: value,
            words: match core {
                Core::Arm9 => full % 0x20_0000,
                Core::Arm7 => full % 0x1_0000,
            },
            current_source: if rising { self.source } else { self.current_source },
            current_destination: if rising { self.destination } else { self.current_destination },
            armed: value >= 0x8000 && (self.armed || rising && timing_of(core, value)
                == StartTiming::Immediate),
            ..self
        }
    }

    /// The channel after reading the stream at `at`, as far as `limit` lets it be read.
    pub open spec fn restored(self, d: Seq<u8>, limit: int, at: int) -> Channel {
        Channel {
            source: state::or32(d, limit, at, self.source),
            destination: state::or32(d, limit, at + 4, self.destination),
            words: state::or32(d, limit, at + 8, self.words),
            control: state::or16(d, limit, at + 12, self.control),
            current_source: state::or32(d, limit, at + 14, self.current_source),
            current_destination: state::or32(d, limit, at + 18, self.current_destination),
            armed: state::or_bool(d, limit, at + 22, self.armed),
        }
    }

    fn new() -> (r: Self)
        ensures
            r == Channel::initial(),
    {
        Channel {
            source: 0,
            destination: 0,
            words: 0,
            control: 0,
            current_source: 0,
            current_destination: 0,
            armed: false,
        }
    }

    fn enabled(&self) -> (r: bool)
        ensures
            r == self.is_enabled(),
    {
        self.control >= 0x8000
    }

    fn repeats(&self) -> (r: bool)
        ensures
            r == self.is_repeating(),
    {
        self.control / 0x200 % 2 == 1
    }

    fn unit(&self) -> (r: u32)
        ensures
            r == self.unit_size(),
    {
        if self.control / 0x400 % 2 == 1 {
            4
        } else {
            2
        }
    }

    fn source_step(&self) -> (r: AddressStep)
        ensures
            r == self.step_from(),
    {
        match AddressStep::from_bits(self.control / 0x80) {
            AddressStep::IncrementReload => AddressStep::Increment,
            step => step,
        }
    }

    fn destination_step(&self) -> (r: AddressStep)
        ensures
            r == self.step_to(),
    {
        AddressStep::from_bits(self.control / 0x20)
    }

    fn resolved_words(&self, core: Core, index: usize) -> (r: u32)
        ensures
            r == self.count(core, index),
            1 <= r <= 0x20_0000,
    {
        let max = max_words(core, index);
        let requested = self.words % max;
        if requested == 0 {
            max
        } else {
            requested
        }
    }

    fn save(&self, w: &mut StateWriter)
        ensures
            state::continues(old(w)@, final(w)@),
            final(w)@.len() == old(w)@.len() + 23,
            self.restored(final(w)@, final(w)@.len() as int, old(w)@.len() as int) == *self,
    {
        w.write_u32(self.source);
        w.write_u32(self.destination);
        w.write_u32(self.words);
        w.write_u16(self.control);
        w.write_u32(self.current_source);
        w.write_u32(self.current_destination);
        w.write_bool(self.armed);
    }

    fn load(&mut self, r: &mut StateReader)
        ensures
            *final(self) == old(self).restored(old(r).data(), old(r).limit(), old(r).pos() as int),
            state::advanced(*old(r), *final(r), 23),
    {
        self.source = r.u32_or(self.source);
        self.destination = r.u32_or(self.destination);
        self.words = r.u32_or(self.words);
        self.control = r.u16_or(self.control);
        self.current_source = r.u32_or(self.current_source);
        self.current_destination = r.u32_or(self.current_destination);
        self.armed = r.bool_or(self.armed);
    }
}

/// A channel that was saved stays readable as the stream grows.
proof fn lemma_channel_kept(shorter: Seq<u8>, longer: Seq<u8>, at: int, channel: Channel)
    requires
        0 <= at,
        at + 23 <= shorter.len(),
        state::continues(shorter, longer),
        channel.restored(shorter, shorter.len() as int, at) == channel,
    ensures
        channel.restored(longer, longer.len() as int, at) == channel,
{
}

/// One core's four channels and fill words.
#[verifier::ext_equal]
pub struct DmaState {
    pub core: Core,
    pub channels: Seq<Channel>,
    pub fill: Seq<u32>,
}

/// Whether an address is one of the `DMA_FILL` words, as this core sees them.
#[verifier::allow_in_spec]
pub fn is_fill(core: Core, addr: u32) -> bool
    returns
        (core == Core::Arm9 && FILL_BASE <= addr && addr < FILL_BASE + 16),
{
    core == Core::Arm9 && FILL_BASE <= addr && addr < FILL_BASE + 16
}

/// Whether an address is one of the channel registers.
#[verifier::allow_in_spec]
pub fn is_channel(addr: u32) -> bool
    returns
        (BASE <= addr && addr < BASE + 48),
{
    BASE <= addr && addr < BASE + 48
}

/// How many bytes a controller saves.
pub open spec fn saved_size() -> int {
    108
}

/// The start timing of one channel: the ARM7's last encoding is wifi on channels 2 and 3.
pub open spec fn channel_timing(core: Core, control: u16, index: int) -> StartTiming {
    let decoded = timing_of(core, control);
    if core == Core::Arm7 && decoded == StartTiming::GbaSlot && index >= 2 {
        StartTiming::Wifi
    } else {
        decoded
    }
}

impl DmaState {
    pub open spec fn wf(self) -> bool {
        self.channels.len() == 4 && self.fill.len() == 4
    }

    pub open spec fn initial(core: Core) -> DmaState {
        DmaState {
            core,
            channels: Seq::new(4, |i: int| Channel::initial()),
            fill: Seq::new(4, |i: int| 0u32),
        }
    }

    pub open spec fn with_channel(self, index: int, channel: Channel) -> DmaState {
        DmaState { channels: self.channels.update(index, channel), ..self }
    }

    /// The armed channel with the lowest number, or four.
    pub open spec fn first_armed(self) -> int {
        if self.channels[0].armed {
            0
        } else if self.channels[1].armed {
            1
        } else if self.channels[2].armed {
            2
        } else if self.channels[3].armed {
            3
        } else {
            4
        }
    }

    /// Every enabled channel that waits for this trigger, armed.
    pub open spec fn triggered(self, timing: StartTiming) -> DmaState {
        DmaState {
            channels: Seq::new(
                4,
                |i: int|
                    {
                        let channel = self.channels[i];
                        if channel.is_enabled() && channel_timing(self.core, channel.control, i)
                            == timing {
                            Channel { armed: true, ..channel }
                        } else {
                            channel
                        }
                    },
            ),
            ..self
        }
    }

    /// A word as it reads. Source and destination are write-only and read as zero.
    pub open spec fn word(self, addr: u32) -> Option<u32> {
        if is_fill(self.core, addr) {
            Some(self.fill[(addr - FILL_BASE) / 4])
        } else if is_channel(addr) {
            let channel = self.channels[(addr - BASE) / 12];
            let offset = (addr - BASE) % 12;
            Some(
                if offset == 0 || offset == 4 {
                    0
                } else {
                    channel.words | ((channel.control as u32) << 16u32)
                },
            )
        } else {
            None
        }
    }

    pub open spec fn half(self, addr: u32) -> Option<u16> {
        match self.word(align4(addr)) {
            None => None,
            Some(word) => Some(half_at(word, addr)),
        }
    }

    /// A whole register written.
    pub open spec fn written(self, addr: u32, value: u32) -> DmaState {
        if is_fill(self.core, addr) {
            DmaState { fill: self.fill.update((addr - FILL_BASE) / 4, value), ..self }
        } else if is_channel(addr) {
            let index = (addr - BASE) / 12;
            let channel = self.channels[index];
            let offset = (addr - BASE) % 12;
            self.with_channel(
                index,
                if offset == 0 {
                    Channel { source: value, ..channel }
                } else if offset == 4 {
                    Channel { destination: value, ..channel }
                } else {
                    channel.counted(value).controlled(self.core, (value / 0x1_0000) as u16, value)
                },
            )
        } else {
            self
        }
    }

    /// Half a register written. The control half carries the ARM9's high count bits.
    pub open spec fn written16(self, addr: u32, value: u16) -> DmaState {
        if is_fill(self.core, addr) {
            self.written(
                align4(addr),
                with_half(self.fill[(addr - FILL_BASE) / 4], addr, value),
            )
        } else if is_channel(addr) {
            let index = (addr - BASE) / 12;
            let channel = self.channels[index];
            let offset = (addr - BASE) % 12;
            self.with_channel(
                index,
                if offset == 0 {
                    Channel { source: with_half(channel.source, 0, value), ..channel }
                } else if offset == 2 {
                    Channel { source: with_half(channel.source, 2, value), ..channel }
                } else if offset == 4 {
                    Channel { destination: with_half(channel.destination, 0, value), ..channel }
                } else if offset == 6 {
                    Channel { destination: with_half(channel.destination, 2, value), ..channel }
                } else if offset == 8 {
                    channel.counted(value as u32)
                } else {
                    channel.controlled(self.core, value, with_half(channel.words, 2, value))
                },
            )
        } else {
            self
        }
    }

    /// A byte of a register written: the other byte of its halfword is written back as it reads.
    pub open spec fn written8(self, addr: u32, value: u8) -> DmaState {
        match self.half(align2(addr)) {
            None => self,
            Some(current) => self.written16(
                align2(addr),
                if addr % 2 == 0 {
                    (current - current % 0x100 + value) as u16
                } else {
                    (current % 0x100 + value * 0x100) as u16
                },
            ),
        }
    }

    /// The controller after reading the stream at `at`, as far as `limit` lets it be read.
    pub open spec fn restored(self, d: Seq<u8>, limit: int, at: int) -> DmaState {
        DmaState {
            core: self.core,
            channels: seq![
                self.channels[0].restored(d, limit, at),
                self.channels[1].restored(d, limit, at + 23),
                self.channels[2].restored(d, limit, at + 46),
                self.channels[3].restored(d, limit, at + 69),
            ],
            fill: state::words_or(d, limit, at + 92, self.fill),
        }
    }

    /// Whether the stream holds exactly this controller at `at`.
    pub open spec fn encoded_at(self, d: Seq<u8>, at: int) -> bool {
        at + saved_size() <= d.len() && self.restored(d, d.len() as int, at) == self
    }
}

/// One core's four channels.
#[derive(Debug, Clone, Copy, PartialEq, Eq)]
pub struct DmaController {
    pub core: Core,
    pub channels: [Channel; 4],
    /// The `DMA_FILL` words. ARM9 only.
    pub fill: [u32; 4],
}

impl View for DmaController {
    type V = DmaState;

    open spec fn view(&self) -> DmaState {
        DmaState { core: self.core, channels: self.channels@, fill: self.fill@ }
    }
}

impl DmaController {
    pub fn new(core: Core) -> (r: Self)
        ensures
            r@ == DmaState::initial(core),
    {
        let r = DmaController {
            core,
            channels: crate::arrays::filled(Channel::new()),
            fill: crate::arrays::filled(0),
        };
        assert(r@ =~= DmaState::initial(core));
        r
    }

    pub fn which_core(&self) -> (r: Core)
        ensures
            r == self@.core,
    {
        self.core
    }

    /// Whether an address is one of these registers.
    pub fn owns(&self, addr: u32) -> (r: bool)
        ensures
            r == (self@.word(addr) is Some),
    {
        is_channel(addr) || is_fill(self.core, addr)
    }

    /// Vertical blanking began.
    pub fn on_vblank(&mut self)
        ensures
            final(self)@ == old(self)@.triggered(StartTiming::VBlank),
    {
        self.arm_for(StartTiming::VBlank);
    }

    /// Horizontal blanking began. None of the ARM7's channels can wait for it.
    pub fn on_hblank(&mut self)
        ensures
            final(self)@ == old(self)@.triggered(StartTiming::HBlank),
    {
        self.arm_for(StartTiming::HBlank);
    }

    /// A Slot-1 cartridge transfer has a word ready.
    pub fn on_card_ready(&mut self)
        ensures
            final(self)@ == old(self)@.triggered(StartTiming::CardSlot),
    {
        self.arm_for(StartTiming::CardSlot);
    }

    /// The geometry command FIFO fell below half full. ARM9 only.
    pub fn on_geometry_fifo_half_empty(&mut self)
        ensures
            final(self)@ == old(self)@.triggered(StartTiming::GeometryFifo),
    {
        self.arm_for(StartTiming::GeometryFifo);
    }

    /// Arm every enabled channel that waits for a trigger.
    pub fn arm_for(&mut self, timing: StartTiming)
        ensures
            final(self)@ == old(self)@.triggered(timing),
    {
        let mut channels = self.channels;
        for index in 0..4usize
            invariant
                self@ == old(self)@,
                forall|i: int|
                    0 <= i < index ==> #[trigger] channels@[i] == old(self)@.triggered(
                        timing,
                    ).channels[i],
                forall|i: int|
                    index <= i < 4 ==> #[trigger] channels@[i] == old(self)@.channels[i],
        {
            let mut channel = channels[index];
            let mut decoded = StartTiming::from_bits(self.core, channel.control);
            // The ARM7's timing 3 means the Slot-2 cartridge on channels 0 and 1 and wifi on 2
            // and 3. Nothing else in either core's decode depends on the channel number.
            if self.core == Core::Arm7 && decoded == StartTiming::GbaSlot && index >= 2 {
                decoded = StartTiming::Wifi;
            }
            if channel.enabled() && decoded == timing {
                channel.armed = true;
                channels[index] = channel;
            }
        }
        self.channels = channels;
        assert(self@ =~= old(self)@.triggered(timing));
    }

    /// The highest-priority ready transfer, if any. Priority is by channel number, and absolute.
    pub fn take_transfer(&mut self) -> (r: Option<Transfer>)
        ensures
            ({
                let index = old(self)@.first_armed();
                let channel = old(self)@.channels[index];
                if index < 4 {
                    &&& r == Some(channel.transfer(old(self)@.core, index as usize))
                    &&& final(self)@ == old(self)@.with_channel(
                        index,
                        channel.finished(old(self)@.core, index as usize),
                    )
                } else {
                    r is None && final(self)@ == old(self)@
                }
            }),
    {
        let index: usize = if self.channels[0].armed {
            0
        } else if self.channels[1].armed {
            1
        } else if self.channels[2].armed {
            2
        } else if self.channels[3].armed {
            3
        } else {
            return None;
        };
        let core = self.core;
        let mut channel = self.channels[index];
        let words = channel.resolved_words(core, index);
        let unit = channel.unit();
        let source_step = channel.source_step();
        let destination_step = channel.destination_step();
        let transfer = Transfer {
            channel: index,
            source: channel.current_source,
            destination: channel.current_destination,
            words,
            unit,
            source_step,
            destination_step,
            raise_irq: channel.control / 0x4000 % 2 == 1,
        };
        assert(words * unit <= 0x80_0000) by (nonlinear_arith)
            requires
                1 <= words <= 0x20_0000,
                2 <= unit <= 4,
        ;
        let span: u32 = words * unit;
        let timing = StartTiming::from_bits(core, channel.control);
        let repeats = channel.repeats();
        channel.armed = false;
        channel.current_source = advance(channel.current_source, source_step, span);
        channel.current_destination =
        match destination_step {
            AddressStep::IncrementReload => channel.destination,
            step => advance(channel.current_destination, step, span),
        };
        if !repeats || timing == StartTiming::Immediate {
            channel.control = channel.control % 0x8000;
        }
        self.channels[index] = channel;
        assert(self@ =~= old(self)@.with_channel(
            index as int,
            old(self)@.channels[index as int].finished(core, index),
        ));
        Some(transfer)
    }

    pub fn read32(&self, addr: u32) -> (r: Option<u32>)
        ensures
            r == self@.word(addr),
    {
        if is_fill(self.core, addr) {
            return Some(self.fill[((addr - FILL_BASE) / 4) as usize]);
        }
        if !is_channel(addr) {
            return None;
        }
        let channel = &self.channels[((addr - BASE) / 12) as usize];
        let offset = (addr - BASE) % 12;
        Some(
            if offset == 0 || offset == 4 {
                0
            } else {
                channel.words | ((channel.control as u32) << 16u32)
            },
        )
    }

    pub fn write32(&mut self, addr: u32, value: u32) -> (r: bool)
        ensures
            final(self)@ == old(self)@.written(addr, value),
            r == (old(self)@.word(addr) is Some),
    {
        if is_fill(self.core, addr) {
            self.fill[((addr - FILL_BASE) / 4) as usize] = value;
            assert(self@ =~= old(self)@.written(addr, value));
            return true;
        }
        if !is_channel(addr) {
            return false;
        }
        let index = ((addr - BASE) / 12) as usize;
        let offset = (addr - BASE) % 12;
        let mut channel = self.channels[index];
        if offset == 0 {
            channel.source = value;
        } else if offset == 4 {
            channel.destination = value;
        } else {
            Self::set_count(&mut channel, value);
            Self::set_control(&mut channel, self.core, (value / 0x1_0000) as u16, value);
        }
        self.channels[index] = channel;
        assert(self@ =~= old(self)@.written(addr, value));
        true
    }

    pub fn read16(&self, addr: u32) -> (r: Option<u16>)
        ensures
            r == self@.half(addr),
    {
        match self.read32(align4(addr)) {
            None => None,
            Some(word) => Some(half_at(word, addr)),
        }
    }

    pub fn write16(&mut self, addr: u32, value: u16) -> (r: bool)
        ensures
            final(self)@ == old(self)@.written16(addr, value),
            r == (old(self)@.word(addr) is Some),
    {
        if is_fill(self.core, addr) {
            let word = self.fill[((addr - FILL_BASE) / 4) as usize];
            return self.write32(align4(addr), with_half(word, addr, value));
        }
        if !is_channel(addr) {
            return false;
        }
        let index = ((addr - BASE) / 12) as usize;
        let offset = (addr - BASE) % 12;
        let mut channel = self.channels[index];
        if offset == 0 {
            channel.source = with_half(channel.source, 0, value);
        } else if offset == 2 {
            channel.source = with_half(channel.source, 2, value);
        } else if offset == 4 {
            channel.destination = with_half(channel.destination, 0, value);
        } else if offset == 6 {
            channel.destination = with_half(channel.destination, 2, value);
        } else if offset == 8 {
            Self::set_count(&mut channel, value as u32);
        } else {
            // On the ARM9 the control register's low five bits are the top of the word count, so
            // the full word is put together again rather than treating the halves as independent.
            let full = with_half(channel.words, 2, value);
            Self::set_control(&mut channel, self.core, value, full);
        }
        self.channels[index] = channel;
        assert(self@ =~= old(self)@.written16(addr, value));
        true
    }

    /// Set the low half of the word count, preserving whatever the control half contributed.
    fn set_count(channel: &mut Channel, low: u32)
        ensures
            *final(channel) == old(channel).counted(low),
    {
        channel.words = channel.words - channel.words % 0x1_0000 + low % 0x1_0000;
    }

    /// Apply a control-register write. `full` is the whole 32-bit `DMAxCNT` as it now stands.
    fn set_control(channel: &mut Channel, core: Core, value: u16, full: u32)
        ensures
            *final(channel) == old(channel).controlled(core, value, full),
    {
        let was_enabled = channel.enabled();
        channel.control = value;
        channel.words =
        match core {
            Core::Arm9 => full % 0x20_0000,
            Core::Arm7 => full % 0x1_0000,
        };
        if !was_enabled && channel.enabled() {
            channel.current_source = channel.source;
            channel.current_destination = channel.destination;
            if StartTiming::from_bits(core, value) == StartTiming::Immediate {
                channel.armed = true;
            }
        }
        if !channel.enabled() {
            channel.armed = false;
        }
    }

    pub fn read8(&self, addr: u32) -> (r: Option<u8>)
        ensures
            r == (match self@.word(align4(addr)) {
                None => None,
                Some(word) => Some(byte_at(word, addr)),
            }),
    {
        match self.read32(align4(addr)) {
            None => None,
            Some(word) => Some(byte_at(word, addr)),
        }
    }

    #[verifier::rlimit(30)]
    #[verifier::rlimit(40)]
    pub fn write8(&mut self, addr: u32, value: u8) -> (r: bool)
        ensures
            final(self)@ == old(self)@.written8(addr, value),
            r == (old(self)@.word(align4(addr)) is Some),
    {
        match self.read16(align2(addr)) {
            None => false,
            Some(half) => {
                let spliced: u16 = if addr % 2 == 0 {
                    half - half % 0x100 + value as u16
                } else {
                    half % 0x100 + value as u16 * 0x100
                };
                self.write16(align2(addr), spliced)
            },
        }
    }

    /// A `DMA_FILL` word, which is what a fill transfer reads as its source.
    pub fn fill(&self, index: usize) -> (r: u32)
        requires
            index < 4,
        ensures
            r == self@.fill[index as int],
    {
        self.fill[index]
    }

    pub fn reset(&mut self)
        ensures
            final(self)@ == DmaState::initial(old(self)@.core),
    {
        *self = DmaController::new(self.core);
    }

    pub fn save(&self, w: &mut StateWriter)
        ensures
            state::continues(old(w)@, final(w)@),
            final(w)@.len() == old(w)@.len() + saved_size(),
            self@.encoded_at(final(w)@, old(w)@.len() as int),
    {
        let ghost at = w@.len() as int;
        self.channels[0].save(w);
        let ghost one = w@;
        self.channels[1].save(w);
        let ghost two = w@;
        self.channels[2].save(w);
        let ghost three = w@;
        self.channels[3].save(w);
        let ghost four = w@;
        w.write_words(&self.fill);
        proof {
            lemma_channel_kept(one, w@, at, self.channels[0]);
            lemma_channel_kept(two, w@, at + 23, self.channels[1]);
            lemma_channel_kept(three, w@, at + 46, self.channels[2]);
            lemma_channel_kept(four, w@, at + 69, self.channels[3]);
            assert(self@.restored(w@, w@.len() as int, at) =~= self@);
        }
    }

    pub fn load(&mut self, r: &mut StateReader) -> (result: Result<(), StateError>)
        ensures
            final(self)@ == old(self)@.restored(
                old(r).data(),
                old(r).limit(),
                old(r).pos() as int,
            ),
            state::advanced(*old(r), *final(r), saved_size()),
            result == state::verdict(*final(r)),
    {
        let mut first = self.channels[0];
        first.load(r);
        let mut second = self.channels[1];
        second.load(r);
        let mut third = self.channels[2];
        third.load(r);
        let mut fourth = self.channels[3];
        fourth.load(r);
        self.channels = [first, second, third, fourth];
        r.read_words(&mut self.fill);
        assert(self@ =~= old(self)@.restored(old(r).data(), old(r).limit(), old(r).pos() as int));
        r.status()
    }
}

/// A controller that was saved comes back whole, read into any controller of the same core.
pub proof fn law_save_then_load(saved: DmaState, before: DmaState, d: Seq<u8>, at: int)
    requires
        0 <= at,
        saved.wf(),
        before.wf(),
        saved.core == before.core,
        saved.encoded_at(d, at),
    ensures
        before.restored(d, d.len() as int, at) == saved,
{
    state::lemma_words_decided(d, at + 92, saved.fill, before.fill);
    assert(before.restored(d, d.len() as int, at) =~= saved.restored(d, d.len() as int, at));
}

/// Priority is by channel number: a taken transfer is never that of a channel with an armed one in
/// front of it.
pub proof fn law_priority_is_absolute(s: DmaState, i: int)
    requires
        s.wf(),
        0 <= i < 4,
        s.channels[i].armed,
    ensures
        s.first_armed() <= i,
        s.channels[s.first_armed()].armed,
{
}

/// A transfer moves at least one unit and no more than the channel can.
pub proof fn law_counts_are_resolved(channel: Channel, core: Core, index: usize)
    ensures
        1 <= channel.transfer(core, index).words <= max_words(core, index),
{
}

/// Writing the control of a channel that is already enabled does not move its live addresses.
pub proof fn law_a_running_channel_keeps_its_addresses(
    channel: Channel,
    core: Core,
    value: u16,
    full: u32,
)
    requires
        channel.is_enabled(),
    ensures
        channel.controlled(core, value, full).current_source == channel.current_source,
        channel.controlled(core, value, full).current_destination == channel.current_destination,
{
}

/// Clearing the enable bit disarms, and no trigger arms a channel that is not enabled.
pub proof fn law_disabled_channels_are_not_armed(
    s: DmaState,
    channel: Channel,
    value: u16,
    full: u32,
    timing: StartTiming,
    i: int,
)
    requires
        s.wf(),
        0 <= i < 4,
        value < 0x8000,
    ensures
        !channel.controlled(s.core, value, full).armed,
        !s.channels[i].is_enabled() && !s.channels[i].armed ==> !s.triggered(
            timing,
        ).channels[i].armed,
{
}

/// Horizontal blanking and the geometry FIFO arm nothing on the ARM7.
pub proof fn law_the_arm7_has_no_hblank_timing(s: DmaState)
    requires
        s.wf(),
        s.core == Core::Arm7,
    ensures
        s.triggered(StartTiming::HBlank) == s,
        s.triggered(StartTiming::GeometryFifo) == s,
{
    assert(s.triggered(StartTiming::HBlank) =~= s);
    assert(s.triggered(StartTiming::GeometryFifo) =~= s);
}

/// A transfer without the repeat bit, or with nothing to repeat on, leaves its channel disabled.
pub proof fn law_one_shot_transfers_disable_themselves(channel: Channel, core: Core, index: usize)
    requires
        !channel.is_repeating() || timing_of(core, channel.control) == StartTiming::Immediate,
    ensures
        !channel.finished(core, index).is_enabled(),
        !channel.finished(core, index).armed,
{
}

/// The reload step brings the destination back to where it was written.
pub proof fn law_reload_snaps_back(channel: Channel, core: Core, index: usize)
    requires
        channel.step_to() == AddressStep::IncrementReload,
    ensures
        channel.finished(core, index).current_destination == channel.destination,
{
}

/// The source and destination registers read as zero.
pub proof fn law_addresses_are_write_only(s: DmaState, index: u32)
    requires
        s.wf(),
        index < 4,
    ensures
        s.word((BASE + 12 * index) as u32) == Some(0u32),
        s.word((BASE + 12 * index + 4) as u32) == Some(0u32),
{
}

} // verus!
