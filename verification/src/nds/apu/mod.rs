//! The sixteen-channel sound hardware.
//!
//! Each channel plays sample data out of memory at its own rate, with its own volume and panning. A
//! channel advances by a fractional step each output sample and plays the sample it lands on. The
//! mix is exact: an output sample is a pair of integers over [`FULL_SCALE`].

pub mod channel;
pub mod laws;
pub mod reg;

pub use channel::{AUDIO_SAMPLE_RATE, CLOCK};

use vstd::prelude::*;
use crate::arith;
use crate::bits::{align2, align4, byte_at, half_at, with_half};
use crate::nds::memory::{MemoryState, NdsMemory};
use crate::state::{self, StateError, StateReader, StateWriter};
use channel::Channel;

verus! {

pub const CHANNELS: usize = 16;

/// Base of the per-channel registers, in the ARM7's I/O space.
pub const BASE: u32 = 0x0400_0400;

/// Master cycles per output sample.
pub const PER_SAMPLE: u32 = 698;

/// What an output sample of one stands for: the product of every divisor in the mix, which are
/// 32768 for the sample, 127 and 16 for the channel's volume, 128 for the panning, 127 for the master
/// volume, and 8 to keep sixteen channels from clipping.
pub const FULL_SCALE: i64 = 8_659_190_939_648;

/// One output sample, in parts of [`FULL_SCALE`].
#[derive(Debug, Clone, Copy, PartialEq, Eq, Structural)]
pub struct AudioSample {
    pub left: i64,
    pub right: i64,
}

/// No sound.
pub open spec fn silence() -> AudioSample {
    AudioSample { left: 0, right: 0 }
}

/// What a channel adds to the mix before panning.
pub open spec fn loudness(channel: Channel) -> int {
    channel.current * channel.volume() * (16int / channel.volume_divider() as int)
}

/// The left side of the first `n` channels: panning runs from hard left to nearly hard right over a
/// denominator of 128.
pub open spec fn left_sum(before: Seq<Channel>, m: MemoryState, n: nat) -> int
    decreases n,
{
    if n == 0 {
        0
    } else {
        let i = n - 1;
        let rest = left_sum(before, m, (n - 1) as nat);
        if before[i].busy() {
            let after = before[i].advanced(i, m);
            rest + loudness(after) * (128 - after.panning())
        } else {
            rest
        }
    }
}

/// The right side of the first `n` channels.
pub open spec fn right_sum(before: Seq<Channel>, m: MemoryState, n: nat) -> int
    decreases n,
{
    if n == 0 {
        0
    } else {
        let i = n - 1;
        let rest = right_sum(before, m, (n - 1) as nat);
        if before[i].busy() {
            let after = before[i].advanced(i, m);
            rest + loudness(after) * after.panning()
        } else {
            rest
        }
    }
}

/// Everything that the sound hardware holds.
#[verifier::ext_equal]
pub struct ApuState {
    pub channels: Seq<Channel>,
    pub soundcnt: u16,
    pub soundbias: u16,
    pub accumulator: u32,
    /// What has not been handed to the frontend yet.
    pub output: Seq<AudioSample>,
}

/// How many bytes the sound hardware saves.
pub open spec fn saved_size() -> int {
    760
}

impl ApuState {
    pub open spec fn wf(self) -> bool {
        self.channels.len() == 16
    }

    pub open spec fn initial() -> ApuState {
        ApuState {
            channels: Seq::new(16, |i: int| Channel::initial()),
            soundcnt: 0,
            soundbias: 0x200,
            accumulator: 0,
            output: Seq::empty(),
        }
    }

    /// The master enable. The mixer is silent without it, however loud a channel is.
    pub open spec fn enabled(self) -> bool {
        self.soundcnt >= 0x8000
    }

    /// A sum scaled by the master volume and kept within full scale.
    pub open spec fn scaled(self, sum: int) -> i64 {
        arith::clamped(sum * (self.soundcnt % 0x80), -(FULL_SCALE as int), FULL_SCALE as int) as i64
    }

    /// One output sample.
    pub open spec fn mix(self, m: MemoryState) -> AudioSample {
        if self.enabled() {
            AudioSample {
                left: self.scaled(left_sum(self.channels, m, 16)),
                right: self.scaled(right_sum(self.channels, m, 16)),
            }
        } else {
            silence()
        }
    }

    /// The hardware one output sample later.
    pub open spec fn mixed(self, m: MemoryState) -> ApuState {
        ApuState {
            channels: if self.enabled() {
                Seq::new(
                    16,
                    |i: int|
                        if self.channels[i].busy() {
                            self.channels[i].advanced(i, m)
                        } else {
                            self.channels[i]
                        },
                )
            } else {
                self.channels
            },
            output: self.output.push(self.mix(m)),
            ..self
        }
    }

    /// The hardware `n` output samples later.
    pub open spec fn mixed_times(self, m: MemoryState, n: nat) -> ApuState
        decreases n,
    {
        if n == 0 {
            self
        } else {
            self.mixed(m).mixed_times(m, (n - 1) as nat)
        }
    }

    /// The hardware some master cycles later: samples are produced as they fall due.
    pub open spec fn stepped(self, cycles: nat, m: MemoryState) -> ApuState {
        let total = self.accumulator + cycles;
        ApuState { accumulator: (total % PER_SAMPLE as int) as u32, ..self }.mixed_times(
            m,
            (total / PER_SAMPLE as int) as nat,
        )
    }

    pub open spec fn with_channel(self, index: int, channel: Channel) -> ApuState {
        ApuState { channels: self.channels.update(index, channel), ..self }
    }

    /// A register as it reads. Source, timer, loop point and length are write-only.
    pub open spec fn word(self, addr: u32) -> Option<u32> {
        if is_channel(addr) {
            Some(
                if (addr - BASE) % 16 == 0 {
                    self.channels[(addr - BASE) / 16].control
                } else {
                    0
                },
            )
        } else if align4(addr) == reg::SOUNDCNT {
            Some(self.soundcnt as u32)
        } else if align4(addr) == reg::SOUNDBIAS {
            Some(self.soundbias as u32)
        } else {
            None
        }
    }

    pub open spec fn half(self, addr: u32) -> Option<u16> {
        match self.word(align4(addr)) {
            None => None,
            Some(word) => Some(half_at(word, addr)),
        }
    }

    /// A register as it was last written, which is what a halfword write is spliced into.
    pub open spec fn stored(self, addr: u32) -> Option<u32> {
        if is_channel(addr) {
            let channel = self.channels[(addr - BASE) / 16];
            let offset = (addr - BASE) % 16;
            Some(
                if offset == 0 {
                    channel.control
                } else if offset == 4 {
                    channel.source
                } else if offset == 8 {
                    (channel.timer + 0x1_0000 * channel.loop_start) as u32
                } else if offset == 12 {
                    channel.length
                } else {
                    0
                },
            )
        } else {
            self.word(addr)
        }
    }

    /// A register written.
    pub open spec fn written(self, addr: u32, value: u32) -> ApuState {
        if is_channel(addr) {
            let index = (addr - BASE) / 16;
            let channel = self.channels[index];
            let offset = (addr - BASE) % 16;
            self.with_channel(
                index,
                if offset == 0 {
                    channel.controlled(value)
                } else if offset == 4 {
                    Channel { source: value % 0x0800_0000, ..channel }
                } else if offset == 8 {
                    Channel {
                        timer: (value % 0x1_0000) as u16,
                        loop_start: (value / 0x1_0000) as u16,
                        ..channel
                    }
                } else {
                    Channel { length: value % 0x0040_0000, ..channel }
                },
            )
        } else if align4(addr) == reg::SOUNDCNT {
            ApuState { soundcnt: (value % 0x1_0000) as u16, ..self }
        } else if align4(addr) == reg::SOUNDBIAS {
            ApuState { soundbias: (value % 0x400) as u16, ..self }
        } else {
            self
        }
    }

    /// Half a register written.
    pub open spec fn written16(self, addr: u32, value: u16) -> ApuState {
        match self.stored(align4(addr)) {
            None => self,
            Some(current) => self.written(align4(addr), with_half(current, addr, value)),
        }
    }

    /// A byte of a register written: the other byte of its halfword is written back as it reads.
    pub open spec fn written8(self, addr: u32, value: u8) -> ApuState {
        match self.half(align2(addr)) {
            None => self,
            Some(current) => self.written16(
                align2(addr),
                if addr % 2 == 0 {
                    (current - current % 0x100 + value) as u16
                } else {
                    (current % 0x100 + value * 0x100) as u16
                },
            ),
        }
    }

    /// The hardware after reading the stream at `at`. Samples not yet handed out are dropped once
    /// the whole of it was there.
    pub open spec fn restored(self, d: Seq<u8>, limit: int, at: int) -> ApuState {
        ApuState {
            channels: Seq::new(16, |i: int| self.channels[i].restored(d, limit, at + 47 * i)),
            soundcnt: state::or16(d, limit, at + 752, self.soundcnt),
            soundbias: state::or16(d, limit, at + 754, self.soundbias),
            accumulator: state::or32(d, limit, at + 756, self.accumulator),
            output: if at + 760 <= limit { Seq::empty() } else { self.output },
        }
    }

    /// Whether the stream holds exactly this hardware at `at`, but for the samples.
    pub open spec fn encoded_at(self, d: Seq<u8>, at: int) -> bool {
        &&& at + saved_size() <= d.len()
        &&& self.restored(d, d.len() as int, at) == (ApuState { output: Seq::empty(), ..self })
    }
}

/// Whether an address is one of the channel registers.
#[verifier::allow_in_spec]
pub fn is_channel(addr: u32) -> bool
    returns
        (BASE <= addr && addr < BASE + 256),
{
    BASE <= addr && addr < BASE + 256
}

/// All sixteen channels and the master mixer.
#[derive(Debug, Clone, PartialEq)]
pub struct NdsApu {
    pub channels: [Channel; 16],
    pub soundcnt: u16,
    pub soundbias: u16,
    /// Fractional output-sample accumulator, in master cycles.
    pub sample_accumulator: u32,
    pub output: Vec<AudioSample>,
    /// The buffer handed out by `take_samples`.
    pub drained: Vec<AudioSample>,
}

impl View for NdsApu {
    type V = ApuState;

    open spec fn view(&self) -> ApuState {
        ApuState {
            channels: self.channels@,
            soundcnt: self.soundcnt,
            soundbias: self.soundbias,
            accumulator: self.sample_accumulator,
            output: self.output@,
        }
    }
}

impl NdsApu {
    pub fn new() -> (r: Self)
        ensures
            r@ == ApuState::initial(),
    {
        let r = NdsApu {
            channels: crate::arrays::filled(Channel::new()),
            soundcnt: 0,
            soundbias: 0x200,
            sample_accumulator: 0,
            output: Vec::new(),
            drained: Vec::new(),
        };
        assert(r@ =~= ApuState::initial());
        r
    }

    /// Whether an address is one of these registers.
    pub fn owns(addr: u32) -> (r: bool)
        ensures
            forall|apu: ApuState| r == (#[trigger] apu.word(addr) is Some),
    {
        is_channel(addr) || align4(addr) == reg::SOUNDCNT || align4(addr) == reg::SOUNDBIAS
    }

    /// Advance by `cycles` master cycles, producing output samples as they fall due.
    pub fn step(&mut self, cycles: u32, memory: &NdsMemory)
        requires
            memory@.wf(),
        ensures
            final(self)@ == old(self)@.stepped(cycles as nat, memory@),
    {
        proof {
            lemma_per_sample();
        }
        let total: u64 = self.sample_accumulator as u64 + cycles as u64;
        let count: u64 = total / PER_SAMPLE as u64;
        self.sample_accumulator = (total % PER_SAMPLE as u64) as u32;
        let ghost start = self@;
        for done in 0..count
            invariant
                memory@.wf(),
                self@.mixed_times(memory@, (count - done) as nat) == start.mixed_times(
                    memory@,
                    count as nat,
                ),
        {
            self.mix(memory);
        }
    }

    /// Produce one output sample, advancing every running channel.
    fn mix(&mut self, memory: &NdsMemory)
        requires
            memory@.wf(),
        ensures
            final(self)@ == old(self)@.mixed(memory@),
    {
        if self.soundcnt < 0x8000 {
            self.output.push(AudioSample { left: 0, right: 0 });
            assert(self@ =~= old(self)@.mixed(memory@));
            return;
        }
        let mut channels = self.channels;
        let mut left: i64 = 0;
        let mut right: i64 = 0;
        for index in 0..16usize
            invariant
                memory@.wf(),
                self@ == old(self)@,
                self@.enabled(),
                -(index * 0x4_0000_0000) <= left <= index * 0x4_0000_0000,
                -(index * 0x4_0000_0000) <= right <= index * 0x4_0000_0000,
                left == left_sum(self@.channels, memory@, index as nat),
                right == right_sum(self@.channels, memory@, index as nat),
                forall|i: int|
                    0 <= i < index ==> #[trigger] channels@[i] == old(self)@.mixed(
                        memory@,
                    ).channels[i],
                forall|i: int| index <= i < 16 ==> #[trigger] channels@[i] == self@.channels[i],
        {
            let mut channel = channels[index];
            if channel.busy() {
                channel.advance(index, memory);
                channels[index] = channel;
                let (l, r) = contribution(&channel);
                left = left + l;
                right = right + r;
            }
        }
        self.channels = channels;
        let sample = AudioSample { left: self.scale(left), right: self.scale(right) };
        self.output.push(sample);
        assert(self@ =~= old(self)@.mixed(memory@));
    }

    /// A sum scaled by the master volume and kept within full scale.
    fn scale(&self, sum: i64) -> (r: i64)
        requires
            -0x40_0000_0000 <= sum <= 0x40_0000_0000,
        ensures
            r == self@.scaled(sum as int),
    {
        let master = (self.soundcnt % 0x80) as i64;
        assert(-0x2000_0000_0000 <= sum * master <= 0x2000_0000_0000) by (nonlinear_arith)
            requires
                -0x40_0000_0000 <= sum <= 0x40_0000_0000,
                0 <= master < 0x80,
        ;
        arith::clamp(sum * master, -FULL_SCALE, FULL_SCALE)
    }

    /// Take the samples produced since the last call.
    pub fn take_samples(&mut self) -> (r: &[AudioSample])
        ensures
            r@ == old(self)@.output,
            final(self)@ == (ApuState { output: Seq::empty(), ..old(self)@ }),
    {
        let mut fresh: Vec<AudioSample> = Vec::new();
        std::mem::swap(&mut self.output, &mut fresh);
        self.drained = fresh;
        assert(self@ =~= (ApuState { output: Seq::empty(), ..old(self)@ }));
        self.drained.as_slice()
    }

    pub fn read32_reg(&self, addr: u32) -> (r: Option<u32>)
        ensures
            r == self@.word(addr),
    {
        if is_channel(addr) {
            let offset = (addr - BASE) % 16;
            return Some(
                if offset == 0 {
                    self.channels[((addr - BASE) / 16) as usize].control
                } else {
                    0
                },
            );
        }
        if align4(addr) == reg::SOUNDCNT {
            Some(self.soundcnt as u32)
        } else if align4(addr) == reg::SOUNDBIAS {
            Some(self.soundbias as u32)
        } else {
            None
        }
    }

    pub fn write32_reg(&mut self, addr: u32, value: u32) -> (r: bool)
        ensures
            final(self)@ == old(self)@.written(addr, value),
            r == (old(self)@.word(addr) is Some),
    {
        if is_channel(addr) {
            let index = ((addr - BASE) / 16) as usize;
            let offset = (addr - BASE) % 16;
            let mut channel = self.channels[index];
            if offset == 0 {
                channel.set_control(value);
            } else if offset == 4 {
                channel.source = value % 0x0800_0000;
            } else if offset == 8 {
                channel.timer = (value % 0x1_0000) as u16;
                channel.loop_start = (value / 0x1_0000) as u16;
            } else {
                channel.length = value % 0x0040_0000;
            }
            self.channels[index] = channel;
            assert(self@ =~= old(self)@.written(addr, value));
            return true;
        }
        if align4(addr) == reg::SOUNDCNT {
            self.soundcnt = (value % 0x1_0000) as u16;
        } else if align4(addr) == reg::SOUNDBIAS {
            self.soundbias = (value % 0x400) as u16;
        } else {
            return false;
        }
        true
    }

    pub fn read16_reg(&self, addr: u32) -> (r: Option<u16>)
        ensures
            r == self@.half(addr),
    {
        match self.read32_reg(align4(addr)) {
            None => None,
            Some(word) => Some(half_at(word, addr)),
        }
    }

    pub fn write16_reg(&mut self, addr: u32, value: u16) -> (r: bool)
        ensures
            final(self)@ == old(self)@.written16(addr, value),
            r == (old(self)@.word(align4(addr)) is Some),
    {
        let word = align4(addr);
        // The write-only channel registers read as zero, so a halfword write to one has to splice
        // into what was written, not into what reads back.
        let current = if is_channel(word) {
            let channel = &self.channels[((word - BASE) / 16) as usize];
            let offset = (word - BASE) % 16;
            if offset == 0 {
                channel.control
            } else if offset == 4 {
                channel.source
            } else if offset == 8 {
                channel.timer as u32 + 0x1_0000 * channel.loop_start as u32
            } else if offset == 12 {
                channel.length
            } else {
                0
            }
        } else {
            match self.read32_reg(word) {
                None => {
                    return false;
                },
                Some(current) => current,
            }
        };
        self.write32_reg(word, with_half(current, addr, value))
    }

    pub fn read8_reg(&self, addr: u32) -> (r: Option<u8>)
        ensures
            r == (match self@.word(align4(addr)) {
                None => None,
                Some(word) => Some(byte_at(word, addr)),
            }),
    {
        match self.read32_reg(align4(addr)) {
            None => None,
            Some(word) => Some(byte_at(word, addr)),
        }
    }

    pub fn write8_reg(&mut self, addr: u32, value: u8) -> (r: bool)
        ensures
            final(self)@ == old(self)@.written8(addr, value),
            r == (old(self)@.word(align4(addr)) is Some),
    {
        match self.read16_reg(align2(addr)) {
            None => false,
            Some(half) => {
                let spliced: u16 = if addr % 2 == 0 {
                    half - half % 0x100 + value as u16
                } else {
                    half % 0x100 + value as u16 * 0x100
                };
                self.write16_reg(align2(addr), spliced)
            },
        }
    }

    /// Whether a channel is playing.
    pub fn channel_is_busy(&self, index: usize) -> (r: bool)
        requires
            index < 16,
        ensures
            r == self@.channels[index as int].busy(),
    {
        self.channels[index].busy()
    }

    pub fn reset(&mut self)
        ensures
            final(self)@ == ApuState::initial(),
    {
        *self = NdsApu::new();
    }

    /// Save the hardware. What has not been handed to the frontend yet is not part of it.
    pub fn save(&self, w: &mut StateWriter)
        ensures
            state::continues(old(w)@, final(w)@),
            final(w)@.len() == old(w)@.len() + saved_size(),
            self@.encoded_at(final(w)@, old(w)@.len() as int),
    {
        let ghost start = w@;
        let ghost at = start.len() as int;
        for i in 0..16usize
            invariant
                at == start.len(),
                state::continues(start, w@),
                w@.len() == at + 47 * i,
                forall|j: int|
                    0 <= j < i ==> (#[trigger] self.channels[j]).restored(
                        w@,
                        w@.len() as int,
                        at + 47 * j,
                    ) == self.channels[j],
        {
            let ghost before = w@;
            self.channels[i].save(w);
            proof {
                assert forall|j: int| 0 <= j < i implies (#[trigger] self.channels[j]).restored(
                    w@,
                    w@.len() as int,
                    at + 47 * j,
                ) == self.channels[j] by {
                    channel::lemma_channel_kept(before, w@, at + 47 * j, self.channels[j]);
                }
            }
        }
        let ghost before = w@;
        w.write_u16(self.soundcnt);
        w.write_u16(self.soundbias);
        w.write_u32(self.sample_accumulator);
        proof {
            assert forall|j: int| 0 <= j < 16 implies (#[trigger] self.channels[j]).restored(
                w@,
                w@.len() as int,
                at + 47 * j,
            ) == self.channels[j] by {
                channel::lemma_channel_kept(before, w@, at + 47 * j, self.channels[j]);
            }
            assert(self@.restored(w@, w@.len() as int, at).channels =~= self@.channels);
        }
    }

    pub fn load(&mut self, r: &mut StateReader) -> (result: Result<(), StateError>)
        ensures
            final(self)@ == old(self)@.restored(
                old(r).data(),
                old(r).limit(),
                old(r).pos() as int,
            ),
            state::advanced(*old(r), *final(r), saved_size()),
            result == state::verdict(*final(r)),
    {
        let ghost start = *r;
        let mut channels = self.channels;
        for i in 0..16usize
            invariant
                self@ == old(self)@,
                state::advanced(start, *r, 47 * i as int),
                forall|j: int|
                    0 <= j < i ==> #[trigger] channels@[j] == old(self)@.channels[j].restored(
                        start.data(),
                        start.limit(),
                        start.pos() + 47 * j,
                    ),
                forall|j: int| i <= j < 16 ==> #[trigger] channels@[j] == old(self)@.channels[j],
        {
            let mut channel = channels[i];
            let ghost before = *r;
            channel.load(r);
            proof {
                lemma_channel_where(start, before, i as int, channels[i as int]);
            }
            channels[i] = channel;
        }
        self.channels = channels;
        self.soundcnt = r.u16_or(self.soundcnt);
        self.soundbias = r.u16_or(self.soundbias);
        self.sample_accumulator = r.u32_or(self.sample_accumulator);
        if !r.failed() {
            self.output = Vec::new();
        }
        assert(self@ =~= old(self)@.restored(old(r).data(), old(r).limit(), old(r).pos() as int));
        r.status()
    }
}

/// A channel read where a reader has come to is one read where it was to come to.
proof fn lemma_channel_where(start: StateReader, here: StateReader, i: int, channel: Channel)
    requires
        0 <= i < 16,
        state::advanced(start, here, 47 * i),
    ensures
        channel.restored(here.data(), here.limit(), here.pos() as int) == channel.restored(
            start.data(),
            start.limit(),
            start.pos() + 47 * i,
        ),
{
}

/// What a channel adds to the two sides.
fn contribution(channel: &Channel) -> (r: (i64, i64))
    ensures
        r.0 == loudness(*channel) * (128 - channel.panning()),
        r.1 == loudness(*channel) * channel.panning(),
        -0x4_0000_0000 <= r.0 <= 0x4_0000_0000,
        -0x4_0000_0000 <= r.1 <= 0x4_0000_0000,
{
    let current = channel.current as i64;
    let volume = channel.volume() as i64;
    let share = (16 / channel.volume_divider()) as i64;
    let pan = channel.panning() as i64;
    let ghost level = current * volume;
    assert(-0x40_0000 <= level <= 0x40_0000) by (nonlinear_arith)
        requires
            level == current * volume,
            -0x8000 <= current <= 0x7FFF,
            0 <= volume < 0x80,
    ;
    assert(-0x400_0000 <= level * share <= 0x400_0000) by (nonlinear_arith)
        requires
            -0x40_0000 <= level <= 0x40_0000,
            0 <= share <= 16,
    ;
    let loud: i64 = current * volume * share;
    assert(-0x2_0000_0000 <= loud * (128 - pan) <= 0x2_0000_0000) by (nonlinear_arith)
        requires
            -0x400_0000 <= loud <= 0x400_0000,
            0 <= pan < 128,
    ;
    assert(-0x2_0000_0000 <= loud * pan <= 0x2_0000_0000) by (nonlinear_arith)
        requires
            -0x400_0000 <= loud <= 0x400_0000,
            0 <= pan < 128,
    ;
    (loud * (128 - pan), loud * pan)
}

/// The two constants come to this many cycles per sample, and the divisors to this full scale.
proof fn lemma_per_sample()
    ensures
        PER_SAMPLE == CLOCK / AUDIO_SAMPLE_RATE,
        FULL_SCALE == 32768 * 127 * 16 * 128 * 127 * 8,
{
}

impl Default for NdsApu {
    fn default() -> (r: Self)
        ensures
            r@ == ApuState::initial(),
    {
        NdsApu::new()
    }
}

/// Hardware that was saved comes back whole, but for the samples, whatever it is read into.
pub proof fn law_save_then_load(saved: ApuState, before: ApuState, d: Seq<u8>, at: int)
    requires
        0 <= at,
        saved.wf(),
        before.wf(),
        saved.encoded_at(d, at),
    ensures
        before.restored(d, d.len() as int, at) == (ApuState { output: Seq::empty(), ..saved }),
{
    let limit = d.len() as int;
    assert forall|i: int| 0 <= i < 16 implies before.restored(d, limit, at).channels[i]
        == saved.restored(d, limit, at).channels[i] by {
        channel::lemma_channel_decided(d, at + 47 * i, before.channels[i], saved.channels[i]);
    }
    assert(before.restored(d, limit, at) =~= saved.restored(d, limit, at));
}

/// Nothing is heard, and nothing moves, while the master switch is off.
pub proof fn law_the_master_switch_silences_everything(apu: ApuState, m: MemoryState)
    requires
        !apu.enabled(),
    ensures
        apu.mixed(m).channels == apu.channels,
        apu.mixed(m).output == apu.output.push(silence()),
{
}

/// The mix never leaves full scale.
pub proof fn law_the_mix_does_not_clip(apu: ApuState, m: MemoryState)
    ensures
        -FULL_SCALE <= apu.mix(m).left <= FULL_SCALE,
        -FULL_SCALE <= apu.mix(m).right <= FULL_SCALE,
{
}

/// A channel panned to the centre is as loud on one side as on the other.
pub proof fn law_the_centre_is_the_centre(channel: Channel)
    requires
        channel.panning() == 64,
    ensures
        loudness(channel) * (128 - channel.panning()) == loudness(channel) * channel.panning(),
{
}

/// Running `a` samples and then `b` more is running `a + b` samples.
pub proof fn law_samples_add_up(apu: ApuState, m: MemoryState, a: nat, b: nat)
    ensures
        apu.mixed_times(m, a).mixed_times(m, b) == apu.mixed_times(m, a + b),
        apu.mixed_times(m, a).output.len() == apu.output.len() + a,
    decreases a,
{
    if a > 0 {
        law_samples_add_up(apu.mixed(m), m, (a - 1) as nat, b);
    }
}

/// How the accumulator is carried makes no difference to the channels or the output.
proof fn lemma_mixing_ignores_the_accumulator(apu: ApuState, m: MemoryState, n: nat, acc: u32)
    ensures
        (ApuState { accumulator: acc, ..apu }).mixed_times(m, n) == (ApuState {
            accumulator: acc,
            ..apu.mixed_times(m, n)
        }),
    decreases n,
{
    if n > 0 {
        let other = ApuState { accumulator: acc, ..apu };
        assert(other.mixed(m) =~= (ApuState { accumulator: acc, ..apu.mixed(m) }));
        lemma_mixing_ignores_the_accumulator(apu.mixed(m), m, (n - 1) as nat, acc);
    }
}

/// Cycles may be handed over in any pieces: two steps come to the same as one of their sum.
pub proof fn law_steps_add_up(apu: ApuState, m: MemoryState, a: nat, b: nat)
    ensures
        apu.stepped(a, m).stepped(b, m) == apu.stepped(a + b, m),
{
    let p = PER_SAMPLE as int;
    let first = apu.accumulator + a;
    let rest = first % p;
    let n = (first / p) as nat;
    let second = rest + b;
    let k = (second / p) as nat;
    let whole = apu.accumulator + a + b;
    let last = (second % p) as u32;
    assert(whole == p * n + second);
    assert(whole / p == n + k && whole % p == second % p) by {
        vstd::arithmetic::div_mod::lemma_fundamental_div_mod_converse(
            whole,
            p,
            (n + k) as int,
            second % p,
        );
    }
    let middle = apu.stepped(a, m);
    lemma_mixing_ignores_the_accumulator(apu, m, n, rest as u32);
    assert(middle == (ApuState { accumulator: rest as u32, ..apu.mixed_times(m, n) }));
    lemma_mixing_ignores_the_accumulator(apu.mixed_times(m, n), m, k, last);
    lemma_mixing_ignores_the_accumulator(apu, m, n + k, last);
    law_samples_add_up(apu, m, n, k);
    assert(middle.accumulator == rest);
    assert(ApuState { accumulator: last, ..middle } == (ApuState {
        accumulator: last,
        ..apu.mixed_times(m, n)
    }));
}

} // verus!
