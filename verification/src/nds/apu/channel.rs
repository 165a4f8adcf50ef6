//! One of the sixteen sound channels: a pointer, a length, and a rate.

use vstd::prelude::*;
use crate::arith;
use crate::nds::memory::{MemoryState, NdsMemory};
use crate::state::{self, StateReader, StateWriter};

verus! {

/// The master clock, which is also what the channel timers divide.
pub const CLOCK: u32 = 33_513_982;

/// Output samples per second.
pub const AUDIO_SAMPLE_RATE: u32 = 48_000;

/// How a channel interprets the bytes it fetches.
#[derive(Debug, Clone, Copy, PartialEq, Eq, Structural)]
pub enum Format {
    /// Signed 8-bit samples, four per word.
    Pcm8,
    /// Signed 16-bit samples, two per word.
    Pcm16,
    /// IMA-ADPCM: a four-byte header then two 4-bit nibbles per byte.
    Adpcm,
    /// A square wave on channels 8-13, noise on 14-15, and silence anywhere else.
    Psg,
}

/// What a channel does when it reaches the end of its data.
#[derive(Debug, Clone, Copy, PartialEq, Eq, Structural)]
pub enum Repeat {
    /// Keep playing whatever comes next.
    Manual,
    /// Jump back to the loop point.
    Loop,
    /// Stop, clearing the busy bit so software can see it finished.
    OneShot,
}

/// The IMA-ADPCM step table.
pub const ADPCM_TABLE: [i32; 89] = [
    7, 8, 9, 10, 11, 12, 13, 14, 16, 17, 19, 21, 23, 25, 28, 31, 34, 37, 41, 45, 50, 55, 60, 66,
    73, 80, 88, 97, 107, 118, 130, 143, 157, 173, 190, 209, 230, 253, 279, 307, 337, 371, 408, 449,
    494, 544, 598, 658, 724, 796, 876, 963, 1060, 1166, 1282, 1411, 1552, 1707, 1878, 2066, 2272,
    2499, 2749, 3024, 3327, 3660, 4026, 4428, 4871, 5358, 5894, 6484, 7132, 7845, 8630, 9493,
    10442, 11487, 12635, 13899, 15289, 16818, 18500, 20350, 22385, 24623, 27086, 29794, 32767,
];

/// The step at an index, which is moved into the table first.
#[verifier::opaque]
pub open spec fn adpcm_step(index: i32) -> int {
    ADPCM_TABLE[arith::clamped(index as int, 0, 88)] as int
}

/// What a nibble's magnitude does to the index.
#[verifier::allow_in_spec]
pub fn index_step(nibble: u8) -> i32
    returns
        (if nibble % 8 < 4 {
            -1i32
        } else if nibble % 8 == 4 {
            2
        } else if nibble % 8 == 5 {
            4
        } else if nibble % 8 == 6 {
            6
        } else {
            8
        }),
{
    let magnitude = nibble % 8;
    if magnitude < 4 {
        -1
    } else if magnitude == 4 {
        2
    } else if magnitude == 5 {
        4
    } else if magnitude == 6 {
        6
    } else {
        8
    }
}

/// How far a nibble moves the value: an eighth of the step, plus a quarter, a half and the whole of
/// it for its low three bits.
pub open spec fn adpcm_difference(step: int, nibble: u8) -> int {
    step / 8 + (if nibble % 2 == 1 { step / 4 } else { 0 }) + (if nibble / 2 % 2 == 1 {
        step / 2
    } else {
        0
    }) + (if nibble / 4 % 2 == 1 { step } else { 0 })
}

/// One channel.
#[derive(Debug, Clone, Copy, PartialEq, Eq, Structural)]
pub struct Channel {
    pub control: u32,
    pub source: u32,
    pub timer: u16,
    pub loop_start: u16,
    pub length: u32,
    /// Byte offset from `source` of the next sample to fetch.
    pub position: u32,
    /// Sub-sample position, as a 16.16 fixed-point count of channel samples.
    pub fraction: u32,
    /// The last decoded sample, held between output samples.
    pub current: i16,
    /// ADPCM decoder state, and the copy of it taken at the loop point.
    pub adpcm_value: i32,
    pub adpcm_index: i32,
    pub adpcm_loop_value: i32,
    pub adpcm_loop_index: i32,
    /// Whether the loop snapshot has been taken this pass.
    pub adpcm_loop_saved: bool,
    /// Which nibble of the current byte comes next.
    pub adpcm_high_nibble: bool,
    /// PSG duty position, 0-7, and the noise shift register.
    pub psg_phase: u8,
    pub noise: u16,
}

/// How many bytes a channel saves.
pub open spec fn saved_size() -> int {
    47
}

impl Channel {
    /// Nothing set; the noise register starts at all ones.
    pub open spec fn initial() -> Channel {
        Channel {
            control: 0,
            source: 0,
            timer: 0,
            loop_start: 0,
            length: 0,
            position: 0,
            fraction: 0,
            current: 0,
            adpcm_value: 0,
            adpcm_index: 0,
            adpcm_loop_value: 0,
            adpcm_loop_index: 0,
            adpcm_loop_saved: false,
            adpcm_high_nibble: false,
            psg_phase: 0,
            noise: 0x7FFF,
        }
    }

    pub fn new() -> (r: Self)
        ensures
            r == Channel::initial(),
    {
        Channel {
            control: 0,
            source: 0,
            timer: 0,
            loop_start: 0,
            length: 0,
            position: 0,
            fraction: 0,
            current: 0,
            adpcm_value: 0,
            adpcm_index: 0,
            adpcm_loop_value: 0,
            adpcm_loop_index: 0,
            adpcm_loop_saved: false,
            adpcm_high_nibble: false,
            psg_phase: 0,
            noise: 0x7FFF,
        }
    }

    #[verifier::allow_in_spec]
    pub fn busy(&self) -> bool
        returns
            self.control >= 0x8000_0000,
    {
        self.control >= 0x8000_0000
    }

    #[verifier::allow_in_spec]
    pub fn volume(&self) -> u32
        returns
            self.control % 0x80,
    {
        self.control % 0x80
    }

    /// The volume divider: 1, 2, 4 or 16. The last is not 8.
    #[verifier::allow_in_spec]
    pub fn volume_divider(&self) -> u32
        returns
            (if self.control / 0x100 % 4 == 0 {
                1u32
            } else if self.control / 0x100 % 4 == 1 {
                2
            } else if self.control / 0x100 % 4 == 2 {
                4
            } else {
                16
            }),
    {
        let bits = self.control / 0x100 % 4;
        if bits == 0 {
            1
        } else if bits == 1 {
            2
        } else if bits == 2 {
            4
        } else {
            16
        }
    }

    #[verifier::allow_in_spec]
    pub fn panning(&self) -> u32
        returns
            self.control / 0x1_0000 % 0x80,
    {
        self.control / 0x1_0000 % 0x80
    }

    #[verifier::allow_in_spec]
    pub fn duty(&self) -> u32
        returns
            self.control / 0x100_0000 % 8,
    {
        self.control / 0x100_0000 % 8
    }

    /// What happens at the end. The last encoding is prohibited and behaves as manual.
    #[verifier::allow_in_spec]
    pub fn repeat(&self) -> Repeat
        returns
            (if self.control / 0x800_0000 % 4 == 1 {
                Repeat::Loop
            } else if self.control / 0x800_0000 % 4 == 2 {
                Repeat::OneShot
            } else {
                Repeat::Manual
            }),
    {
        let bits = self.control / 0x800_0000 % 4;
        if bits == 1 {
            Repeat::Loop
        } else if bits == 2 {
            Repeat::OneShot
        } else {
            Repeat::Manual
        }
    }

    #[verifier::allow_in_spec]
    pub fn format(&self) -> Format
        returns
            (if self.control / 0x2000_0000 % 4 == 0 {
                Format::Pcm8
            } else if self.control / 0x2000_0000 % 4 == 1 {
                Format::Pcm16
            } else if self.control / 0x2000_0000 % 4 == 2 {
                Format::Adpcm
            } else {
                Format::Psg
            }),
    {
        let bits = self.control / 0x2000_0000 % 4;
        if bits == 0 {
            Format::Pcm8
        } else if bits == 1 {
            Format::Pcm16
        } else if bits == 2 {
            Format::Adpcm
        } else {
            Format::Psg
        }
    }

    /// Channel samples per second.
    #[verifier::allow_in_spec]
    pub fn rate(&self) -> u32
        returns
            (CLOCK as int / (2 * (0x1_0000 - self.timer))) as u32,
    {
        let divisor: u32 = 2 * (0x1_0000 - self.timer as u32);
        proof {
            lemma_rate(divisor as int);
        }
        CLOCK / divisor
    }

    /// The byte that a loop resumes at.
    pub open spec fn loop_point(self) -> int {
        4 * self.loop_start
    }

    /// The byte that the data ends before.
    pub open spec fn end(self) -> int {
        4 * (self.loop_start + self.length)
    }

    /// Whether the square wave is high: for one eighth of a cycle at duty 0, one more for each step
    /// up, and never at duty 7.
    pub open spec fn square_is_high(self, phase: int) -> bool {
        self.duty() < 7 && phase >= 7 - self.duty()
    }

    /// A PSG sample: a square wave on channels 8-13, noise on 14-15, silence elsewhere.
    pub open spec fn psg_next(self, index: int) -> Channel {
        if 8 <= index <= 13 {
            let phase = ((self.psg_phase + 1) % 8) as u8;
            Channel {
                psg_phase: phase,
                current: if self.square_is_high(phase as int) { 0x7FFF } else { i16::MIN },
                ..self
            }
        } else if index == 14 || index == 15 {
            let feedback = (self.noise ^ (self.noise >> 1u16)) & 1;
            let noise = (self.noise >> 1u16) | (feedback << 14u16);
            Channel { noise, current: if noise % 2 == 1 { 0x7FFF } else { i16::MIN }, ..self }
        } else {
            Channel { current: 0, ..self }
        }
    }

    /// The four-byte ADPCM header taken in.
    pub open spec fn with_header(self, m: MemoryState) -> Channel {
        let header = m.fetch32(self.source);
        Channel {
            adpcm_value: ((header % 0x1_0000) as u16) as i16 as i32,
            adpcm_index: arith::smaller((header / 0x1_0000 % 0x80) as int, 88) as i32,
            position: 4,
            adpcm_high_nibble: false,
            ..self
        }
    }

    /// The nibble that comes next.
    pub open spec fn nibble(self, m: MemoryState) -> u8 {
        let byte = m.fetch8(self.source.wrapping_add(self.position));
        if self.adpcm_high_nibble { byte / 16 } else { (byte % 16) as u8 }
    }

    /// One IMA-ADPCM nibble decoded.
    pub open spec fn adpcm_next(self, m: MemoryState) -> Channel {
        let nibble = self.nibble(m);
        let difference = adpcm_difference(adpcm_step(self.adpcm_index), nibble);
        let value = arith::clamped(
            if nibble >= 8 { self.adpcm_value - difference } else { self.adpcm_value + difference },
            -0x8000,
            0x7FFF,
        );
        Channel {
            position: if self.adpcm_high_nibble {
                self.position.wrapping_add(1)
            } else {
                self.position
            },
            adpcm_high_nibble: !self.adpcm_high_nibble,
            adpcm_value: value as i32,
            adpcm_index: arith::clamped(self.adpcm_index + index_step(nibble), 0, 88) as i32,
            current: value as i16,
            ..self
        }
    }

    /// A sample fetched and decoded, before the end of the data is looked for.
    pub open spec fn fetched(self, m: MemoryState) -> Channel {
        let at = self.source.wrapping_add(self.position);
        match self.format() {
            Format::Pcm8 => Channel {
                current: ((m.fetch8(at) as i8) * 256) as i16,
                position: self.position.wrapping_add(1),
                ..self
            },
            Format::Pcm16 => Channel {
                current: m.fetch16(at) as i16,
                position: self.position.wrapping_add(2),
                ..self
            },
            // ADPCM takes its header before anything else, and does it once.
            _ => if self.position == 0 {
                self.with_header(m).adpcm_next(m)
            } else {
                self.adpcm_next(m)
            },
        }
    }

    /// Loop, stop, or carry on, having just consumed a sample.
    pub open spec fn ended(self) -> Channel {
        let adpcm = self.format() == Format::Adpcm;
        if self.position < self.end() {
            // The decoder is copied as the loop point goes past, since a loop has to resume from
            // its state there.
            if adpcm && !self.adpcm_loop_saved && self.position >= self.loop_point() {
                Channel {
                    adpcm_loop_value: self.adpcm_value,
                    adpcm_loop_index: self.adpcm_index,
                    adpcm_loop_saved: true,
                    ..self
                }
            } else {
                self
            }
        } else {
            match self.repeat() {
                Repeat::Loop => Channel {
                    position: (self.loop_start * 4) as u32,
                    adpcm_high_nibble: false,
                    adpcm_value: if adpcm { self.adpcm_loop_value } else { self.adpcm_value },
                    adpcm_index: if adpcm { self.adpcm_loop_index } else { self.adpcm_index },
                    ..self
                },
                Repeat::OneShot => Channel {
                    control: (self.control % 0x8000_0000) as u32,
                    current: 0,
                    ..self
                },
                Repeat::Manual => self,
            }
        }
    }

    /// The next channel sample.
    #[verifier::opaque]
    pub open spec fn next(self, index: int, m: MemoryState) -> Channel {
        if self.format() == Format::Psg {
            self.psg_next(index)
        } else {
            self.fetched(m).ended()
        }
    }

    /// The next `n` channel samples, or as many as there are before the channel stops.
    pub open spec fn next_times(self, index: int, m: MemoryState, n: nat) -> Channel
        decreases n,
    {
        if n == 0 || !self.busy() {
            self
        } else {
            self.next(index, m).next_times(index, m, (n - 1) as nat)
        }
    }

    /// How far one output sample moves a channel, in 16.16 channel samples.
    pub open spec fn stride(self) -> int {
        self.fraction + self.rate() * 0x1_0000 / AUDIO_SAMPLE_RATE as int
    }

    /// A running channel, one output sample later.
    pub open spec fn advanced(self, index: int, m: MemoryState) -> Channel {
        Channel { fraction: (self.stride() % 0x1_0000) as u32, ..self }.next_times(
            index,
            m,
            (self.stride() / 0x1_0000) as nat,
        )
    }

    /// The control register written: a rising edge of the busy bit restarts the channel.
    pub open spec fn controlled(self, value: u32) -> Channel {
        if !self.busy() && value >= 0x8000_0000 {
            Channel {
                control: value,
                position: 0,
                fraction: 0,
                current: 0,
                adpcm_high_nibble: false,
                adpcm_loop_saved: false,
                psg_phase: 0,
                noise: 0x7FFF,
                ..self
            }
        } else {
            Channel { control: value, ..self }
        }
    }

    /// The channel after reading the stream at `at`, as far as `limit` lets it be read.
    pub open spec fn restored(self, d: Seq<u8>, limit: int, at: int) -> Channel {
        Channel {
            control: state::or32(d, limit, at, self.control),
            source: state::or32(d, limit, at + 4, self.source),
            timer: state::or16(d, limit, at + 8, self.timer),
            loop_start: state::or16(d, limit, at + 10, self.loop_start),
            length: state::or32(d, limit, at + 12, self.length),
            position: state::or32(d, limit, at + 16, self.position),
            fraction: state::or32(d, limit, at + 20, self.fraction),
            current: state::or_i16(d, limit, at + 24, self.current),
            adpcm_value: state::or_i32(d, limit, at + 26, self.adpcm_value),
            adpcm_index: state::or_i32(d, limit, at + 30, self.adpcm_index),
            adpcm_loop_value: state::or_i32(d, limit, at + 34, self.adpcm_loop_value),
            adpcm_loop_index: state::or_i32(d, limit, at + 38, self.adpcm_loop_index),
            adpcm_loop_saved: state::or_bool(d, limit, at + 42, self.adpcm_loop_saved),
            adpcm_high_nibble: state::or_bool(d, limit, at + 43, self.adpcm_high_nibble),
            psg_phase: state::or8(d, limit, at + 44, self.psg_phase),
            noise: state::or16(d, limit, at + 45, self.noise),
        }
    }

    /// Advance by one output sample.
    pub fn advance(&mut self, index: usize, memory: &NdsMemory)
        requires
            memory@.wf(),
        ensures
            *final(self) == old(self).advanced(index as int, memory@),
    {
        let rate = self.rate();
        proof {
            lemma_rate(2 * (0x1_0000 - self.timer));
        }
        let total: u64 = self.fraction as u64 + rate as u64 * 0x1_0000 / AUDIO_SAMPLE_RATE as u64;
        let whole: u64 = total / 0x1_0000;
        self.fraction = (total % 0x1_0000) as u32;
        let ghost start = *self;
        for done in 0..whole
            invariant
                memory@.wf(),
                self.next_times(index as int, memory@, (whole - done) as nat) == start.next_times(
                    index as int,
                    memory@,
                    whole as nat,
                ),
        {
            if self.busy() {
                self.next_sample(index, memory);
            }
        }
    }

    /// Decode the next channel sample, handling the end of the data.
    fn next_sample(&mut self, index: usize, memory: &NdsMemory)
        requires
            memory@.wf(),
        ensures
            *final(self) == old(self).next(index as int, memory@),
    {
        reveal(Channel::next);
        match self.format() {
            Format::Psg => {
                self.next_psg_sample(index);
            },
            _ => {
                self.fetch(memory);
                self.check_end();
            },
        }
    }

    /// Fetch and decode one sample.
    fn fetch(&mut self, memory: &NdsMemory)
        requires
            memory@.wf(),
            old(self).format() != Format::Psg,
        ensures
            *final(self) == old(self).fetched(memory@),
    {
        let at = self.source.wrapping_add(self.position);
        match self.format() {
            Format::Pcm8 => {
                let byte = memory.fetch8(at) as i8;
                self.current = (byte as i32 * 256) as i16;
                self.position = self.position.wrapping_add(1);
            },
            Format::Pcm16 => {
                self.current = memory.fetch16(at) as i16;
                self.position = self.position.wrapping_add(2);
            },
            _ => {
                if self.position == 0 {
                    self.take_header(memory);
                }
                self.next_adpcm_sample(memory);
            },
        }
    }

    /// The four-byte ADPCM header.
    fn take_header(&mut self, memory: &NdsMemory)
        requires
            memory@.wf(),
        ensures
            *final(self) == old(self).with_header(memory@),
    {
        let header = memory.fetch32(self.source);
        self.adpcm_value = ((header % 0x1_0000) as u16) as i16 as i32;
        let index: u32 = header / 0x1_0000 % 0x80;
        self.adpcm_index = if index <= 88 { index as i32 } else { 88 };
        self.position = 4;
        self.adpcm_high_nibble = false;
    }

    /// One IMA-ADPCM nibble.
    #[verifier::rlimit(30)]
    fn next_adpcm_sample(&mut self, memory: &NdsMemory)
        requires
            memory@.wf(),
        ensures
            *final(self) == old(self).adpcm_next(memory@),
    {
        let byte = memory.fetch8(self.source.wrapping_add(self.position));
        let nibble: u8 = if self.adpcm_high_nibble { byte / 16 } else { byte % 16 };
        if self.adpcm_high_nibble {
            self.position = self.position.wrapping_add(1);
        }
        self.adpcm_high_nibble = !self.adpcm_high_nibble;
        let step = step_at(self.adpcm_index);
        let mut difference: i64 = step / 8;
        if nibble % 2 == 1 {
            difference = difference + step / 4;
        }
        if nibble / 2 % 2 == 1 {
            difference = difference + step / 2;
        }
        if nibble / 4 % 2 == 1 {
            difference = difference + step;
        }
        let moved: i64 = if nibble >= 8 {
            self.adpcm_value as i64 - difference
        } else {
            self.adpcm_value as i64 + difference
        };
        let value = arith::clamp(moved, -0x8000, 0x7FFF);
        self.adpcm_value = value as i32;
        self.adpcm_index = arith::clamp(
            self.adpcm_index as i64 + index_step(nibble) as i64,
            0,
            88,
        ) as i32;
        self.current = value as i16;
    }

    /// A square wave on channels 8-13, noise on 14-15, silence elsewhere.
    fn next_psg_sample(&mut self, index: usize)
        ensures
            *final(self) == old(self).psg_next(index as int),
    {
        if 8 <= index && index <= 13 {
            let phase: u8 = (self.psg_phase % 8 + 1) % 8;
            assert(phase == (self.psg_phase + 1) % 8);
            self.psg_phase = phase;
            let duty = self.duty();
            let high = duty < 7 && phase as u32 >= 7 - duty;
            self.current = if high { 0x7FFF } else { -0x8000 };
        } else if index == 14 || index == 15 {
            let feedback = (self.noise ^ (self.noise >> 1u16)) & 1;
            self.noise = (self.noise >> 1u16) | (feedback << 14u16);
            self.current = if self.noise % 2 == 1 { 0x7FFF } else { -0x8000 };
        } else {
            self.current = 0;
        }
    }

    /// Loop, stop, or carry on, having just consumed a sample.
    fn check_end(&mut self)
        ensures
            *final(self) == old(self).ended(),
    {
        let position: u64 = self.position as u64;
        let loop_point: u64 = 4 * self.loop_start as u64;
        let end: u64 = loop_point + 4 * self.length as u64;
        let adpcm = self.format() == Format::Adpcm;
        if position < end {
            if adpcm && !self.adpcm_loop_saved && position >= loop_point {
                self.adpcm_loop_value = self.adpcm_value;
                self.adpcm_loop_index = self.adpcm_index;
                self.adpcm_loop_saved = true;
            }
            return;
        }
        match self.repeat() {
            Repeat::Loop => {
                self.position = self.loop_start as u32 * 4;
                self.adpcm_high_nibble = false;
                if adpcm {
                    self.adpcm_value = self.adpcm_loop_value;
                    self.adpcm_index = self.adpcm_loop_index;
                }
            },
            Repeat::OneShot => {
                // Clearing the busy bit is how software sees a sound finish.
                self.control = self.control % 0x8000_0000;
                self.current = 0;
            },
            Repeat::Manual => {},
        }
    }

    /// Write the control register, restarting on the rising edge of the busy bit.
    pub fn set_control(&mut self, value: u32)
        ensures
            *final(self) == old(self).controlled(value),
    {
        let was_busy = self.busy();
        self.control = value;
        if !was_busy && self.busy() {
            self.position = 0;
            self.fraction = 0;
            self.current = 0;
            self.adpcm_high_nibble = false;
            self.adpcm_loop_saved = false;
            self.psg_phase = 0;
            self.noise = 0x7FFF;
        }
    }

    pub fn save(&self, w: &mut StateWriter)
        ensures
            state::continues(old(w)@, final(w)@),
            final(w)@.len() == old(w)@.len() + saved_size(),
            self.restored(final(w)@, final(w)@.len() as int, old(w)@.len() as int) == *self,
    {
        w.write_u32(self.control);
        w.write_u32(self.source);
        w.write_u16(self.timer);
        w.write_u16(self.loop_start);
        w.write_u32(self.length);
        w.write_u32(self.position);
        w.write_u32(self.fraction);
        w.write_i16(self.current);
        w.write_i32(self.adpcm_value);
        w.write_i32(self.adpcm_index);
        w.write_i32(self.adpcm_loop_value);
        w.write_i32(self.adpcm_loop_index);
        w.write_bool(self.adpcm_loop_saved);
        w.write_bool(self.adpcm_high_nibble);
        w.write_u8(self.psg_phase);
        w.write_u16(self.noise);
    }

    pub fn load(&mut self, r: &mut StateReader)
        ensures
            *final(self) == old(self).restored(old(r).data(), old(r).limit(), old(r).pos() as int),
            state::advanced(*old(r), *final(r), saved_size()),
    {
        self.control = r.u32_or(self.control);
        self.source = r.u32_or(self.source);
        self.timer = r.u16_or(self.timer);
        self.loop_start = r.u16_or(self.loop_start);
        self.length = r.u32_or(self.length);
        self.position = r.u32_or(self.position);
        self.fraction = r.u32_or(self.fraction);
        self.current = r.i16_or(self.current);
        self.adpcm_value = r.i32_or(self.adpcm_value);
        self.adpcm_index = r.i32_or(self.adpcm_index);
        self.adpcm_loop_value = r.i32_or(self.adpcm_loop_value);
        self.adpcm_loop_index = r.i32_or(self.adpcm_loop_index);
        self.adpcm_loop_saved = r.bool_or(self.adpcm_loop_saved);
        self.adpcm_high_nibble = r.bool_or(self.adpcm_high_nibble);
        self.psg_phase = r.u8_or(self.psg_phase);
        self.noise = r.u16_or(self.noise);
    }
}

/// The step at an index.
fn step_at(index: i32) -> (r: i64)
    ensures
        r == adpcm_step(index),
        0 <= r <= 0x7FFF,
{
    reveal(adpcm_step);
    let clamped = arith::clamp(index as i64, 0, 88) as usize;
    let step = ADPCM_TABLE[clamped];
    proof {
        lemma_steps_are_small(clamped as int);
    }
    step as i64
}

/// Every step fits in 15 bits.
pub(crate) proof fn lemma_steps_are_small(i: int)
    requires
        0 <= i < 89,
    ensures
        7 <= ADPCM_TABLE[i] <= 0x7FFF,
{
}

/// A rate is a quarter of the clock at most.
pub(crate) proof fn lemma_rate(divisor: int)
    requires
        2 <= divisor,
    ensures
        0 <= CLOCK as int / divisor <= CLOCK / 2,
{
    assert(0 <= CLOCK as int / divisor <= CLOCK as int / 2) by (nonlinear_arith)
        requires
            2 <= divisor,
            CLOCK == 33_513_982,
    ;
}

/// A channel that was saved stays readable as the stream grows.
pub proof fn lemma_channel_kept(shorter: Seq<u8>, longer: Seq<u8>, at: int, channel: Channel)
    requires
        0 <= at,
        at + saved_size() <= shorter.len(),
        state::continues(shorter, longer),
        channel.restored(shorter, shorter.len() as int, at) == channel,
    ensures
        channel.restored(longer, longer.len() as int, at) == channel,
{
}

/// Two channels read from the same stream come out the same.
pub proof fn lemma_channel_decided(d: Seq<u8>, at: int, a: Channel, b: Channel)
    requires
        0 <= at,
        at + saved_size() <= d.len(),
    ensures
        a.restored(d, d.len() as int, at) == b.restored(d, d.len() as int, at),
{
}

/// Only a rising edge of the busy bit restarts a channel: adjusting a running one leaves it where it
/// is.
pub proof fn law_a_running_channel_is_not_restarted(channel: Channel, value: u32)
    requires
        channel.busy(),
    ensures
        channel.controlled(value) == (Channel { control: value, ..channel }),
{
}

/// The decoder never leaves the range of a 16-bit sample or of its table.
pub proof fn law_adpcm_stays_in_range(channel: Channel, m: MemoryState)
    ensures
        -0x8000 <= channel.adpcm_next(m).adpcm_value <= 0x7FFF,
        0 <= channel.adpcm_next(m).adpcm_index <= 88,
        channel.adpcm_next(m).current == channel.adpcm_next(m).adpcm_value,
{
}

/// Two nibbles make a byte: the position moves on only after the second.
pub proof fn law_two_nibbles_per_byte(channel: Channel, m: MemoryState)
    requires
        !channel.adpcm_high_nibble,
    ensures
        channel.adpcm_next(m).position == channel.position,
        channel.adpcm_next(m).adpcm_next(m).position == channel.position.wrapping_add(1),
        !channel.adpcm_next(m).adpcm_next(m).adpcm_high_nibble,
{
}

/// A channel plays to the end of its data. There a one-shot channel stops, and a looping one goes
/// back to its loop point and never stops.
pub proof fn law_only_one_shot_channels_stop(channel: Channel)
    requires
        channel.busy(),
    ensures
        channel.position < channel.end() ==> channel.ended().busy() && channel.ended().position
            == channel.position && channel.ended().current == channel.current,
        channel.repeat() == Repeat::Loop && channel.position >= channel.end()
            ==> channel.ended().position == channel.loop_point(),
        channel.repeat() == Repeat::Loop ==> channel.ended().busy(),
        channel.repeat() == Repeat::OneShot && channel.position >= channel.end()
            ==> !channel.ended().busy() && channel.ended().current == 0,
{
}

/// A square wave after `n` samples.
pub open spec fn squared_times(channel: Channel, index: int, n: nat) -> Channel
    decreases n,
{
    if n == 0 {
        channel
    } else {
        squared_times(channel, index, (n - 1) as nat).psg_next(index)
    }
}

/// How many of the next `n` samples of a square wave are high.
pub open spec fn high_samples(channel: Channel, index: int, n: nat) -> nat
    decreases n,
{
    if n == 0 {
        0
    } else {
        high_samples(channel, index, (n - 1) as nat) + if squared_times(channel, index, n).current
            == 0x7FFF {
            1nat
        } else {
            0
        }
    }
}

/// Wherever it stands, a square wave is high for one more eighth of a cycle than its duty number,
/// and duty 7 is silence rather than a full-on wave.
pub proof fn law_duty_counts_eighths(channel: Channel, index: int)
    requires
        8 <= index <= 13,
    ensures
        high_samples(channel, index, 8) == if channel.duty() == 7 {
            0
        } else {
            channel.duty() + 1
        },
        squared_times(channel, index, 8).psg_phase == channel.psg_phase % 8,
{
    lemma_squared(channel, index, 8);
    lemma_highs(channel, index, 8);
    lemma_eighths(channel.psg_phase as int, channel.duty() as int, 8);
}

/// How many of `n` steps from `phase` are high.
spec fn eighths(phase: int, duty: int, n: nat) -> nat
    decreases n,
{
    if n == 0 {
        0
    } else {
        eighths(phase, duty, (n - 1) as nat) + if duty < 7 && (phase + n) % 8 >= 7 - duty {
            1nat
        } else {
            0
        }
    }
}

proof fn lemma_highs(channel: Channel, index: int, n: nat)
    requires
        8 <= index <= 13,
    ensures
        high_samples(channel, index, n) == eighths(
            channel.psg_phase as int,
            channel.duty() as int,
            n,
        ),
    decreases n,
{
    if n > 0 {
        lemma_highs(channel, index, (n - 1) as nat);
        lemma_squared(channel, index, n);
    }
}

/// How many phases up to `last` are high.
spec fn highs_up_to(duty: int, last: int) -> int {
    if duty < 7 && last >= 7 - duty { last - (6 - duty) } else { 0 }
}

proof fn lemma_eighths(phase: int, duty: int, n: nat)
    requires
        0 <= phase,
        0 <= duty < 8,
        n <= 8,
    ensures
        eighths(phase, duty, n) == if phase % 8 + n < 8 {
            highs_up_to(duty, phase % 8 + n) - highs_up_to(duty, phase % 8)
        } else {
            highs_up_to(duty, 7) - highs_up_to(duty, phase % 8) + highs_up_to(
                duty,
                phase % 8 + n - 8,
            )
        },
    decreases n,
{
    if n > 0 {
        lemma_eighths(phase, duty, (n - 1) as nat);
    }
}

/// Where a square wave stands after `n` samples.
proof fn lemma_squared(channel: Channel, index: int, n: nat)
    requires
        8 <= index <= 13,
    ensures
        ({
            let after = squared_times(channel, index, n);
            &&& after.control == channel.control
            &&& after.psg_phase as int == if n == 0 {
                channel.psg_phase as int
            } else {
                (channel.psg_phase + n) % 8
            }
            &&& n > 0 ==> (after.current == 0x7FFF <==> channel.square_is_high(
                (channel.psg_phase + n) % 8,
            ))
        }),
    decreases n,
{
    if n > 0 {
        lemma_squared(channel, index, (n - 1) as nat);
    }
}

/// A one-shot PCM8 channel plays four samples for every word, and a one-shot PCM16 channel two: it
/// is busy until the last of them and stops there.
pub proof fn law_every_sample_is_played(channel: Channel, index: int, m: MemoryState, n: nat)
    requires
        channel.busy(),
        channel.repeat() == Repeat::OneShot,
        channel.position == 0,
        channel.format() == Format::Pcm8 || channel.format() == Format::Pcm16,
        0 < channel.end() < 0x1_0000_0000,
        n <= samples_held(channel),
    ensures
        channel.next_times(index, m, n).busy() <==> n < samples_held(channel),
        channel.next_times(index, m, n).position == n * sample_size(channel),
{
    lemma_played_on(channel, index, m, n);
}

/// How many bytes a PCM sample takes.
pub open spec fn sample_size(channel: Channel) -> int {
    if channel.format() == Format::Pcm8 { 1 } else { 2 }
}

/// How many PCM samples the data holds.
pub open spec fn samples_held(channel: Channel) -> int {
    if channel.format() == Format::Pcm8 { channel.end() } else { channel.end() / 2 }
}

/// One sample of a one-shot PCM channel.
proof fn lemma_one_sample(channel: Channel, index: int, m: MemoryState)
    requires
        channel.busy(),
        channel.repeat() == Repeat::OneShot,
        channel.format() == Format::Pcm8 || channel.format() == Format::Pcm16,
        channel.position as int % sample_size(channel) == 0,
        channel.position < channel.end() < 0x1_0000_0000,
    ensures
        ({
            let after = channel.next(index, m);
            &&& after.position == channel.position + sample_size(channel)
            &&& after.busy() <==> after.position < channel.end()
            &&& after.busy() ==> after.control == channel.control
            &&& after.loop_start == channel.loop_start && after.length == channel.length
        }),
{
    reveal(Channel::next);
}

/// The next `n` samples of a one-shot PCM channel, from wherever it stands.
proof fn lemma_played_on(channel: Channel, index: int, m: MemoryState, n: nat)
    requires
        channel.busy(),
        channel.repeat() == Repeat::OneShot,
        channel.format() == Format::Pcm8 || channel.format() == Format::Pcm16,
        channel.position as int % sample_size(channel) == 0,
        channel.position < channel.end() < 0x1_0000_0000,
        channel.position + n * sample_size(channel) <= channel.end(),
    ensures
        ({
            let after = channel.next_times(index, m, n);
            &&& after.position == channel.position + n * sample_size(channel)
            &&& after.busy() <==> after.position < channel.end()
        }),
    decreases n,
{
    if n > 0 {
        lemma_one_sample(channel, index, m);
        let after = channel.next(index, m);
        if n == 1 {
            assert(after.next_times(index, m, 0) == after);
        } else {
            lemma_played_on(after, index, m, (n - 1) as nat);
        }
    }
}

/// A channel below eight is silent in the PSG format.
pub proof fn law_low_channels_have_no_psg(channel: Channel, index: int)
    requires
        0 <= index < 8,
    ensures
        channel.psg_next(index).current == 0,
{
}

} // verus!
