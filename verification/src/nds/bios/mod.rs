//! The BIOS calls that both cores reach through `SWI`.
//!
//! Each call is a step from the caller's registers and memory to new ones, together with what the
//! core must do next. The two cores do not have the same calls, so a comment field is decoded for
//! one of them.

pub mod call_laws;
pub mod decode;
pub mod laws;
pub mod tables;
pub mod unpack_laws;

use vstd::prelude::*;
use crate::arith::square_root;
use crate::bits::{align2, align4};
use crate::nds::bus::Bus;
use crate::nds::cpu::RegisterFile;
use crate::nds::Core;
use decode::{decode_diff16, decode_diff8, decode_huffman, decode_lz77, decode_run_length};
use tables::{pitch_table, volume_table};

verus! {

/// The calls this module answers.
#[derive(Debug, Clone, Copy, PartialEq, Eq, Structural)]
pub enum BiosCall {
    SoftReset,
    /// A calibrated delay loop, which costs the time it asks for.
    WaitByLoop,
    IntrWait,
    VBlankIntrWait,
    Halt,
    /// ARM7 only. Powers the machine down until a wake-up source fires.
    Sleep,
    /// ARM7 only. Ramps `SOUNDBIAS` to the level the amplifier expects.
    SoundBias,
    Div,
    CpuSet,
    CpuFastSet,
    Sqrt,
    GetCrc16,
    IsDebugger,
    /// Expand a packed bit-depth image. Not answered.
    BitUnPack,
    /// The decompressors, in the two destination flavours each has: a byte write to VRAM is
    /// dropped on the ARM9, so the `Vram` variants emit halfwords.
    Lz77UnCompWram,
    Lz77UnCompVram,
    HuffUnComp,
    RlUnCompWram,
    RlUnCompVram,
    /// ARM9 only.
    Diff8bitUnFilterWram,
    /// ARM9 only.
    Diff16bitUnFilter,
    /// ARM7 only. `HALTCNT` written from `r2`, so it can select sleep as well as halt.
    CustomHalt,
    /// ARM7 only. The sound tables that the BIOS keeps; the sine table is not answered.
    GetSineTable,
    GetPitchTable,
    GetVolumeTable,
    Unhandled(u8),
}

/// Decode a `SWI` comment field for one core.
pub open spec fn call_of(core: Core, comment: u8) -> BiosCall {
    if comment == 0x00 {
        BiosCall::SoftReset
    } else if comment == 0x03 {
        BiosCall::WaitByLoop
    } else if comment == 0x04 {
        BiosCall::IntrWait
    } else if comment == 0x05 {
        BiosCall::VBlankIntrWait
    } else if comment == 0x06 {
        BiosCall::Halt
    } else if comment == 0x09 {
        BiosCall::Div
    } else if comment == 0x0B {
        BiosCall::CpuSet
    } else if comment == 0x0C {
        BiosCall::CpuFastSet
    } else if comment == 0x0D {
        BiosCall::Sqrt
    } else if comment == 0x0E {
        BiosCall::GetCrc16
    } else if comment == 0x0F {
        BiosCall::IsDebugger
    } else if comment == 0x10 {
        BiosCall::BitUnPack
    } else if comment == 0x11 {
        BiosCall::Lz77UnCompWram
    } else if comment == 0x12 {
        BiosCall::Lz77UnCompVram
    } else if comment == 0x13 {
        BiosCall::HuffUnComp
    } else if comment == 0x14 {
        BiosCall::RlUnCompWram
    } else if comment == 0x15 {
        BiosCall::RlUnCompVram
    } else {
        match core {
            Core::Arm9 => {
                if comment == 0x16 {
                    BiosCall::Diff8bitUnFilterWram
                } else if comment == 0x18 {
                    BiosCall::Diff16bitUnFilter
                } else {
                    BiosCall::Unhandled(comment)
                }
            },
            Core::Arm7 => {
                if comment == 0x07 {
                    BiosCall::Sleep
                } else if comment == 0x08 {
                    BiosCall::SoundBias
                } else if comment == 0x1A {
                    BiosCall::GetSineTable
                } else if comment == 0x1B {
                    BiosCall::GetPitchTable
                } else if comment == 0x1C {
                    BiosCall::GetVolumeTable
                } else if comment == 0x1F {
                    BiosCall::CustomHalt
                } else {
                    BiosCall::Unhandled(comment)
                }
            },
        }
    }
}

impl BiosCall {
    /// Decode a `SWI` comment field for one core. A call that only the other core has comes out
    /// as [`BiosCall::Unhandled`].
    pub fn from_comment(core: Core, comment: u8) -> (r: Self)
        ensures
            r == call_of(core, comment),
    {
        match comment {
            0x00 => BiosCall::SoftReset,
            0x03 => BiosCall::WaitByLoop,
            0x04 => BiosCall::IntrWait,
            0x05 => BiosCall::VBlankIntrWait,
            0x06 => BiosCall::Halt,
            0x09 => BiosCall::Div,
            0x0B => BiosCall::CpuSet,
            0x0C => BiosCall::CpuFastSet,
            0x0D => BiosCall::Sqrt,
            0x0E => BiosCall::GetCrc16,
            0x0F => BiosCall::IsDebugger,
            0x10 => BiosCall::BitUnPack,
            0x11 => BiosCall::Lz77UnCompWram,
            0x12 => BiosCall::Lz77UnCompVram,
            0x13 => BiosCall::HuffUnComp,
            0x14 => BiosCall::RlUnCompWram,
            0x15 => BiosCall::RlUnCompVram,
            _ => match core {
                Core::Arm9 => match comment {
                    0x16 => BiosCall::Diff8bitUnFilterWram,
                    0x18 => BiosCall::Diff16bitUnFilter,
                    _ => BiosCall::Unhandled(comment),
                },
                Core::Arm7 => match comment {
                    0x07 => BiosCall::Sleep,
                    0x08 => BiosCall::SoundBias,
                    0x1A => BiosCall::GetSineTable,
                    0x1B => BiosCall::GetPitchTable,
                    0x1C => BiosCall::GetVolumeTable,
                    0x1F => BiosCall::CustomHalt,
                    _ => BiosCall::Unhandled(comment),
                },
            },
        }
    }
}

/// What the caller must do after the call, beyond returning.
#[derive(Debug, Clone, Copy, PartialEq, Eq, Structural)]
pub struct BiosEffect {
    /// The core should stop until an interrupt arrives.
    pub halt: bool,
    /// The program counter must be left on the `SWI`, so the call runs again when the core wakes.
    pub repeat: bool,
    /// Extra cycles this call cost, on top of the flat charge every intercepted call pays.
    pub extra_cycles: u32,
}

/// Just return.
pub open spec fn no_effect() -> BiosEffect {
    BiosEffect { halt: false, repeat: false, extra_cycles: 0 }
}

impl Default for BiosEffect {
    fn default() -> (r: Self)
        ensures
            r == no_effect(),
    {
        BiosEffect { halt: false, repeat: false, extra_cycles: 0 }
    }
}

/// The per-core state that `IntrWait` needs.
///
/// On entry, if `r0` is non-zero, the bits named by `r1` are cleared from the flag word: that is
/// what waiting for a new interrupt means, and it happens once per call. If an awaited bit is then
/// set it is cleared and the call returns; otherwise the core halts with the program counter still
/// on the `SWI`.
pub struct Context<'a> {
    pub core: Core,
    /// Where this core's BIOS keeps the word that `IntrWait` tests.
    pub flags: u32,
    /// Whether the `IntrWait` at the program counter has already performed its one discard.
    pub waiting: &'a mut bool,
}

/// Everything that a call leaves behind.
#[verifier::ext_equal]
pub struct Outcome<S> {
    pub registers: Seq<u32>,
    pub bus: S,
    pub waiting: bool,
    pub effect: BiosEffect,
}

/// A call that only changed `r0`.
pub open spec fn answered<S>(registers: Seq<u32>, bus: S, waiting: bool, r0: u32) -> Outcome<S> {
    Outcome { registers: registers.update(0, r0), bus, waiting, effect: no_effect() }
}

/// A call that only changed memory.
pub open spec fn moved<S>(registers: Seq<u32>, bus: S, waiting: bool) -> Outcome<S> {
    Outcome { registers, bus, waiting, effect: no_effect() }
}

/// What a BIOS call does.
pub open spec fn outcome<B: Bus>(
    call: BiosCall,
    r: Seq<u32>,
    s: B::State,
    flags: u32,
    waiting: bool,
) -> Outcome<B::State> {
    match call {
        BiosCall::Div => moved(divided(r), s, waiting),
        BiosCall::Sqrt => answered(r, s, waiting, crate::arith::root(r[0] as int) as u32),
        BiosCall::CpuSet => moved(r, memory_set::<B>(s, r[0], r[1], r[2], false), waiting),
        BiosCall::CpuFastSet => moved(r, memory_set::<B>(s, r[0], r[1], r[2], true), waiting),
        BiosCall::GetCrc16 => {
            let (after, crc) = checksummed::<B>(s, r[0] as u16, r[1], r[2] as nat);
            answered(r, after, waiting, crc as u32)
        },
        BiosCall::IsDebugger => answered(r, s, waiting, 0),
        BiosCall::Halt => Outcome {
            registers: r,
            bus: s,
            waiting,
            effect: BiosEffect { halt: true, repeat: false, extra_cycles: 0 },
        },
        BiosCall::CustomHalt => moved(r, B::after_write8(s, 0x0400_0301, r[2] as u8), waiting),
        BiosCall::IntrWait => waited::<B>(r, s, flags, waiting, r[0] != 0, r[1]),
        BiosCall::VBlankIntrWait => waited::<B>(r, s, flags, waiting, true, 1),
        BiosCall::WaitByLoop => Outcome {
            registers: r.update(0, 0),
            bus: s,
            waiting,
            effect: BiosEffect {
                halt: false,
                repeat: false,
                extra_cycles: if r[0] * 4 > u32::MAX { u32::MAX } else { (r[0] * 4) as u32 },
            },
        },
        BiosCall::SoundBias => moved(
            r,
            B::after_write32(s, 0x0400_0504, if r[0] != 0 { 0x200 } else { 0 }),
            waiting,
        ),
        BiosCall::Lz77UnCompWram => moved(
            r,
            unpacked::<B>(s, r[0], r[1], Decoder::Lz77, false),
            waiting,
        ),
        BiosCall::Lz77UnCompVram => moved(
            r,
            unpacked::<B>(s, r[0], r[1], Decoder::Lz77, true),
            waiting,
        ),
        BiosCall::RlUnCompWram => moved(
            r,
            unpacked::<B>(s, r[0], r[1], Decoder::RunLength, false),
            waiting,
        ),
        BiosCall::RlUnCompVram => moved(
            r,
            unpacked::<B>(s, r[0], r[1], Decoder::RunLength, true),
            waiting,
        ),
        BiosCall::HuffUnComp => moved(
            r,
            unpacked::<B>(s, r[0], r[1], Decoder::Huffman, true),
            waiting,
        ),
        BiosCall::Diff8bitUnFilterWram => moved(
            r,
            unpacked::<B>(s, r[0], r[1], Decoder::Diff8, false),
            waiting,
        ),
        BiosCall::Diff16bitUnFilter => moved(
            r,
            unpacked::<B>(s, r[0], r[1], Decoder::Diff16, true),
            waiting,
        ),
        BiosCall::GetPitchTable => answered(r, s, waiting, tables::pitch(r[0]) as u32),
        BiosCall::GetVolumeTable => answered(r, s, waiting, tables::volume(r[0]) as u32),
        // Doing nothing leaves the caller's registers unchanged, which shows up in a trace.
        // Guessing would produce a plausible wrong answer.
        BiosCall::SoftReset
        | BiosCall::BitUnPack
        | BiosCall::Sleep
        | BiosCall::GetSineTable
        | BiosCall::Unhandled(_) => moved(r, s, waiting),
    }
}

/// Perform a BIOS call.
///
/// `bus` must be the view that the calling core actually sees.
pub fn dispatch<B: Bus>(
    cpu: &mut RegisterFile,
    bus: &mut B,
    comment: u8,
    ctx: Context<'_>,
) -> (r: BiosEffect)
    ensures
        outcome::<B>(
            call_of(ctx.core, comment),
            old(cpu)@,
            old(bus).state(),
            ctx.flags,
            *old(ctx.waiting),
        ) == (Outcome {
            registers: final(cpu)@,
            bus: final(bus).state(),
            waiting: *final(ctx.waiting),
            effect: r,
        }),
{
    let mut effect = BiosEffect::default();
    let call = BiosCall::from_comment(ctx.core, comment);
    match call {
        BiosCall::Div => {
            let numerator = cpu.reg(0) as i32;
            let denominator = cpu.reg(1) as i32;
            divide(cpu, numerator, denominator);
        },
        BiosCall::Sqrt => {
            let root = square_root(cpu.reg(0) as u64);
            cpu.set_reg(0, root);
        },
        BiosCall::CpuSet => cpu_set(cpu, bus, false),
        BiosCall::CpuFastSet => cpu_set(cpu, bus, true),
        BiosCall::GetCrc16 => crc16_call(cpu, bus),
        BiosCall::IsDebugger => {
            // Zero means a retail unit.
            cpu.set_reg(0, 0);
        },
        BiosCall::Halt => {
            effect.halt = true;
        },
        BiosCall::CustomHalt => {
            bus.write8(0x0400_0301, cpu.reg(2) as u8);
        },
        BiosCall::IntrWait => {
            let discard = cpu.reg(0) != 0;
            let mask = cpu.reg(1);
            effect = intr_wait(bus, ctx, discard, mask);
        },
        BiosCall::VBlankIntrWait => {
            effect = intr_wait(bus, ctx, true, 1);
        },
        BiosCall::WaitByLoop => {
            let iterations = cpu.reg(0);
            effect.extra_cycles = if iterations > u32::MAX / 4 { u32::MAX } else { iterations * 4 };
            cpu.set_reg(0, 0);
        },
        BiosCall::SoundBias => {
            let target: u32 = if cpu.reg(0) != 0 { 0x200 } else { 0 };
            bus.write32(0x0400_0504, target);
        },
        BiosCall::Lz77UnCompWram => unpack(cpu, bus, Decoder::Lz77, false),
        BiosCall::Lz77UnCompVram => unpack(cpu, bus, Decoder::Lz77, true),
        BiosCall::RlUnCompWram => unpack(cpu, bus, Decoder::RunLength, false),
        BiosCall::RlUnCompVram => unpack(cpu, bus, Decoder::RunLength, true),
        BiosCall::HuffUnComp => unpack(cpu, bus, Decoder::Huffman, true),
        BiosCall::Diff8bitUnFilterWram => unpack(cpu, bus, Decoder::Diff8, false),
        BiosCall::Diff16bitUnFilter => unpack(cpu, bus, Decoder::Diff16, true),
        BiosCall::GetPitchTable => {
            let pitch = pitch_table(cpu.reg(0));
            cpu.set_reg(0, pitch as u32);
        },
        BiosCall::GetVolumeTable => {
            let volume = volume_table(cpu.reg(0));
            cpu.set_reg(0, volume as u32);
        },
        BiosCall::SoftReset
        | BiosCall::BitUnPack
        | BiosCall::Sleep
        | BiosCall::GetSineTable
        | BiosCall::Unhandled(_) => {},
    }
    effect
}

/// One entry of `IntrWait`.
pub open spec fn waited<B: Bus>(
    registers: Seq<u32>,
    s: B::State,
    at: u32,
    waiting: bool,
    discard: bool,
    mask: u32,
) -> Outcome<B::State> {
    let fresh = if !waiting && discard {
        B::after_write32(B::after_read32(s, at), at, B::word(s, at) & !mask)
    } else {
        s
    };
    let flags = B::word(fresh, at);
    let tested = B::after_read32(fresh, at);
    if flags & mask != 0 {
        Outcome {
            registers,
            bus: B::after_write32(tested, at, flags & !(flags & mask)),
            waiting: false,
            effect: no_effect(),
        }
    } else {
        Outcome {
            registers,
            bus: tested,
            waiting: true,
            effect: BiosEffect { halt: true, repeat: true, extra_cycles: 0 },
        }
    }
}

/// `IntrWait` and `VBlankIntrWait`, against the flag word that the game's own handler maintains.
fn intr_wait<B: Bus>(bus: &mut B, ctx: Context<'_>, discard: bool, mask: u32) -> (r: BiosEffect)
    ensures
        forall|registers: Seq<u32>| #[trigger]
            waited::<B>(registers, old(bus).state(), ctx.flags, *old(ctx.waiting), discard, mask) == (
            Outcome {
                registers,
                bus: final(bus).state(),
                waiting: *final(ctx.waiting),
                effect: r,
            }),
{
    if !*ctx.waiting {
        *ctx.waiting = true;
        if discard {
            let flags = bus.read32(ctx.flags);
            bus.write32(ctx.flags, flags & !mask);
        }
    }
    let flags = bus.read32(ctx.flags);
    let matched = flags & mask;
    if matched != 0 {
        // Acknowledge only what was awaited. A handler may have set several bits, and clearing
        // the whole word would lose the ones that another `IntrWait` is about to ask for.
        bus.write32(ctx.flags, flags & !matched);
        *ctx.waiting = false;
        return BiosEffect::default();
    }
    BiosEffect { halt: true, repeat: true, extra_cycles: 0 }
}

/// Quotient in `r0`, remainder in `r1`, absolute quotient in `r3`. Dividing by zero changes
/// nothing, and the one quotient that does not fit wraps.
pub open spec fn divided(r: Seq<u32>) -> Seq<u32> {
    let numerator = r[0] as i32;
    let denominator = r[1] as i32;
    if denominator == 0 {
        r
    } else {
        let quotient = crate::arith::quotient(numerator as int, denominator as int);
        let remainder = numerator - quotient * denominator;
        r.update(0, (quotient as i32) as u32).update(1, (remainder as i32) as u32).update(
            3,
            (if quotient < 0 { -quotient } else { quotient }) as u32,
        )
    }
}

/// `Div`. Truncates toward zero, so the remainder takes the sign of the dividend.
fn divide(cpu: &mut RegisterFile, numerator: i32, denominator: i32)
    requires
        numerator == old(cpu)@[0] as i32,
        denominator == old(cpu)@[1] as i32,
    ensures
        final(cpu)@ == divided(old(cpu)@),
{
    if denominator == 0 {
        return;
    }
    let quotient: i128 = crate::arith::divide(numerator as i128, denominator as i128);
    proof {
        crate::arith::lemma_quotient(numerator as int, denominator as int);
    }
    let remainder: i128 = numerator as i128 - quotient * denominator as i128;
    let absolute: i128 = if quotient < 0 { -quotient } else { quotient };
    cpu.set_reg(0, (quotient as i32) as u32);
    cpu.set_reg(1, (remainder as i32) as u32);
    cpu.set_reg(3, absolute as u32);
}

/// Copy or fill memory, `left` units from `index` on. The unit that fills is read beforehand.
pub open spec fn words_set<B: Bus>(
    s: B::State,
    source: u32,
    destination: u32,
    fill: Option<u32>,
    index: nat,
    left: nat,
) -> B::State
    decreases left,
{
    if left == 0 {
        s
    } else {
        let from = source.wrapping_add((index * 4) as u32);
        let to = destination.wrapping_add((index * 4) as u32);
        let after = match fill {
            Some(value) => B::after_write32(s, to, value),
            None => B::after_write32(B::after_read32(s, from), to, B::word(s, from)),
        };
        words_set::<B>(after, source, destination, fill, index + 1, (left - 1) as nat)
    }
}

/// The same in halfwords.
pub open spec fn halves_set<B: Bus>(
    s: B::State,
    source: u32,
    destination: u32,
    fill: Option<u16>,
    index: nat,
    left: nat,
) -> B::State
    decreases left,
{
    if left == 0 {
        s
    } else {
        let from = source.wrapping_add((index * 2) as u32);
        let to = destination.wrapping_add((index * 2) as u32);
        let after = match fill {
            Some(value) => B::after_write16(s, to, value),
            None => B::after_write16(B::after_read16(s, from), to, B::half(s, from)),
        };
        halves_set::<B>(after, source, destination, fill, index + 1, (left - 1) as nat)
    }
}

/// `CpuSet` and `CpuFastSet`: the low 21 bits of the control are a count of units, bit 26 chooses
/// words over halfwords, and bit 24 fills from one read instead of copying.
pub open spec fn memory_set<B: Bus>(
    s: B::State,
    source: u32,
    destination: u32,
    control: u32,
    fast: bool,
) -> B::State {
    let count = (control & 0x1F_FFFF) as nat;
    let fill = control & 0x0100_0000 != 0;
    if fast || control & 0x0400_0000 != 0 {
        let from = align4(source);
        words_set::<B>(
            B::after_read32(s, from),
            from,
            align4(destination),
            if fill { Some(B::word(s, from)) } else { None },
            0,
            count,
        )
    } else {
        let from = align2(source);
        halves_set::<B>(
            B::after_read16(s, from),
            from,
            align2(destination),
            if fill { Some(B::half(s, from)) } else { None },
            0,
            count,
        )
    }
}

/// `CpuSet` and `CpuFastSet`: copy or fill memory.
fn cpu_set<B: Bus>(cpu: &RegisterFile, bus: &mut B, fast: bool)
    ensures
        final(bus).state() == memory_set::<B>(
            old(bus).state(),
            cpu@[0],
            cpu@[1],
            cpu@[2],
            fast,
        ),
{
    broadcast use crate::bits::lemma_and_bound_u32;

    let source = cpu.reg(0);
    let destination = cpu.reg(1);
    let control = cpu.reg(2);
    let count = control & 0x1F_FFFF;
    let fill = control & 0x0100_0000 != 0;
    if fast || control & 0x0400_0000 != 0 {
        let from = align4(source);
        let to = align4(destination);
        let value = bus.read32(from);
        let ghost filled = if fill { Some(value) } else { None };
        let ghost whole = words_set::<B>(bus.state(), from, to, filled, 0, count as nat);
        for index in 0..count
            invariant
                count <= 0x1F_FFFF,
                filled == (if fill { Some(value) } else { None::<u32> }),
                words_set::<B>(
                    bus.state(),
                    from,
                    to,
                    filled,
                    index as nat,
                    (count - index) as nat,
                ) == whole,
        {
            let word = if fill { value } else { bus.read32(from.wrapping_add(index * 4)) };
            bus.write32(to.wrapping_add(index * 4), word);
        }
    } else {
        let from = align2(source);
        let to = align2(destination);
        let value = bus.read16(from);
        let ghost filled = if fill { Some(value) } else { None };
        let ghost whole = halves_set::<B>(bus.state(), from, to, filled, 0, count as nat);
        for index in 0..count
            invariant
                count <= 0x1F_FFFF,
                filled == (if fill { Some(value) } else { None::<u16> }),
                halves_set::<B>(
                    bus.state(),
                    from,
                    to,
                    filled,
                    index as nat,
                    (count - index) as nat,
                ) == whole,
        {
            let half = if fill { value } else { bus.read16(from.wrapping_add(index * 2)) };
            bus.write16(to.wrapping_add(index * 2), half);
        }
    }
}

/// `rounds` rounds of the reflected polynomial `0xA001`.
pub open spec fn crc_rounds(crc: u16, rounds: nat) -> u16
    decreases rounds,
{
    if rounds == 0 {
        crc
    } else {
        crc_rounds(
            if crc % 2 == 1 { (crc / 2) ^ 0xA001 } else { crc / 2 },
            (rounds - 1) as nat,
        )
    }
}

/// One byte more of a checksum.
pub open spec fn crc_step(crc: u16, byte: u8) -> u16 {
    crc_rounds(crc ^ byte as u16, 8)
}

/// CRC-16/ARC over a sequence.
pub open spec fn crc_of(initial: u16, bytes: Seq<u8>) -> u16
    decreases bytes.len(),
{
    if bytes.len() == 0 {
        initial
    } else {
        crc_step(crc_of(initial, bytes.drop_last()), bytes.last())
    }
}

/// CRC-16/ARC over what a bus holds.
pub open spec fn checksummed<B: Bus>(s: B::State, crc: u16, address: u32, left: nat) -> (
    B::State,
    u16,
)
    decreases left,
{
    if left == 0 {
        (s, crc)
    } else {
        checksummed::<B>(
            B::after_read8(s, address),
            crc_step(crc, B::byte(s, address)),
            address.wrapping_add(1),
            (left - 1) as nat,
        )
    }
}

/// `GetCRC16`: `r0` is the running value, `r1` the data, `r2` the length in bytes.
fn crc16_call<B: Bus>(cpu: &mut RegisterFile, bus: &mut B)
    ensures
        ({
            let (after, crc) = checksummed::<B>(
                old(bus).state(),
                old(cpu)@[0] as u16,
                old(cpu)@[1],
                old(cpu)@[2] as nat,
            );
            final(bus).state() == after && final(cpu)@ == old(cpu)@.update(0, crc as u32)
        }),
{
    let mut crc = cpu.reg(0) as u16;
    let mut address = cpu.reg(1);
    let length = cpu.reg(2);
    let ghost whole = checksummed::<B>(bus.state(), crc, address, length as nat);
    for offset in 0..length
        invariant
            checksummed::<B>(bus.state(), crc, address, (length - offset) as nat) == whole,
    {
        let byte = bus.read8(address);
        crc = crc16_step(crc, byte);
        address = address.wrapping_add(1);
    }
    cpu.set_reg(0, crc as u32);
}

/// The same checksum over a slice.
pub fn crc16(initial: u16, bytes: &[u8]) -> (r: u16)
    ensures
        r == crc_of(initial, bytes@),
{
    let mut crc = initial;
    let count = bytes.len();
    assert(bytes@.take(0) =~= Seq::empty());
    for i in 0..count
        invariant
            count == bytes@.len(),
            crc == crc_of(initial, bytes@.take(i as int)),
    {
        assert(bytes@.take(i + 1).drop_last() =~= bytes@.take(i as int));
        crc = crc16_step(crc, bytes[i]);
    }
    assert(bytes@.take(count as int) =~= bytes@);
    crc
}

fn crc16_step(crc: u16, byte: u8) -> (r: u16)
    ensures
        r == crc_step(crc, byte),
{
    let mut current: u16 = crc ^ byte as u16;
    let ghost whole = crc_rounds(current, 8);
    for round in 0..8u8
        invariant
            crc_rounds(current, (8 - round) as nat) == whole,
    {
        let carry = current % 2 == 1;
        current = current / 2;
        if carry {
            current = current ^ 0xA001;
        }
    }
    current
}

/// Which compressed format a call is unpacking.
#[derive(Debug, Clone, Copy, PartialEq, Eq, Structural)]
pub enum Decoder {
    Lz77,
    RunLength,
    Huffman,
    Diff8,
    Diff16,
}

/// What a decoder makes of the stream whose header word is at `source`.
pub open spec fn decoded<B: Bus>(
    s: B::State,
    source: u32,
    header: u32,
    decoder: Decoder,
    size: nat,
) -> decode::Decoded<B::State> {
    let data = source.wrapping_add(4);
    match decoder {
        Decoder::Lz77 => decode::lz77::<B>(s, data, 0, 8, Seq::empty(), size as int),
        Decoder::RunLength => decode::run_length::<B>(s, data, Seq::empty(), size as int),
        Decoder::Huffman => decode::huffman_stream::<B>(s, source, header, size as int),
        Decoder::Diff8 => decode::diff8::<B>(s, data, 0, Seq::empty(), size),
        Decoder::Diff16 => decode::diff16::<B>(s, data, 0, Seq::empty(), size / 2),
    }
}

/// Bytes written out from `index` on, one at a time.
pub open spec fn bytes_written<B: Bus>(s: B::State, to: u32, bytes: Seq<u8>, index: nat) -> B::State
    decreases bytes.len() - index,
{
    if index >= bytes.len() {
        s
    } else {
        bytes_written::<B>(
            B::after_write8(s, to.wrapping_add(index as u32), bytes[index as int]),
            to,
            bytes,
            index + 1,
        )
    }
}

/// Bytes written out from `index` on, two at a time. An odd one out is paired with a zero.
pub open spec fn pairs_written<B: Bus>(s: B::State, to: u32, bytes: Seq<u8>, index: nat) -> B::State
    decreases bytes.len() + 1 - index,
{
    if index >= bytes.len() {
        s
    } else {
        let high = if index + 1 < bytes.len() { bytes[index as int + 1] } else { 0 };
        pairs_written::<B>(
            B::after_write16(
                s,
                to.wrapping_add(index as u32),
                (bytes[index as int] + 0x100 * high) as u16,
            ),
            to,
            bytes,
            index + 2,
        )
    }
}

/// The largest output: main RAM is 4 MiB, so nothing can legitimately be larger.
pub const UNPACK_LIMIT: usize = 0x0040_0000;

/// Every decompression call: read a header, decode, write out. A header that claims nothing, or
/// more than main RAM holds, is refused.
pub open spec fn unpacked<B: Bus>(
    s: B::State,
    source: u32,
    destination: u32,
    decoder: Decoder,
    vram: bool,
) -> B::State {
    let header = B::word(s, source);
    let s1 = B::after_read32(s, source);
    let size = (header / 0x100) as nat;
    if size == 0 || size > UNPACK_LIMIT {
        s1
    } else {
        let result = decoded::<B>(s1, source, header, decoder, size);
        if vram {
            pairs_written::<B>(result.bus, destination, result.out, 0)
        } else {
            bytes_written::<B>(result.bus, destination, result.out, 0)
        }
    }
}

/// The shared shape of every decompression call: read a header, decode into a buffer, write it
/// out at the destination's natural width.
fn unpack<B: Bus>(cpu: &RegisterFile, bus: &mut B, decoder: Decoder, vram: bool)
    ensures
        final(bus).state() == unpacked::<B>(old(bus).state(), cpu@[0], cpu@[1], decoder, vram),
{
    let source = cpu.reg(0);
    let destination = cpu.reg(1);
    let header = bus.read32(source);
    let size = (header / 0x100) as usize;
    // A malformed header is a game bug or a mis-set pointer, and allocating from it would turn
    // that into an out-of-memory.
    if size == 0 || size > UNPACK_LIMIT {
        return;
    }
    let out = match decoder {
        Decoder::Lz77 => decode_lz77(bus, source.wrapping_add(4), size),
        Decoder::RunLength => decode_run_length(bus, source.wrapping_add(4), size),
        Decoder::Huffman => decode_huffman(bus, source, header, size),
        Decoder::Diff8 => decode_diff8(bus, source.wrapping_add(4), size),
        Decoder::Diff16 => decode_diff16(bus, source.wrapping_add(4), size),
    };
    if vram {
        write_pairs(bus, destination, &out);
    } else {
        write_bytes(bus, destination, &out);
    }
}

fn write_bytes<B: Bus>(bus: &mut B, to: u32, bytes: &Vec<u8>)
    requires
        bytes@.len() <= UNPACK_LIMIT,
    ensures
        final(bus).state() == bytes_written::<B>(old(bus).state(), to, bytes@, 0),
{
    let count = bytes.len();
    for index in 0..count
        invariant
            count == bytes@.len(),
            bytes_written::<B>(bus.state(), to, bytes@, index as nat) == bytes_written::<B>(
                old(bus).state(),
                to,
                bytes@,
                0,
            ),
    {
        bus.write8(to.wrapping_add(index as u32), bytes[index]);
    }
}

fn write_pairs<B: Bus>(bus: &mut B, to: u32, bytes: &Vec<u8>)
    requires
        bytes@.len() <= UNPACK_LIMIT,
    ensures
        final(bus).state() == pairs_written::<B>(old(bus).state(), to, bytes@, 0),
{
    let mut index: usize = 0;
    while index < bytes.len()
        invariant
            bytes@.len() <= UNPACK_LIMIT,
            index <= bytes@.len() + 1,
            pairs_written::<B>(bus.state(), to, bytes@, index as nat) == pairs_written::<B>(
                old(bus).state(),
                to,
                bytes@,
                0,
            ),
        decreases bytes@.len() + 1 - index,
    {
        let low = bytes[index];
        let high = if index + 1 < bytes.len() { bytes[index + 1] } else { 0 };
        bus.write16(to.wrapping_add(index as u32), low as u16 + 0x100 * high as u16);
        index = index + 2;
    }
}

/// A checksum continues across buffers: hashing one and then the next from where it left off is
/// hashing both at once.
pub proof fn law_checksums_continue(initial: u16, first: Seq<u8>, second: Seq<u8>)
    ensures
        crc_of(crc_of(initial, first), second) == crc_of(initial, first + second),
    decreases second.len(),
{
    if second.len() == 0 {
        assert(first + second =~= first);
    } else {
        law_checksums_continue(initial, first, second.drop_last());
        assert((first + second).drop_last() =~= first + second.drop_last());
    }
}

/// `GetCRC16` on flat memory is the checksum of the bytes there.
pub proof fn law_the_call_is_the_checksum(s: Seq<u8>, crc: u16, address: u32, count: nat)
    requires
        address + count <= s.len(),
        s.len() <= 0x1_0000_0000,
    ensures
        checksummed::<crate::nds::bus::FlatBus>(s, crc, address, count) == (
            s,
            crc_of(crc, s.subrange(address as int, address + count)),
        ),
    decreases count,
{
    let bytes = s.subrange(address as int, address + count);
    if count == 0 {
    } else {
        let next = crc_step(crc, s[address as int]);
        let rest = s.subrange(address + 1, address + count);
        let one = seq![s[address as int]];
        assert(one + rest =~= bytes);
        assert(one.drop_last() =~= Seq::empty());
        assert(crc_of(crc, one.drop_last()) == crc);
        assert(crc_of(crc, one) == next);
        law_checksums_continue(crc, one, rest);
        if address + 1 <= u32::MAX {
            law_the_call_is_the_checksum(s, next, (address + 1) as u32, (count - 1) as nat);
        } else {
            assert(rest =~= Seq::empty());
            assert(checksummed::<crate::nds::bus::FlatBus>(s, next, address.wrapping_add(1), 0)
                == (s, next));
        }
    }
}

/// The decoded comment is the same on both cores for every call that both have.
pub proof fn law_shared_calls_decode_alike(comment: u8)
    requires
        comment < 0x07 || 0x09 <= comment <= 0x15,
    ensures
        call_of(Core::Arm9, comment) == call_of(Core::Arm7, comment),
{
}

/// A call that one core has alone is unhandled on the other.
pub proof fn law_private_calls_are_unhandled_elsewhere(core: Core, comment: u8)
    requires
        call_of(core, comment) != call_of(core.other(), comment),
    ensures
        call_of(core, comment) == BiosCall::Unhandled(comment) || call_of(core.other(), comment)
            == BiosCall::Unhandled(comment),
{
}

/// A wait that is entered again does not discard: what the handler set in the meantime ends it.
pub proof fn law_a_wait_discards_once<B: Bus>(
    registers: Seq<u32>,
    s: B::State,
    at: u32,
    discard: bool,
    mask: u32,
)
    requires
        B::word(s, at) & mask != 0,
    ensures
        waited::<B>(registers, s, at, true, discard, mask).effect == no_effect(),
        !waited::<B>(registers, s, at, true, discard, mask).waiting,
{
}

/// A call that is not answered changes nothing.
pub proof fn law_unanswered_calls_change_nothing<B: Bus>(
    comment: u8,
    registers: Seq<u32>,
    s: B::State,
    flags: u32,
    waiting: bool,
)
    ensures
        outcome::<B>(BiosCall::Unhandled(comment), registers, s, flags, waiting) == (Outcome {
            registers,
            bus: s,
            waiting,
            effect: no_effect(),
        }),
{
}

/// `Div` truncates toward zero: quotient times divisor plus remainder is the dividend, the remainder
/// is smaller than the divisor and takes the sign of the dividend, and `r3` is the quotient without
/// its sign.
pub proof fn law_a_division_is_exact(r: Seq<u32>)
    requires
        r.len() == 16,
        r[1] as i32 != 0,
        !(r[0] as i32 == i32::MIN && r[1] as i32 == -1),
    ensures
        ({
            let n = (r[0] as i32) as int;
            let d = (r[1] as i32) as int;
            let q = (divided(r)[0] as i32) as int;
            let m = (divided(r)[1] as i32) as int;
            &&& q * d + m == n
            &&& m == 0 || (m > 0) == (n > 0)
            &&& -(if d > 0 { d } else { -d }) < m < (if d > 0 { d } else { -d })
            &&& divided(r)[3] == (if q < 0 { -q } else { q })
        }),
{
    let n = (r[0] as i32) as int;
    let d = (r[1] as i32) as int;
    let q = crate::arith::quotient(n, d);
    let m = n - q * d;
    crate::arith::lemma_quotient(n, d);
    if q == 0x8000_0000 {
        assert(d == 1 || d == -1) by (nonlinear_arith)
            requires
                q == 0x8000_0000,
                d != 0,
                -0x8000_0000 <= q * d <= 0x8000_0000,
        ;
    }
    crate::bits::lemma_signed_round_trips(0, q as i32, 0);
    crate::bits::lemma_signed_round_trips(0, m as i32, 0);
}

} // verus!
