//! Interrupt source bits, shared by `IE` and `IF`.

use vstd::prelude::*;
use crate::nds::Core;

verus! {

pub const VBLANK: u32 = 0x0000_0001;

pub const HBLANK: u32 = 0x0000_0002;

pub const VCOUNT: u32 = 0x0000_0004;

pub const TIMER0: u32 = 0x0000_0008;

pub const TIMER1: u32 = 0x0000_0010;

pub const TIMER2: u32 = 0x0000_0020;

pub const TIMER3: u32 = 0x0000_0040;

/// Serial / `RCNT`. ARM7 only.
pub const SERIAL: u32 = 0x0000_0080;

pub const DMA0: u32 = 0x0000_0100;

pub const DMA1: u32 = 0x0000_0200;

pub const DMA2: u32 = 0x0000_0400;

pub const DMA3: u32 = 0x0000_0800;

pub const KEYPAD: u32 = 0x0000_1000;

/// The Slot-2 (Game Boy Advance) cartridge.
pub const GBA_SLOT: u32 = 0x0000_2000;

pub const IPC_SYNC: u32 = 0x0001_0000;

pub const IPC_SEND_EMPTY: u32 = 0x0002_0000;

pub const IPC_RECV_NOT_EMPTY: u32 = 0x0004_0000;

/// A Slot-1 cartridge transfer finished.
pub const CARD_TRANSFER: u32 = 0x0008_0000;

/// The cartridge asserted its interrupt line.
pub const CARD_IREQ: u32 = 0x0010_0000;

/// The 3D geometry command FIFO crossed its threshold. ARM9 only.
pub const GEOMETRY_FIFO: u32 = 0x0020_0000;

/// The lid was opened. ARM7 only.
pub const LID: u32 = 0x0040_0000;

/// An SPI transfer finished. ARM7 only.
pub const SPI: u32 = 0x0080_0000;

/// ARM7 only, and never raised.
pub const WIFI: u32 = 0x0100_0000;

/// The sources that the ARM9 has.
pub const ARM9: u32 = 0x003F_3F7F;

/// The sources that the ARM7 has.
pub const ARM7: u32 = 0x01DF_3FFF;

/// The sources that each core actually has.
#[verifier::allow_in_spec]
pub fn valid(core: Core) -> u32
    returns
        (match core {
            Core::Arm9 => ARM9,
            Core::Arm7 => ARM7,
        }),
{
    match core {
        Core::Arm9 => ARM9,
        Core::Arm7 => ARM7,
    }
}

/// The bit of one timer.
#[verifier::allow_in_spec]
pub fn timer(channel: usize) -> u32
    requires
        channel < 32,
    returns
        TIMER0 << channel,
{
    TIMER0 << channel
}

/// The bit of one DMA channel.
#[verifier::allow_in_spec]
pub fn dma(channel: usize) -> u32
    requires
        channel < 32,
    returns
        DMA0 << channel,
{
    DMA0 << channel
}

/// The sources of a core are the ones that both have and the ones that it has alone, and the
/// channel bits are contiguous.
pub proof fn law_sources()
    ensures
        ARM9 == 0x3F7F | IPC_SYNC | IPC_SEND_EMPTY | IPC_RECV_NOT_EMPTY | CARD_TRANSFER | CARD_IREQ
            | GEOMETRY_FIFO,
        ARM7 == 0x3F7F | SERIAL | IPC_SYNC | IPC_SEND_EMPTY | IPC_RECV_NOT_EMPTY | CARD_TRANSFER
            | CARD_IREQ | LID | SPI | WIFI,
        timer(1) == TIMER1 && timer(2) == TIMER2 && timer(3) == TIMER3,
        dma(1) == DMA1 && dma(2) == DMA2 && dma(3) == DMA3,
{
    assert(ARM9 == 0x3F7F | IPC_SYNC | IPC_SEND_EMPTY | IPC_RECV_NOT_EMPTY | CARD_TRANSFER
        | CARD_IREQ | GEOMETRY_FIFO && ARM7 == 0x3F7F | SERIAL | IPC_SYNC | IPC_SEND_EMPTY
        | IPC_RECV_NOT_EMPTY | CARD_TRANSFER | CARD_IREQ | LID | SPI | WIFI && TIMER0 << 1usize
        == TIMER1 && TIMER0 << 2usize == TIMER2 && TIMER0 << 3usize == TIMER3 && DMA0 << 1usize
        == DMA1 && DMA0 << 2usize == DMA2 && DMA0 << 3usize == DMA3) by (bit_vector);
}

} // verus!
