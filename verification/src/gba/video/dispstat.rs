//! Bits of `DISPSTAT`.

use vstd::prelude::*;

verus! {

pub const VBLANK: u16 = 0x0001;

pub const HBLANK: u16 = 0x0002;

pub const VCOUNT_MATCH: u16 = 0x0004;

pub const VBLANK_IRQ: u16 = 0x0008;

pub const HBLANK_IRQ: u16 = 0x0010;

pub const VCOUNT_IRQ: u16 = 0x0020;

/// The three that the hardware owns; a game's write must not reach them.
pub const READ_ONLY: u16 = 0x0007;

} // verus!
