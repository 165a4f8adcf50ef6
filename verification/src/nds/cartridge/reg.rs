//! Register addresses, in both cores' I/O space.

use vstd::prelude::*;

verus! {

pub const AUXSPICNT: u32 = 0x0400_01A0;

pub const AUXSPIDATA: u32 = 0x0400_01A2;

pub const ROMCTRL: u32 = 0x0400_01A4;

pub const CARD_COMMAND: u32 = 0x0400_01A8;

/// Where transferred words are read back. Not next to the others.
pub const CARD_DATA: u32 = 0x0410_0010;

} // verus!
