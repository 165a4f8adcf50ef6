//! Register addresses.

use vstd::prelude::*;

verus! {

pub const KEYINPUT: u32 = 0x0400_0130;

pub const KEYCNT: u32 = 0x0400_0132;

/// ARM7 only.
pub const EXTKEYIN: u32 = 0x0400_0136;

/// ARM7 only.
pub const SPICNT: u32 = 0x0400_01C0;

pub const SPIDATA: u32 = 0x0400_01C2;

} // verus!
