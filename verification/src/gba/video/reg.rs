//! Register addresses.

use vstd::prelude::*;

verus! {

pub const DISPCNT: u32 = 0x0400_0000;

pub const DISPSTAT: u32 = 0x0400_0004;

pub const VCOUNT: u32 = 0x0400_0006;

} // verus!
