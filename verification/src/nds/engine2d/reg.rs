//! Register offsets from an engine's base.

use vstd::prelude::*;

verus! {

pub const DISPCNT: u32 = 0x000;

pub const BGCNT: u32 = 0x008;

pub const BGOFS: u32 = 0x010;

pub const BG2PA: u32 = 0x020;

pub const BG3PA: u32 = 0x030;

pub const WIN0H: u32 = 0x040;

pub const WININ: u32 = 0x048;

pub const MOSAIC: u32 = 0x04C;

pub const BLDCNT: u32 = 0x050;

pub const BLDALPHA: u32 = 0x052;

pub const BLDY: u32 = 0x054;

pub const MASTER_BRIGHT: u32 = 0x06C;

/// One past the last register either engine answers for.
pub const END: u32 = 0x070;

} // verus!
