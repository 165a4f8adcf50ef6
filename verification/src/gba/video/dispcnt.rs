//! Bits of `DISPCNT`.

use vstd::prelude::*;

verus! {

pub const MODE: u16 = 0x0007;

/// Which of the two bitmap frames is displayed, in modes 4 and 5.
pub const FRAME_SELECT: u16 = 0x0010;

pub const HBLANK_INTERVAL_FREE: u16 = 0x0020;

/// Set selects one-dimensional object tile mapping.
pub const OBJ_1D_MAPPING: u16 = 0x0040;

/// Blanks the screen to white without disturbing any video memory.
pub const FORCED_BLANK: u16 = 0x0080;

pub const BG0: u16 = 0x0100;

pub const BG2: u16 = 0x0400;

pub const OBJ: u16 = 0x1000;

} // verus!
