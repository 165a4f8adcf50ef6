//! The bits of the video sources.

use vstd::prelude::*;

verus! {

pub const VBLANK: u16 = 0x0001;

pub const HBLANK: u16 = 0x0002;

pub const VCOUNT: u16 = 0x0004;

} // verus!
