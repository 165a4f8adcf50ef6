//! Register addresses of the 3D core.

use vstd::prelude::*;

verus! {

pub const DISP3DCNT: u32 = 0x0400_0060;

pub const EDGE_COLOR: u32 = 0x0400_0330;

pub const ALPHA_TEST_REF: u32 = 0x0400_0340;

pub const CLEAR_COLOR: u32 = 0x0400_0350;

pub const CLEAR_DEPTH: u32 = 0x0400_0354;

pub const FOG_COLOR: u32 = 0x0400_0358;

pub const TOON_TABLE: u32 = 0x0400_0380;

pub const GXSTAT: u32 = 0x0400_0600;

pub const RAM_COUNT: u32 = 0x0400_0604;

pub const POS_RESULT: u32 = 0x0400_0620;

pub const VEC_RESULT: u32 = 0x0400_0630;

} // verus!
