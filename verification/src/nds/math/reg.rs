//! Register addresses.

use vstd::prelude::*;

verus! {

pub const DIVCNT: u32 = 0x0400_0280;

pub const DIV_NUMERATOR: u32 = 0x0400_0290;

pub const DIV_DENOMINATOR: u32 = 0x0400_0298;

pub const DIV_RESULT: u32 = 0x0400_02A0;

pub const DIV_REMAINDER: u32 = 0x0400_02A8;

pub const SQRTCNT: u32 = 0x0400_02B0;

pub const SQRT_RESULT: u32 = 0x0400_02B4;

pub const SQRT_PARAM: u32 = 0x0400_02B8;

/// One past the last address that either unit answers.
pub const END: u32 = 0x0400_02C0;

} // verus!
