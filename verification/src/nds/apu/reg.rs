//! Register addresses.

use vstd::prelude::*;

verus! {

pub const SOUNDCNT: u32 = 0x0400_0500;

pub const SOUNDBIAS: u32 = 0x0400_0504;

} // verus!
