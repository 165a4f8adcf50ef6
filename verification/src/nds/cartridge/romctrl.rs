//! Bits of `ROMCTRL`.

use vstd::prelude::*;

verus! {

/// Set while a word is waiting to be read.
pub const DATA_READY: u32 = 0x0080_0000;

pub const BLOCK_SIZE: u32 = 0x0700_0000;

/// Written to begin a transfer; reads back as "a transfer is running".
pub const START: u32 = 0x8000_0000;

} // verus!
