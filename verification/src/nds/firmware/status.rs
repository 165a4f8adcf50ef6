//! Status register bits. Only these two are storage; the rest read as zero.

use vstd::prelude::*;

verus! {

/// Write in progress. Never set: writes complete inside the transfer that requests them, so there
/// is no moment at which the chip is busy for software to observe.
pub const WIP: u8 = 0x01;

/// Write enable latch, set by `WREN` and cleared by `WRDI` and by every completed write.
pub const WEL: u8 = 0x02;

} // verus!
