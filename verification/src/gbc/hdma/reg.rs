//! Register addresses.

use vstd::prelude::*;

verus! {

pub const HDMA1: u16 = 0xFF51;

pub const HDMA2: u16 = 0xFF52;

pub const HDMA3: u16 = 0xFF53;

pub const HDMA4: u16 = 0xFF54;

/// Length, mode, and start; writing it is what launches a transfer.
pub const HDMA5: u16 = 0xFF55;

} // verus!
