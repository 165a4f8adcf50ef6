//! Bits of a timer's control register.

use vstd::prelude::*;

verus! {

pub const PRESCALE: u16 = 0x0003;

pub const CASCADE: u16 = 0x0004;

pub const IRQ: u16 = 0x0040;

pub const ENABLE: u16 = 0x0080;

/// The bits that exist; the rest read as zero.
pub const MASK: u16 = 0x00C7;

} // verus!
