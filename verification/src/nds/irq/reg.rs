//! Register addresses, identical in both cores' I/O space.

use vstd::prelude::*;

verus! {

pub const IME: u32 = 0x0400_0208;

pub const IE: u32 = 0x0400_0210;

pub const IF: u32 = 0x0400_0214;

} // verus!
