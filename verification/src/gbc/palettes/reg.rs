//! Register addresses.

use vstd::prelude::*;

verus! {

/// Background palette index and auto-increment flag.
pub const BCPS: u16 = 0xFF68;

/// Background palette data at the current index.
pub const BCPD: u16 = 0xFF69;

/// Sprite palette index and auto-increment flag.
pub const OCPS: u16 = 0xFF6A;

/// Sprite palette data at the current index.
pub const OCPD: u16 = 0xFF6B;

} // verus!
