//! The dimensions of one screen.

use vstd::prelude::*;

verus! {

pub const SCREEN_WIDTH: u32 = 256;

pub const SCREEN_HEIGHT: u32 = 192;

} // verus!
