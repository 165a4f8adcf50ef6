//! The fields of `DISPCNT`.

use vstd::prelude::*;

verus! {

pub const MODE: u32 = 0x7;

pub const BG0_IS_3D: u32 = 0x8;

pub const OBJ_1D_MAPPING: u32 = 0x10;

pub const OBJ_BITMAP_WIDE: u32 = 0x20;

pub const OBJ_BITMAP_1D: u32 = 0x40;

pub const FORCED_BLANK: u32 = 0x80;

pub const BG_ENABLE: u32 = 0xF00;

pub const OBJ_ENABLE: u32 = 0x1000;

pub const WIN0_ENABLE: u32 = 0x2000;

pub const WIN1_ENABLE: u32 = 0x4000;

pub const OBJ_WINDOW_ENABLE: u32 = 0x8000;

pub const DISPLAY_MODE: u32 = 0x3_0000;

pub const VRAM_BLOCK: u32 = 0xC_0000;

pub const OBJ_1D_BOUNDARY: u32 = 0x30_0000;

pub const OBJ_BITMAP_1D_BOUNDARY: u32 = 0x40_0000;

pub const CHAR_BASE: u32 = 0x700_0000;

pub const SCREEN_BASE: u32 = 0x3800_0000;

pub const BG_EXT_PALETTE: u32 = 0x4000_0000;

pub const OBJ_EXT_PALETTE: u32 = 0x8000_0000;

} // verus!
