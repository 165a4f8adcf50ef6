//! The opcodes of the serial flash.

use vstd::prelude::*;

verus! {

pub const WRITE_DISABLE: u8 = 0x04;

pub const READ_STATUS: u8 = 0x05;

pub const WRITE_ENABLE: u8 = 0x06;

pub const READ: u8 = 0x03;

pub const FAST_READ: u8 = 0x0B;

pub const PAGE_WRITE: u8 = 0x0A;

pub const PAGE_PROGRAM: u8 = 0x02;

pub const PAGE_ERASE: u8 = 0xDB;

pub const SECTOR_ERASE: u8 = 0xD8;

pub const READ_ID: u8 = 0x9F;

pub const DEEP_POWER_DOWN: u8 = 0xB9;

pub const RELEASE_POWER_DOWN: u8 = 0xAB;

} // verus!
