//! The memory map.

use vstd::prelude::*;

verus! {

/// What an address falls in.
#[derive(Debug, Clone, Copy, PartialEq, Eq, Structural)]
pub enum Region {
    Bios,
    EWram,
    IWram,
    Io,
    Palette,
    Vram,
    Oam,
    /// The cartridge, through one of its three windows.
    Rom { wait_state: u8 },
    Sram,
    Unmapped,
}

impl Region {
    /// The region of an address, which its top byte decides.
    #[verifier::allow_in_spec]
    pub fn of(addr: u32) -> Region
        returns
            ({
                let page = addr / 0x100_0000;
                if page == 0 {
                    Region::Bios
                } else if page == 2 {
                    Region::EWram
                } else if page == 3 {
                    Region::IWram
                } else if page == 4 {
                    Region::Io
                } else if page == 5 {
                    Region::Palette
                } else if page == 6 {
                    Region::Vram
                } else if page == 7 {
                    Region::Oam
                } else if page == 8 || page == 9 {
                    Region::Rom { wait_state: 0 }
                } else if page == 10 || page == 11 {
                    Region::Rom { wait_state: 1 }
                } else if page == 12 || page == 13 {
                    Region::Rom { wait_state: 2 }
                } else if page == 14 || page == 15 {
                    Region::Sram
                } else {
                    Region::Unmapped
                }
            }),
    {
        let page = addr / 0x100_0000;
        if page == 0 {
            Region::Bios
        } else if page == 2 {
            Region::EWram
        } else if page == 3 {
            Region::IWram
        } else if page == 4 {
            Region::Io
        } else if page == 5 {
            Region::Palette
        } else if page == 6 {
            Region::Vram
        } else if page == 7 {
            Region::Oam
        } else if page == 8 || page == 9 {
            Region::Rom { wait_state: 0 }
        } else if page == 10 || page == 11 {
            Region::Rom { wait_state: 1 }
        } else if page == 12 || page == 13 {
            Region::Rom { wait_state: 2 }
        } else if page == 14 || page == 15 {
            Region::Sram
        } else {
            Region::Unmapped
        }
    }
}

} // verus!
