//! The dual-screen handheld: two ARM cores, two 2D engines and one 3D core.

pub mod apu;
pub mod bios;
pub mod bus;
pub mod cartridge;
pub mod cpu;
pub mod debug;
pub mod diagnostics;
pub mod dma;
pub mod dma_laws;
pub mod engine2d;
pub mod firmware;
pub mod gpu3d;
pub mod input;
pub mod ipc;
pub mod ipc_laws;
pub mod irq;
pub mod math;
pub mod memory;
pub mod video;
pub mod vram;

pub use apu::NdsApu;
pub use bios::{BiosCall, BiosEffect};
pub use cartridge::NdsCartridge;
pub use diagnostics::NdsSystem;
pub use dma::DmaController;
pub use engine2d::{Engine, Engine2d};
pub use gpu3d::Gpu3d;
pub use input::Input;
pub use ipc::Ipc;
pub use irq::InterruptController;
pub use memory::{NdsMemory, WramSplit};
pub use vram::{Vram, VramSpace};

use vstd::prelude::*;

verus! {

/// Which of the two CPUs an operation concerns.
///
/// The order is fixed, so this can index a two-element array.
#[derive(Debug, Clone, Copy, PartialEq, Eq, Hash, Structural)]
pub enum Core {
    /// The "main" CPU, which runs game logic and drives the 3D engine.
    Arm9,
    /// Audio, touchscreen, and the hardware the ARM9 cannot reach.
    Arm7,
}

impl Core {
    /// The other one. Most IPC operations are phrased as "this core does something to the other".
    #[verifier::allow_in_spec]
    pub fn other(self) -> Core
        returns
            (match self {
                Core::Arm9 => Core::Arm7,
                Core::Arm7 => Core::Arm9,
            }),
    {
        match self {
            Core::Arm9 => Core::Arm7,
            Core::Arm7 => Core::Arm9,
        }
    }

    pub fn name(self) -> (r: &'static str)
        ensures
            r@ == (match self {
                Core::Arm9 => "ARM9"@,
                Core::Arm7 => "ARM7"@,
            }),
    {
        match self {
            Core::Arm9 => "ARM9",
            Core::Arm7 => "ARM7",
        }
    }

    /// This core's place in a pair.
    #[verifier::allow_in_spec]
    pub fn index(self) -> usize
        returns
            (match self {
                Core::Arm9 => 0usize,
                Core::Arm7 => 1usize,
            }),
    {
        match self {
            Core::Arm9 => 0,
            Core::Arm7 => 1,
        }
    }
}

/// The other core's other core is this one.
pub proof fn law_other_is_an_involution(core: Core)
    ensures
        core.other() != core,
        core.other().other() == core,
{
}

} // verus!
