//! The colour handheld: what the machine adds to its monochrome ancestor.
//!
//! The cartridge header decides which machine a game gets, and a monochrome cartridge on colour
//! hardware is recoloured before it runs.

pub mod attributes;
pub mod hdma;
pub mod palettes;

use vstd::prelude::*;
use palettes::{with_colour, CgbPalettes, PaletteState};

verus! {

/// Which machine a cartridge runs on.
#[derive(Debug, Clone, Copy, PartialEq, Eq, Structural)]
pub enum Model {
    /// Monochrome hardware.
    Dmg,
    /// Colour hardware, running a colour cartridge.
    Cgb,
    /// Colour hardware, running a monochrome cartridge.
    CgbInDmgMode,
}

impl Model {
    /// The model that a header's colour flag selects: its top bit asks for colour.
    #[verifier::allow_in_spec]
    pub fn for_cartridge(flag: u8, cgb_hardware: bool) -> Model
        returns
            (if !cgb_hardware {
                Model::Dmg
            } else if flag >= 0x80 {
                Model::Cgb
            } else {
                Model::CgbInDmgMode
            }),
    {
        if !cgb_hardware {
            Model::Dmg
        } else if flag >= 0x80 {
            Model::Cgb
        } else {
            Model::CgbInDmgMode
        }
    }

    /// Whether the banking and the speed switch are there.
    pub fn has_cgb_hardware(self) -> (r: bool)
        ensures
            r == (self != Model::Dmg),
    {
        self != Model::Dmg
    }

    /// Whether the picture goes through colour palette RAM.
    pub fn uses_colour_palettes(self) -> (r: bool)
        ensures
            r == (self != Model::Dmg),
    {
        self != Model::Dmg
    }

    /// Whether the second VRAM bank holds an attribute map.
    pub fn uses_tile_attributes(self) -> (r: bool)
        ensures
            r == (self == Model::Cgb),
    {
        self == Model::Cgb
    }

    /// Whether clearing `LCDC` bit 0 blanks the background, rather than its priority.
    pub fn bg_enable_blanks_background(self) -> (r: bool)
        ensures
            r == (self == Model::Dmg),
    {
        self == Model::Dmg
    }
}

/// Where a header keeps its colour flag.
pub const CGB_FLAG: usize = 0x0143;

/// The four shades of a monochrome screen, lightest first.
pub const GREYSCALE: [u16; 4] = [0x7FFF, 0x56B5, 0x294A, 0x0000];

/// A header's colour flag; a ROM too short to have one has a clear one.
pub open spec fn flag_of(rom: Seq<u8>) -> u8 {
    if rom.len() > CGB_FLAG { rom[CGB_FLAG as int] } else { 0 }
}

fn cgb_flag(rom: &[u8]) -> (r: u8)
    ensures
        r == flag_of(rom@),
{
    if rom.len() > CGB_FLAG {
        rom[CGB_FLAG]
    } else {
        0
    }
}

/// One bank with the same four shades in every palette.
pub open spec fn recoloured(shades: Seq<u16>) -> Seq<u8> {
    Seq::new(
        64,
        |i: int|
            if i % 2 == 0 {
                (shades[i % 8 / 2] % 0x100) as u8
            } else {
                (shades[i % 8 / 2] / 0x100) as u8
            },
    )
}

/// Give a monochrome cartridge the shades that it would have shown.
///
/// Both palette banks, every palette. Without this the game would draw through whatever palette RAM
/// powered up as, which is all white. The index registers stay where they were.
#[verifier::rlimit(30)]
pub fn install_compatibility_palette(palettes: &mut CgbPalettes, shades: &[u16; 4])
    requires
        old(palettes)@.wf(),
    ensures
        final(palettes)@.wf(),
        final(palettes)@ == (PaletteState {
            background: recoloured(shades@),
            sprite: recoloured(shades@),
            ..old(palettes)@
        }),
{
    for palette in 0..8u8
        invariant
            palettes@.wf(),
            palettes@.bg_index == old(palettes)@.bg_index,
            palettes@.obj_index == old(palettes)@.obj_index,
            forall|i: int|
                0 <= i < 8 * palette ==> #[trigger] palettes@.background[i] == recoloured(
                    shades@,
                )[i],
            forall|i: int|
                0 <= i < 8 * palette ==> #[trigger] palettes@.sprite[i] == recoloured(shades@)[i],
    {
        for index in 0..4u8
            invariant
                palette < 8,
                palettes@.wf(),
                palettes@.bg_index == old(palettes)@.bg_index,
                palettes@.obj_index == old(palettes)@.obj_index,
                forall|i: int|
                    0 <= i < 8 * palette + 2 * index ==> #[trigger] palettes@.background[i]
                        == recoloured(shades@)[i],
                forall|i: int|
                    0 <= i < 8 * palette + 2 * index ==> #[trigger] palettes@.sprite[i]
                        == recoloured(shades@)[i],
        {
            let shade = shades[index as usize];
            palettes.set_colour(false, palette, index, shade);
            palettes.set_colour(true, palette, index, shade);
        }
    }
    assert(palettes@.background =~= recoloured(shades@));
    assert(palettes@.sprite =~= recoloured(shades@));
}

/// The parts of the machine that a cartridge's header decides.
#[derive(Debug)]
pub struct GbcSystem {
    pub model: Model,
    pub palettes: CgbPalettes,
}

impl GbcSystem {
    /// The machine that a cartridge gets on colour hardware, as it comes up.
    pub fn new(rom: &[u8]) -> (r: Self)
        ensures
            r.model == Model::for_cartridge(flag_of(rom@), true),
            r.palettes@.wf(),
            r.palettes@ == (if r.model == Model::CgbInDmgMode {
                (PaletteState {
                    background: recoloured(GREYSCALE@),
                    sprite: recoloured(GREYSCALE@),
                    ..PaletteState::initial()
                })
            } else {
                PaletteState::initial()
            }),
    {
        let model = Model::for_cartridge(cgb_flag(rom), true);
        let mut palettes = CgbPalettes::new();
        if model == Model::CgbInDmgMode {
            install_compatibility_palette(&mut palettes, &GREYSCALE);
        }
        GbcSystem { model, palettes }
    }

    /// Another cartridge in the same machine: a monochrome one is recoloured again.
    pub fn load_cartridge(&mut self, rom: &[u8])
        requires
            old(self).palettes@.wf(),
        ensures
            final(self).model == old(self).model,
            final(self).palettes@.wf(),
            final(self).palettes@ == (if Model::for_cartridge(flag_of(rom@), true)
                == Model::CgbInDmgMode {
                (PaletteState {
                    background: recoloured(GREYSCALE@),
                    sprite: recoloured(GREYSCALE@),
                    ..old(self).palettes@
                })
            } else {
                old(self).palettes@
            }),
    {
        if Model::for_cartridge(cgb_flag(rom), true) == Model::CgbInDmgMode {
            install_compatibility_palette(&mut self.palettes, &GREYSCALE);
        }
    }

    /// What a save state of this machine carries in its header.
    pub fn id(&self) -> (r: &'static str)
        ensures
            r@ == "gbc"@,
    {
        "gbc"
    }

    pub fn display_name(&self) -> (r: &'static str)
        ensures
            r@ == "Game Boy Color"@,
    {
        "Game Boy Color"
    }
}

/// Every palette of a recoloured bank holds the four shades in order.
pub proof fn law_recolouring_fills_every_palette(shades: Seq<u16>, palette: u8, colour: u8)
    requires
        shades.len() == 4,
    ensures
        palettes::colour_in(recoloured(shades), palette, colour) == shades[(colour % 4) as int],
{
    let at = palettes::slot(palette, colour) as int;
    assert(at % 2 == 0 && at % 8 / 2 == colour % 4);
    assert((at + 1) % 2 == 1 && (at + 1) % 8 / 2 == colour % 4);
}

} // verus!
