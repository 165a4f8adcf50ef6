//! The colour handheld: tile attributes, palette RAM, VRAM DMA and the model that a header selects.

use handheld::color::Rgba8;
use handheld::gbc::attributes::{background_wins, TileAttributes};
use handheld::gbc::hdma::{reg, Block, Hdma, Mode, BLOCK_BYTES};
use handheld::gbc::palettes::{self, reg as palette_reg, rgb555_to_rgba8, CgbPalettes, PALETTE_BYTES};
use handheld::gbc::{install_compatibility_palette, GbcSystem, Model, GREYSCALE};
use handheld::fault::Fault;
use handheld::state::{StateError, StateReader, StateWriter};

const WHITE: Rgba8 = Rgba8 { r: 255, g: 255, b: 255, a: 255 };
const BLACK: Rgba8 = Rgba8 { r: 0, g: 0, b: 0, a: 255 };

// -- Tile attributes ------------------------------------------------------------------------

#[test]
fn every_attribute_byte_round_trips_through_the_decoded_form() {
    // The unused bit 4 is the reason this is a sweep: it must not survive the round trip.
    for byte in 0..=u8::MAX {
        let decoded = TileAttributes::from_byte(byte);
        assert_eq!(
            decoded.to_byte(),
            byte & 0xEF,
            "attribute byte {byte:#04X} did not round trip"
        );
    }
}

#[test]
fn the_fields_land_in_the_right_bits() {
    let a = TileAttributes::from_byte(0b1110_1101);
    assert_eq!(a.palette, 5);
    assert_eq!(a.bank, 1);
    assert!(a.flip_x);
    assert!(a.flip_y);
    assert!(a.priority);
}

#[test]
fn a_transparent_background_pixel_never_covers_a_sprite() {
    for tile_priority in [false, true] {
        for sprite_behind in [false, true] {
            assert!(
                !background_wins(true, tile_priority, sprite_behind, 0),
                "colour 0 covered a sprite with tile={tile_priority} sprite={sprite_behind}"
            );
        }
    }
}

#[test]
fn clearing_lcdc_bit_zero_forces_every_sprite_to_the_front() {
    for tile_priority in [false, true] {
        for sprite_behind in [false, true] {
            for colour in 1..4 {
                assert!(
                    !background_wins(false, tile_priority, sprite_behind, colour),
                    "background won with master priority off"
                );
            }
        }
    }
}

#[test]
fn either_priority_bit_puts_the_background_in_front() {
    assert!(background_wins(true, true, false, 1), "the tile asked");
    assert!(background_wins(true, false, true, 1), "the sprite yielded");
    assert!(background_wins(true, true, true, 1), "both");
    assert!(!background_wins(true, false, false, 1), "neither, so the sprite is in front");
}

#[test]
fn attributes_round_trip_through_a_save_state() {
    let a = TileAttributes::from_byte(0b1010_1011);
    let mut w = StateWriter::new();
    a.save(&mut w);
    let bytes = w.into_bytes();
    assert_eq!(bytes, vec![0b1010_1011]);
    let mut restored = TileAttributes::default();
    restored.load(&mut StateReader::new(bytes)).unwrap();
    assert_eq!(a, restored);
}

#[test]
fn a_missing_attribute_byte_leaves_the_attributes_alone() {
    let mut a = TileAttributes::from_byte(0x87);
    assert_eq!(a.load(&mut StateReader::new(vec![])), Err(StateError::UnexpectedEnd));
    assert_eq!(a, TileAttributes::from_byte(0x87));
}

#[test]
fn attributes_out_of_range_are_masked_into_their_byte() {
    let a = TileAttributes { palette: 9, bank: 3, flip_x: false, flip_y: true, priority: false };
    assert_eq!(a.to_byte(), 0x49);
}

// -- VRAM DMA -------------------------------------------------------------------------------

/// Point a transfer at a source and destination without starting it.
fn armed(source: u16, destination: u16) -> Hdma {
    let mut h = Hdma::new();
    h.write_register(reg::HDMA1, (source >> 8) as u8);
    h.write_register(reg::HDMA2, source as u8);
    h.write_register(reg::HDMA3, (destination >> 8) as u8);
    h.write_register(reg::HDMA4, destination as u8);
    h
}

#[test]
fn a_general_purpose_transfer_reports_itself_as_immediate() {
    let mut h = armed(0x4000, 0x8000);
    assert_eq!(
        h.write_register(reg::HDMA5, 0x00),
        Some(true),
        "the caller must complete it now"
    );
}

#[test]
fn an_hblank_transfer_waits_rather_than_running_immediately() {
    let mut h = armed(0x4000, 0x8000);
    assert_eq!(h.write_register(reg::HDMA5, 0x80), Some(false));
    assert!(h.is_hblank_pending());
}

#[test]
fn a_length_of_zero_still_copies_one_block() {
    let mut h = armed(0x4000, 0x8000);
    h.write_register(reg::HDMA5, 0x00);
    assert_eq!(
        h.take_block(),
        Some(Block { source: 0x4000, destination: 0x8000, length: BLOCK_BYTES })
    );
    assert_eq!(h.take_block(), None, "and then it is finished");
}

#[test]
fn each_block_advances_both_pointers() {
    let mut h = armed(0x4000, 0x8000);
    h.write_register(reg::HDMA5, 0x02); // three blocks
    for step in 0..3u16 {
        assert_eq!(
            h.take_block(),
            Some(Block {
                source: 0x4000 + step * BLOCK_BYTES,
                destination: 0x8000 + step * BLOCK_BYTES,
                length: BLOCK_BYTES
            }),
            "block {step}"
        );
    }
    assert_eq!(h.take_block(), None);
}

#[test]
fn the_source_low_nibble_and_destination_high_bits_are_forced() {
    let mut h = armed(0xFFFF, 0xFFFF);
    h.write_register(reg::HDMA5, 0x00);
    let block = h.take_block().unwrap();
    assert_eq!(block.source & 0x000F, 0, "source is 16-byte aligned");
    assert!(
        (0x8000..0xA000).contains(&block.destination),
        "destination landed outside VRAM: {:#06X}",
        block.destination
    );
}

#[test]
fn the_destination_wraps_within_vram_rather_than_running_past_it() {
    let mut h = armed(0x4000, 0x9FF0);
    h.write_register(reg::HDMA5, 0x01); // two blocks; the second would overrun
    assert_eq!(h.take_block().unwrap().destination, 0x9FF0);
    assert_eq!(
        h.take_block().unwrap().destination,
        0x8000,
        "wrapped back into VRAM instead of into OAM"
    );
}

#[test]
fn clearing_bit_seven_cancels_a_running_hblank_transfer() {
    let mut h = armed(0x4000, 0x8000);
    h.write_register(reg::HDMA5, 0x83);
    assert!(h.is_hblank_pending());

    assert_eq!(
        h.write_register(reg::HDMA5, 0x00),
        Some(false),
        "cancelling must not read as a new immediate transfer"
    );
    assert!(!h.is_hblank_pending());
    assert_eq!(h.take_block(), None);
}

#[test]
fn hdma5_reports_activity_with_bit_seven_inverted() {
    let mut h = armed(0x4000, 0x8000);
    assert_eq!(h.read_register(reg::HDMA5), Some(0xFF), "idle");

    h.write_register(reg::HDMA5, 0x82);
    assert_eq!(h.read_register(reg::HDMA5), Some(0x02), "two blocks left");
    h.take_block();
    assert_eq!(h.read_register(reg::HDMA5), Some(0x01));
}

#[test]
fn the_address_registers_are_write_only() {
    let h = armed(0x4000, 0x8000);
    for addr in reg::HDMA1..=reg::HDMA4 {
        assert_eq!(h.read_register(addr), Some(0xFF), "{addr:#06X}");
    }
}

#[test]
fn addresses_outside_the_block_are_not_claimed() {
    let mut h = Hdma::new();
    assert!(!Hdma::owns(0xFF50));
    assert!(!Hdma::owns(0xFF56));
    assert_eq!(h.read_register(0xFF50), None);
    assert_eq!(h.write_register(0xFF56, 0), None);
}

#[test]
fn a_transfer_in_progress_round_trips() {
    let mut h = armed(0x4000, 0x8100);
    h.write_register(reg::HDMA5, 0x85);
    h.take_block();

    let mut w = StateWriter::new();
    h.save(&mut w);
    let mut restored = Hdma::new();
    restored.load(&mut StateReader::new(w.into_bytes())).unwrap();
    assert_eq!(h, restored);
    assert_eq!(
        restored.take_block(),
        h.clone().take_block(),
        "and resumes at the same block"
    );
}

#[test]
fn a_transfer_mode_that_does_not_exist_is_refused() {
    let mut h = armed(0x4000, 0x8100);
    let bytes = vec![0x10, 0x20, 0x30, 0x04, 0x05, 3];
    assert_eq!(h.load(&mut StateReader::new(bytes)), Err(StateError::Malformed(Fault::HdmaMode(3))));
    assert_eq!(h.mode, Mode::Idle);
    assert_eq!(h.source, 0x2010);
}

#[test]
fn a_transfer_has_one_block_more_than_its_length() {
    let mut h = armed(0x4000, 0x8000);
    h.write_register(reg::HDMA5, 0x7F);
    let mut blocks = 0;
    while h.take_block().is_some() {
        blocks += 1;
    }
    assert_eq!(blocks, 128);
}

// -- Models ---------------------------------------------------------------------------------

#[test]
fn a_dmg_cartridge_on_cgb_hardware_is_its_own_mode() {
    assert_eq!(Model::for_cartridge(0x00, true), Model::CgbInDmgMode);
    assert_eq!(Model::for_cartridge(0x00, false), Model::Dmg);
}

#[test]
fn both_cgb_header_flags_select_full_colour_mode() {
    assert_eq!(Model::for_cartridge(0x80, true), Model::Cgb);
    assert_eq!(Model::for_cartridge(0xC0, true), Model::Cgb);
}

#[test]
fn a_cgb_cartridge_in_a_dmg_still_runs_as_a_dmg() {
    assert_eq!(Model::for_cartridge(0x80, false), Model::Dmg);
}

#[test]
fn compatibility_mode_has_the_hardware_but_not_the_tile_attributes() {
    let m = Model::CgbInDmgMode;
    assert!(m.has_cgb_hardware(), "banking and KEY1 are present");
    assert!(m.uses_colour_palettes(), "the boot ROM recoloured the game");
    assert!(
        !m.uses_tile_attributes(),
        "VRAM bank 1 holds no attribute map, so reading one would decode garbage"
    );
}

#[test]
fn a_dmg_has_none_of_it() {
    let m = Model::Dmg;
    assert!(!m.has_cgb_hardware());
    assert!(!m.uses_colour_palettes());
    assert!(!m.uses_tile_attributes());
}

#[test]
fn compatibility_mode_draws_through_palette_ram_but_reads_no_attributes() {
    let m = Model::CgbInDmgMode;
    assert!(m.uses_colour_palettes());
    assert!(!m.uses_tile_attributes());
    assert!(!m.bg_enable_blanks_background(), "it is CGB hardware");
}

fn cgb_rom(program: &[u8], cgb_flag: u8) -> Vec<u8> {
    let mut rom = vec![0u8; 0x8000];
    rom[0x0143] = cgb_flag;
    rom[0x0100..0x0100 + program.len()].copy_from_slice(program);
    rom
}

#[test]
fn the_header_flag_decides_which_machine_the_cartridge_gets() {
    let colour = GbcSystem::new(&cgb_rom(&[0x18, 0xFE], 0xC0));
    assert!(colour.model.uses_tile_attributes());

    let mono = GbcSystem::new(&cgb_rom(&[0x18, 0xFE], 0x00));
    assert!(
        !mono.model.uses_tile_attributes(),
        "a DMG cartridge gets compatibility mode"
    );
    assert!(mono.model.has_cgb_hardware(), "but it is still colour hardware");
}

#[test]
fn a_dmg_cartridge_is_recoloured_to_greyscale_at_boot() {
    let mono = GbcSystem::new(&cgb_rom(&[0x18, 0xFE], 0x00));
    let palettes = &mono.palettes;
    assert_eq!(palettes.lookup_bg(0, 0), WHITE);
    assert_eq!(palettes.lookup_bg(0, 3), BLACK);
    assert_eq!(
        palettes.lookup_sprite(7, 3),
        BLACK,
        "every palette in both banks, not just the first"
    );
}

#[test]
fn a_colour_cartridge_keeps_the_palette_ram_it_powered_up_with() {
    let colour = GbcSystem::new(&cgb_rom(&[0x18, 0xFE], 0xC0));
    assert_eq!(
        colour.palettes.lookup_bg(0, 3),
        WHITE,
        "a CGB game writes its own palettes and must not find them pre-filled"
    );
}

#[test]
fn a_rom_without_a_header_is_a_monochrome_one() {
    let short = GbcSystem::new(&[0xC0; 0x143]);
    assert_eq!(short.model, Model::CgbInDmgMode);
    assert_eq!(short.id(), "gbc");
    assert_eq!(short.display_name(), "Game Boy Color");
}

#[test]
fn another_monochrome_cartridge_is_recoloured_again() {
    let mut system = GbcSystem::new(&cgb_rom(&[], 0xC0));
    system.load_cartridge(&cgb_rom(&[], 0x80));
    assert_eq!(system.palettes.lookup_bg(3, 3), WHITE);
    system.load_cartridge(&cgb_rom(&[], 0x00));
    assert_eq!(system.palettes.lookup_bg(3, 3), BLACK);
}

// -- Palettes -------------------------------------------------------------------------------

#[test]
fn palette_data_moves_the_index_only_when_asked() {
    let mut p = CgbPalettes::new();
    assert!(CgbPalettes::owns(palette_reg::BCPS) && !CgbPalettes::owns(0xFF6C));
    p.write_register(palette_reg::BCPS, 0x80 | 62);
    p.write_register(palette_reg::BCPD, 0x12);
    p.write_register(palette_reg::BCPD, 0x34);
    assert_eq!(p.read_register(palette_reg::BCPS), Some(0xC0), "wrapped to the first byte");
    assert_eq!(p.read_register(palette_reg::BCPD), Some(0xFF), "reads do not move it");
    assert_eq!(p.read_register(palette_reg::BCPD), Some(0xFF));

    p.write_register(palette_reg::BCPS, 62);
    assert_eq!(p.read_register(palette_reg::BCPD), Some(0x12));
    p.write_register(palette_reg::BCPD, 0x56);
    assert_eq!(p.read_register(palette_reg::BCPD), Some(0x56), "and stays without the flag");
    assert_eq!(p.read_register(palette_reg::OCPS), Some(0x40), "the sprite index is another");
    assert_eq!(p.write_register(0xFF6C, 1), None);
    assert_eq!(p.read_register(0xFF67), None);
}

#[test]
fn a_set_colour_is_the_one_looked_up() {
    let mut p = CgbPalettes::new();
    p.set_colour(false, 3, 1, 0x7C00);
    p.set_colour(true, 3, 1, 0x03E0);
    assert_eq!(p.lookup_bg(3, 1), Rgba8 { r: 0, g: 0, b: 255, a: 255 });
    assert_eq!(p.lookup_sprite(3, 1), Rgba8 { r: 0, g: 255, b: 0, a: 255 });
    assert_eq!(p.lookup_bg(11, 5), p.lookup_bg(3, 1), "fields wrap");
    assert_eq!(p.lookup_bg(3, 2), WHITE);
    assert_eq!(palettes::slot(3, 1), 26);
}

#[test]
fn a_channel_expands_exactly_at_both_ends() {
    assert_eq!(rgb555_to_rgba8(0x7FFF), WHITE);
    assert_eq!(rgb555_to_rgba8(0x0000), BLACK);
    assert_eq!(rgb555_to_rgba8(0x0010), Rgba8 { r: 132, g: 0, b: 0, a: 255 });
}

#[test]
fn palettes_round_trip_through_a_save_state() {
    let mut p = CgbPalettes::new();
    p.set_colour(true, 7, 3, 0x1234);
    p.write_register(palette_reg::BCPS, 0x85);
    p.write_register(palette_reg::OCPS, 0x3F);
    let mut w = StateWriter::new();
    p.save(&mut w);
    let bytes = w.into_bytes();
    assert_eq!(bytes.len(), 2 * PALETTE_BYTES + 2);
    let mut restored = CgbPalettes::default();
    restored.load(&mut StateReader::new(bytes.clone())).unwrap();
    assert_eq!(restored, p);
    let mut cut = CgbPalettes::new();
    assert_eq!(
        cut.load(&mut StateReader::new(bytes[..129].to_vec())),
        Err(StateError::UnexpectedEnd)
    );
}

#[test]
fn a_compatibility_palette_fills_every_palette() {
    let mut p = CgbPalettes::new();
    install_compatibility_palette(&mut p, &GREYSCALE);
    for palette in 0..8 {
        for colour in 0..4u8 {
            let shade = rgb555_to_rgba8(GREYSCALE[colour as usize]);
            assert_eq!(p.lookup_bg(palette, colour), shade);
            assert_eq!(p.lookup_sprite(palette, colour), shade);
        }
    }
}

#[test]
fn every_block_of_a_transfer_is_sixteen_bytes_on() {
    for length in [0u8, 3, 0x7F, 0x80, 0xFF] {
        let mut h = Hdma::new();
        for (addr, value) in
            [(reg::HDMA1, 0xFF), (reg::HDMA2, 0xE7), (reg::HDMA3, 0xFF), (reg::HDMA4, 0xEF)]
        {
            h.write_register(addr, value);
        }
        h.write_register(reg::HDMA5, length);
        for k in 0..=(length & 0x7F) as u32 {
            assert_eq!(
                h.take_block(),
                Some(Block {
                    source: (0xFFE0 + 16 * k) as u16,
                    destination: (0x8000 + (0x1FE0 + 16 * k) % 0x2000) as u16,
                    length: 16,
                }),
                "block {k} of {length:#04X}"
            );
        }
        assert_eq!(h.take_block(), None);
        assert!(!h.is_hblank_pending());
        assert_eq!(h.read_register(reg::HDMA5), Some(0xFF));
    }
}

#[test]
fn sixty_four_data_writes_fill_a_bank_and_come_back() {
    let mut p = CgbPalettes::new();
    p.write_register(palette_reg::BCPS, 0x80 | 37);
    for i in 0..64u8 {
        p.write_register(palette_reg::BCPD, i * 3);
    }
    assert_eq!(p.read_register(palette_reg::BCPS), Some(0xC0 | 37));
    for i in 0..64u8 {
        p.write_register(palette_reg::BCPS, (37 + i) % 64);
        assert_eq!(p.read_register(palette_reg::BCPD), Some(i * 3));
    }
    assert_eq!(p.sprite, [0xFF; 64]);
    assert_eq!(p.read_register(palette_reg::OCPS), Some(0x40));
}
