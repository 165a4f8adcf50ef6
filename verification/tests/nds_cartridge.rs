//! The game card.

use handheld::nds::cartridge::{reg, romctrl, CartridgeError, NdsCartridge, SpiRequest};
use handheld::fault::{Counted, Fault};
use handheld::state::{StateError, StateReader, StateWriter};

fn rom_with(arm9: &[u8], arm7: &[u8]) -> Vec<u8> {
    let mut rom = vec![0u8; 0x8000];
    rom[..12].copy_from_slice(b"ALPHA TEST\0\0");
    rom[0x0C..0x10].copy_from_slice(b"ATST");
    rom[0x10..0x12].copy_from_slice(b"01");

    let put = |rom: &mut Vec<u8>, at: usize, v: u32| {
        rom[at..at + 4].copy_from_slice(&v.to_le_bytes());
    };
    put(&mut rom, 0x20, 0x4000);
    put(&mut rom, 0x24, 0x0200_0800);
    put(&mut rom, 0x28, 0x0200_0000);
    put(&mut rom, 0x2C, arm9.len() as u32);
    put(&mut rom, 0x30, 0x6000);
    put(&mut rom, 0x34, 0x0380_0100);
    put(&mut rom, 0x38, 0x0380_0000);
    put(&mut rom, 0x3C, arm7.len() as u32);

    rom[0x4000..0x4000 + arm9.len()].copy_from_slice(arm9);
    rom[0x6000..0x6000 + arm7.len()].copy_from_slice(arm7);
    rom
}

fn cart() -> NdsCartridge {
    NdsCartridge::new(rom_with(&[0xAA; 0x100], &[0x77; 0x80])).unwrap()
}

fn transfer(c: &mut NdsCartridge, command: [u8; 8], block: u32) {
    c.write32(
        reg::CARD_COMMAND,
        u32::from_le_bytes(command[0..4].try_into().unwrap()),
    );
    c.write32(
        0x0400_01AC,
        u32::from_le_bytes(command[4..8].try_into().unwrap()),
    );
    c.write32(reg::ROMCTRL, romctrl::START | (block << 24));
}

#[test]
fn a_header_says_where_the_two_binaries_are() {
    let c = cart();
    let h = c.header();
    assert_eq!(h.title, "ALPHA TEST");
    assert_eq!(h.game_code, "ATST");
    assert_eq!(h.maker_code, "01");
    assert_eq!(h.arm9_entry, 0x0200_0800);
    assert_eq!(h.arm7_ram_address, 0x0380_0000);
    assert_eq!(h.arm9_size, 0x100);
}

#[test]
fn a_rom_too_small_to_hold_a_header_is_rejected() {
    assert!(matches!(
        NdsCartridge::new(vec![0; 16]),
        Err(CartridgeError::TooSmall { .. })
    ));
}

#[test]
fn a_header_pointing_past_the_end_of_the_file_is_rejected() {
    let mut rom = rom_with(&[0; 4], &[0; 4]);
    rom[0x2C..0x30].copy_from_slice(&0x10_0000u32.to_le_bytes());
    let err = NdsCartridge::new(rom).unwrap_err();
    assert!(
        matches!(&err, CartridgeError::BadHeader(m) if m.contains("ARM9")),
        "{err:?}"
    );
}

#[test]
fn direct_boot_hands_back_both_binaries_and_both_entry_points() {
    let c = cart();
    let (nine, nine_bytes, seven, seven_bytes) = c.direct_boot();
    assert_eq!(nine.entry, 0x0200_0800);
    assert_eq!(nine.ram_address, 0x0200_0000);
    assert_eq!(nine_bytes.len(), 0x100);
    assert!(nine_bytes.iter().all(|b| *b == 0xAA));

    assert_eq!(seven.entry, 0x0380_0100);
    assert_eq!(seven_bytes.len(), 0x80);
    assert!(seven_bytes.iter().all(|b| *b == 0x77));
}

#[test]
fn the_rom_is_not_readable_without_a_card_command() {
    let mut c = cart();
    assert_eq!(c.read32(0x0800_0000), None);
    assert_eq!(c.read32(0x0200_0000), None);
    assert!(NdsCartridge::owns(reg::ROMCTRL));
    assert!(NdsCartridge::owns(reg::CARD_DATA));
    assert!(!NdsCartridge::owns(0x0400_0000));
}

#[test]
fn command_b7_reads_a_block_out_of_the_rom() {
    let mut c = cart();
    transfer(&mut c, [0xB7, 0, 0, 0x40, 0x00, 0, 0, 0], 1);
    assert!(c.data_ready());
    assert_eq!(c.read32(reg::CARD_DATA), Some(0xAAAA_AAAA));
    for _ in 1..128 {
        c.read32(reg::CARD_DATA);
    }
    assert!(!c.data_ready(), "the transfer finished");
}

#[test]
fn command_zero_reads_the_header() {
    let mut c = cart();
    transfer(&mut c, [0x00, 0, 0, 0, 0, 0, 0, 0], 1);
    let word = c.read32(reg::CARD_DATA).unwrap();
    assert_eq!(&word.to_le_bytes(), b"ALPH");
}

#[test]
fn the_block_size_field_of_seven_is_one_word_not_thirty_two_kilobytes() {
    let mut c = cart();
    transfer(&mut c, [0xB8, 0, 0, 0, 0, 0, 0, 0], 7);
    assert!(c.data_ready());
    let id = c.read32(reg::CARD_DATA).unwrap();
    assert_eq!(id & 0xFF, 0xC2);
    assert!(!c.data_ready(), "exactly one word");
}

#[test]
fn a_block_size_of_zero_transfers_nothing() {
    let mut c = cart();
    transfer(&mut c, [0xB7, 0, 0, 0x40, 0, 0, 0, 0], 0);
    assert!(!c.data_ready());
    assert_eq!(c.read32(reg::ROMCTRL).unwrap() & romctrl::START, 0);
}

#[test]
fn an_unrecognised_command_reads_as_all_ones() {
    let mut c = cart();
    transfer(&mut c, [0x3C, 0, 0, 0, 0, 0, 0, 0], 7);
    assert_eq!(c.read32(reg::CARD_DATA), Some(0xFFFF_FFFF));
}

#[test]
fn over_reading_a_transfer_returns_ones_rather_than_spinning() {
    let mut c = cart();
    transfer(&mut c, [0xB8, 0, 0, 0, 0, 0, 0, 0], 7);
    c.read32(reg::CARD_DATA);
    assert_eq!(c.read32(reg::CARD_DATA), Some(0xFFFF_FFFF));
    assert_eq!(c.read32(reg::CARD_DATA), Some(0xFFFF_FFFF));
}

#[test]
fn a_read_past_the_end_of_the_rom_is_ones_rather_than_a_panic() {
    let mut c = cart();
    transfer(&mut c, [0xB7, 0x0F, 0xFF, 0xF0, 0x00, 0, 0, 0], 1);
    assert_eq!(c.read32(reg::CARD_DATA), Some(0xFFFF_FFFF));
}

#[test]
fn a_read_above_the_secure_area_wraps_inside_its_four_kilobyte_block() {
    let mut rom = rom_with(&[0; 4], &[0; 4]);
    rom[0x7FFC..0x8000].copy_from_slice(&0x1234_5678u32.to_le_bytes());
    rom[0x7000..0x7004].copy_from_slice(&0xCAFE_BABEu32.to_le_bytes());
    let mut c = NdsCartridge::new(rom).unwrap();

    transfer(&mut c, [0xB7, 0x00, 0x00, 0x7F, 0xFC, 0, 0, 0], 7);
    assert_eq!(c.read32(reg::CARD_DATA), Some(0x1234_5678));
    transfer(&mut c, [0xB7, 0x00, 0x00, 0x7F, 0xFC, 0, 0, 0], 0);
    transfer(&mut c, [0xB7, 0x00, 0x00, 0x70, 0x00, 0, 0, 0], 7);
    assert_eq!(c.read32(reg::CARD_DATA), Some(0xCAFE_BABE));
}

#[test]
fn the_command_is_eight_bytes_at_eight_addresses() {
    let mut c = cart();
    c.write32(
        reg::CARD_COMMAND,
        u32::from_le_bytes([0xB7, 0x00, 0x00, 0x40]),
    );
    c.write32(0x0400_01AC, u32::from_le_bytes([0x00, 0x00, 0x00, 0x00]));
    c.write32(reg::ROMCTRL, romctrl::START | (1 << 24));
    assert_eq!(
        c.read32(reg::CARD_DATA),
        Some(0xAAAA_AAAA),
        "0xB7 reading from 0x4000"
    );

    let mut c = cart();
    for (offset, byte) in [0xB7u8, 0x00, 0x00, 0x40, 0x00, 0x00, 0x00, 0x00]
        .into_iter()
        .enumerate()
    {
        c.write8(reg::CARD_COMMAND + offset as u32, byte);
    }
    c.write32(reg::ROMCTRL, romctrl::START | (1 << 24));
    assert_eq!(c.read32(reg::CARD_DATA), Some(0xAAAA_AAAA));
}

#[test]
fn an_empty_slot_answers_every_command_with_ones() {
    let mut c = NdsCartridge::empty();
    assert!(!c.is_present());
    transfer(&mut c, [0xB7, 0, 0, 0, 0, 0, 0, 0], 7);
    assert_eq!(c.read32(reg::CARD_DATA), Some(0xFFFF_FFFF));
    transfer(&mut c, [0xB8, 0, 0, 0, 0, 0, 0, 0], 7);
    assert_eq!(c.read32(reg::CARD_DATA), Some(0xFFFF_FFFF));
}

#[test]
fn an_empty_slot_has_a_header_that_says_nothing() {
    let c = NdsCartridge::empty();
    let h = c.header();
    assert!(h.title.is_empty() && h.game_code.is_empty() && h.maker_code.is_empty());
    assert_eq!(
        [h.arm9_rom_offset, h.arm9_entry, h.arm9_ram_address, h.arm9_size],
        [0; 4]
    );
    assert_eq!(
        [h.arm7_rom_offset, h.arm7_entry, h.arm7_ram_address, h.arm7_size],
        [0; 4]
    );
}

#[test]
fn a_save_chip_writes_between_the_two_halves_of_a_state() {
    let mut c = cart();
    c.write16(reg::AUXSPICNT, 0x8040);
    transfer(&mut c, [0xB7, 0, 0, 0x40, 0x00, 0, 0, 0], 1);
    c.read32(reg::CARD_DATA);

    let mut w = StateWriter::new();
    c.save_port(&mut w);
    w.write_bytes(b"chip");
    c.save_transfer(&mut w);
    let bytes = w.into_bytes();
    assert_eq!(&bytes[..7], b"\x40\x80\0chip");
    assert_eq!(bytes.len(), 3 + 4 + 28 + 4 * 128);

    let mut restored = cart();
    let mut r = StateReader::new(bytes);
    restored.load_port(&mut r).unwrap();
    let mut chip = [0u8; 4];
    r.read_bytes(&mut chip);
    restored.load_transfer(&mut r).unwrap();
    assert_eq!(&chip, b"chip");
    assert_eq!(restored.read16(reg::AUXSPICNT), Some(0x8040));
    for _ in 0..63 {
        assert_eq!(restored.read32(reg::CARD_DATA), Some(0xAAAA_AAAA));
    }
    assert_eq!(restored.read32(reg::CARD_DATA), Some(0));
}

#[test]
fn the_longest_transfer_is_saved_whole_and_refused_on_the_way_back() {
    let mut c = cart();
    transfer(&mut c, [0x9F, 0, 0, 0, 0, 0, 0, 0], 5);
    let mut w = StateWriter::new();
    c.save(&mut w);
    let bytes = w.into_bytes();
    assert_eq!(bytes.len(), 31 + 4 * 2048);
    assert_eq!(&bytes[15..27], &[0, 8, 0, 0, 0, 0, 0, 0, 255, 255, 255, 255]);
    assert_eq!(
        cart().load(&mut StateReader::new(bytes)),
        Err(StateError::Malformed(Fault::TooMany(Counted::CardWords, 2048)))
    );
}

#[test]
fn there_is_no_save_chip_and_it_says_so() {
    let mut c = cart();
    assert!(c.save_ram().is_none());
    assert_eq!(c.read16(reg::AUXSPIDATA), Some(0));
    assert!(c.write16(reg::AUXSPIDATA, 0x9F));
}

#[test]
fn narrow_accesses_reach_the_registers() {
    let mut c = cart();
    c.write16(reg::AUXSPICNT, 0x8040);
    assert_eq!(c.read16(reg::AUXSPICNT), Some(0x8040));
    c.write8(reg::CARD_COMMAND, 0xB7);
    assert_eq!(c.read8(reg::CARD_COMMAND), Some(0xB7));
    c.write8(reg::CARD_COMMAND + 7, 0x5A);
    assert_eq!(c.read8(reg::CARD_COMMAND + 7), Some(0x5A));
}

#[test]
fn the_cartridge_round_trips_through_a_save_state_mid_transfer() {

    let mut c = cart();
    transfer(&mut c, [0xB7, 0, 0, 0x40, 0x00, 0, 0, 0], 1);
    c.read32(reg::CARD_DATA);
    c.read32(reg::CARD_DATA);

    let mut w = StateWriter::new();
    c.save(&mut w);
    let blob = w.into_bytes();
    let mut restored = cart();
    restored.load(&mut StateReader::new(blob.clone())).unwrap();

    assert!(restored.data_ready());
    for _ in 0..62 {
        assert_eq!(restored.read32(reg::CARD_DATA), Some(0xAAAA_AAAA));
    }
    for _ in 0..64 {
        assert_eq!(restored.read32(reg::CARD_DATA), Some(0));
    }
    assert!(!restored.data_ready());
}

#[test]
fn a_state_claiming_an_impossible_transfer_length_is_rejected() {

    let mut w = StateWriter::new();
    w.write_u16(0);
    w.write_u32(0);
    w.write_bytes(&[0u8; 8]);
    w.write_u64(0x10_0000);
    let blob = w.into_bytes();

    let mut restored = cart();
    assert!(restored.load(&mut StateReader::new(blob)).is_err());
}

#[test]
fn bytes_that_are_no_text_are_replaced_in_a_title() {
    let mut rom = rom_with(&[0; 4], &[0; 4]);
    rom[..12].copy_from_slice(b"A\xFFB\0\0\0\0\0\0\0\0\0");
    let c = NdsCartridge::new(rom).unwrap();
    assert_eq!(c.header().title, "A\u{FFFD}B");
}

#[test]
fn each_header_error_names_its_fault() {
    assert_eq!(
        NdsCartridge::new(vec![0; 16]).unwrap_err(),
        CartridgeError::TooSmall { len: 16, min: 0x200 }
    );
    let mut rom = rom_with(&[0; 4], &[0; 4]);
    rom[0x3C..0x40].copy_from_slice(&0x10_0000u32.to_le_bytes());
    assert!(matches!(
        NdsCartridge::new(rom).unwrap_err(),
        CartridgeError::BadHeader(m) if m.contains("ARM7")
    ));
}

#[test]
fn a_byte_for_the_save_chip_is_handed_over_and_answered() {
    let mut c = cart();
    c.write16(reg::AUXSPICNT, 0xA040);
    c.write16(reg::AUXSPIDATA, 0x9F);
    assert_eq!(c.take_spi_request(), Some(SpiRequest { byte: 0x9F, hold: true }));
    assert_eq!(c.take_spi_request(), None);
    c.complete_spi(0x20);
    assert_eq!(c.read16(reg::AUXSPIDATA), Some(0x20));
    c.set_save_ram(Some(vec![1, 2]));
    assert_eq!(c.save_ram(), Some(&[1u8, 2][..]));
}

#[test]
fn an_impossible_transfer_length_names_the_error() {
    let mut w = StateWriter::new();
    w.write_u16(0);
    w.write_u8(0);
    w.write_u32(0);
    w.write_bytes(&[0u8; 8]);
    w.write_u64(0x10_0000);
    assert_eq!(
        cart().load(&mut StateReader::new(w.into_bytes())),
        Err(StateError::Malformed(Fault::TooMany(Counted::CardWords, 0x10_0000)))
    );
}

#[test]
fn the_header_is_mirrored_from_the_first_bytes_of_the_rom() {
    let c = cart();
    assert_eq!(c.header_bytes(), &c.rom()[..0x200]);
    assert_eq!(NdsCartridge::empty().header_bytes(), &[] as &[u8]);
    assert!(!c.transfer_complete());
}
