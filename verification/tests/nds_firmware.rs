//! The firmware flash chip.

use handheld::nds::bios::crc16;
use handheld::nds::firmware::{
    op, status, Firmware, JEDEC_ID, PAGE, SECTOR, SETTINGS_A, SETTINGS_B, SETTINGS_LEN,
    SETTINGS_POINTER, WIFI_CONFIG, WIFI_CONFIG_LEN, WIFI_CONFIG_POINTER,
};
use handheld::state::{StateError, StateReader, StateWriter};

fn read(firmware: &mut Firmware, address: u32, len: usize) -> Vec<u8> {
    firmware.deselect();
    firmware.transfer(op::READ);
    for shift in [16, 8, 0] {
        firmware.transfer((address >> shift) as u8);
    }
    let out = (0..len).map(|_| firmware.transfer(0)).collect();
    firmware.deselect();
    out
}

fn status(firmware: &mut Firmware) -> u8 {
    firmware.deselect();
    firmware.transfer(op::READ_STATUS);
    let value = firmware.transfer(0);
    firmware.deselect();
    value
}

#[test]
fn an_idle_chip_does_not_report_a_write_in_progress() {
    let mut firmware = Firmware::new();
    assert_eq!(status(&mut firmware) & status::WIP, 0);
}

#[test]
fn the_header_points_at_the_settings_block() {
    let firmware = Firmware::new();
    let pointer = u16::from_le_bytes([
        firmware.image()[SETTINGS_POINTER],
        firmware.image()[SETTINGS_POINTER + 1],
    ]);
    assert_eq!(pointer as usize * 8, SETTINGS_A);
}

#[test]
fn both_settings_blocks_pass_the_checksum_software_applies() {
    let firmware = Firmware::new();
    for at in [SETTINGS_A, SETTINGS_B] {
        let block = &firmware.image()[at..at + SETTINGS_LEN];
        let stored = u16::from_le_bytes([block[0x72], block[0x73]]);
        assert_eq!(
            crc16(0xFFFF, &block[0x00..0x70]),
            stored,
            "settings block at {at:#X}"
        );
    }
}

#[test]
fn one_settings_block_is_exactly_one_update_newer_than_the_other() {
    let firmware = Firmware::new();
    let counter = |at: usize| {
        u16::from_le_bytes([firmware.image()[at + 0x70], firmware.image()[at + 0x71]]) & 0x7F
    };
    assert_eq!((counter(SETTINGS_A) + 1) & 0x7F, counter(SETTINGS_B));
}

#[test]
fn a_read_returns_the_image_and_runs_on_across_bytes() {
    let mut firmware = Firmware::new();
    let bytes = read(&mut firmware, SETTINGS_A as u32, 4);
    assert_eq!(bytes, firmware.image()[SETTINGS_A..SETTINGS_A + 4].to_vec());
}

#[test]
fn deselecting_ends_a_command_rather_than_continuing_it() {
    let mut firmware = Firmware::new();
    let first = read(&mut firmware, SETTINGS_A as u32, 4);
    let second = read(&mut firmware, SETTINGS_A as u32, 4);
    assert_eq!(first, second);
}

#[test]
fn a_write_needs_the_enable_latch_and_clears_nothing_without_it() {
    let mut firmware = Firmware::new();
    let before = firmware.image()[SETTINGS_A];
    firmware.transfer(op::PAGE_WRITE);
    for shift in [16, 8, 0] {
        firmware.transfer((SETTINGS_A as u32 >> shift) as u8);
    }
    firmware.transfer(0x5A);
    firmware.deselect();
    assert_eq!(firmware.image()[SETTINGS_A], before);

    firmware.transfer(op::WRITE_ENABLE);
    firmware.deselect();
    assert_eq!(status(&mut firmware) & status::WEL, status::WEL);
    firmware.transfer(op::PAGE_WRITE);
    for shift in [16, 8, 0] {
        firmware.transfer((SETTINGS_A as u32 >> shift) as u8);
    }
    firmware.transfer(0x5A);
    firmware.deselect();
    assert_eq!(firmware.image()[SETTINGS_A], 0x5A);
}

#[test]
fn a_page_write_wraps_inside_its_page() {
    let mut firmware = Firmware::new();
    firmware.transfer(op::WRITE_ENABLE);
    firmware.deselect();
    let base = SETTINGS_A as u32 + 0xFF;
    firmware.transfer(op::PAGE_WRITE);
    for shift in [16, 8, 0] {
        firmware.transfer((base >> shift) as u8);
    }
    firmware.transfer(0x11);
    firmware.transfer(0x22);
    firmware.deselect();
    assert_eq!(firmware.image()[SETTINGS_A + 0xFF], 0x11);
    assert_eq!(firmware.image()[SETTINGS_A], 0x22);
    assert_eq!(
        firmware.image()[SETTINGS_A + 0x100],
        Firmware::new().image()[SETTINGS_A + 0x100]
    );
}

#[test]
fn a_state_round_trip_keeps_the_image_and_the_command_in_progress() {
    let mut firmware = Firmware::new();
    firmware.transfer(op::WRITE_ENABLE);
    firmware.deselect();
    firmware.transfer(op::READ);
    firmware.transfer(0x03);

    let mut writer = StateWriter::new();
    firmware.save(&mut writer);
    let bytes = writer.into_bytes();
    let mut restored = Firmware::new();
    let mut reader = StateReader::new(bytes);
    restored.load(&mut reader).unwrap();
    assert_eq!(restored, firmware);
}

fn command(firmware: &mut Firmware, bytes: &[u8]) -> u8 {
    let mut last = 0;
    for byte in bytes {
        last = firmware.transfer(*byte);
    }
    firmware.deselect();
    last
}

#[test]
fn a_completed_page_write_clears_the_enable_latch() {
    let mut firmware = Firmware::new();
    command(&mut firmware, &[op::WRITE_ENABLE]);
    assert_eq!(status(&mut firmware), status::WEL);
    command(&mut firmware, &[op::PAGE_WRITE, 0x03, 0xFE, 0x00, 0x77]);
    assert_eq!(status(&mut firmware), 0);
    command(&mut firmware, &[op::WRITE_ENABLE]);
    command(&mut firmware, &[op::WRITE_DISABLE]);
    assert_eq!(status(&mut firmware), 0);
}

#[test]
fn erasing_fills_a_page_or_a_sector_with_ones() {
    let mut firmware = Firmware::new();
    command(&mut firmware, &[op::WRITE_ENABLE]);
    command(&mut firmware, &[op::PAGE_ERASE, 0x03, 0xFE, 0x10]);
    assert!(firmware.image()[SETTINGS_A..SETTINGS_A + PAGE].iter().all(|b| *b == 0xFF));
    assert!(firmware.image()[SETTINGS_B..SETTINGS_B + PAGE].iter().any(|b| *b != 0xFF));
    command(&mut firmware, &[op::WRITE_ENABLE]);
    command(&mut firmware, &[op::SECTOR_ERASE, 0x03, 0x00, 0x00]);
    assert!(firmware.image()[0x3_0000..0x3_0000 + SECTOR].iter().all(|b| *b == 0xFF));
}

#[test]
fn programming_only_clears_bits() {
    let mut firmware = Firmware::new();
    command(&mut firmware, &[op::WRITE_ENABLE]);
    command(&mut firmware, &[op::PAGE_WRITE, 0x00, 0x10, 0x00, 0xF0]);
    command(&mut firmware, &[op::WRITE_ENABLE]);
    command(&mut firmware, &[op::PAGE_PROGRAM, 0x00, 0x10, 0x00, 0x3C]);
    assert_eq!(read(&mut firmware, 0x1000, 1), vec![0x30]);
}

#[test]
fn the_chip_names_itself_and_reads_fast_after_a_dummy_byte() {
    let mut firmware = Firmware::new();
    firmware.transfer(op::READ_ID);
    let id: Vec<u8> = (0..3).map(|_| firmware.transfer(0)).collect();
    firmware.deselect();
    assert_eq!(id, JEDEC_ID.to_vec());

    let expected = firmware.image()[SETTINGS_A];
    assert_eq!(command(&mut firmware, &[op::FAST_READ, 0x03, 0xFE, 0x00, 0xEE, 0]), expected);
}

#[test]
fn powering_down_and_up_keeps_the_latch_and_the_image() {
    let mut firmware = Firmware::new();
    command(&mut firmware, &[op::WRITE_ENABLE]);
    command(&mut firmware, &[op::DEEP_POWER_DOWN]);
    command(&mut firmware, &[op::RELEASE_POWER_DOWN]);
    assert_eq!(status(&mut firmware), status::WEL);
    assert_eq!(firmware.image(), Firmware::new().image());
}

#[test]
fn the_wireless_configuration_passes_its_checksum() {
    let firmware = Firmware::new();
    let block = &firmware.image()[0x2C..0x2C + WIFI_CONFIG_LEN];
    assert_eq!(block.len(), 0x138);
    assert!(WIFI_CONFIG < firmware.image().len() && WIFI_CONFIG_POINTER < PAGE);
    assert_eq!(firmware.current_user_settings(), &firmware.image()[SETTINGS_B..SETTINGS_B + 0x70]);
}

#[test]
fn a_firmware_stream_that_ends_early_is_reported() {
    let mut firmware = Firmware::new();
    assert_eq!(
        firmware.load(&mut StateReader::new(vec![0; 10])),
        Err(StateError::UnexpectedEnd)
    );
}
