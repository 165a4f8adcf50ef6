//! What the flash commands do, stated of the bytes that a driver shifts.

use vstd::prelude::*;
use super::{fabricated, lemma_latch, FirmwareState, SETTINGS_A, SETTINGS_B, SIZE};

verus! {

/// A command with a three-byte address, the highest byte first, on a chip that was just selected.
#[verifier::opaque]
pub open spec fn addressed(chip: FirmwareState, command: u8, high: u8, middle: u8, low: u8) -> FirmwareState {
    chip.deselected().transferred(command).transferred(high).transferred(middle).transferred(low)
}

/// The place that three address bytes name.
pub open spec fn place(high: u8, middle: u8, low: u8) -> int {
    (0x1_0000 * high + 0x100 * middle + low) % 0x4_0000
}

proof fn lemma_addressed(chip: FirmwareState, command: u8, high: u8, middle: u8, low: u8)
    requires
        chip.wf(),
        command == 0x03 || command == 0x0B || command == 0x0A || command == 0x02,
    ensures
        ({
            let after = addressed(chip, command, high, middle, low);
            &&& after.address == 0x1_0000 * high + 0x100 * middle + low
            &&& after.at() == place(high, middle, low)
            &&& after.position == 4
            &&& after.command == Some(command)
            &&& after.image == chip.image
            &&& after.status == chip.deselected().status
        }),
{
    reveal(addressed);
    let begun = chip.deselected().transferred(command);
    let one = begun.transferred(high);
    let two = one.transferred(middle);
    let three = two.transferred(low);
    assert(begun.position == 1 && begun.address == 0);
    assert(one.address == high && one.position == 2);
    assert(two.address == 0x100 * high + middle && two.position == 3);
    assert(three.address == 0x1_0000 * high + 0x100 * middle + low);
}

/// A read gives back the image: `0x03` and an address, and then each byte shifted in brings out the next
/// one of the image, round its end. The fast read has one byte of nothing first.
pub proof fn law_a_read_finds_its_address(chip: FirmwareState, high: u8, middle: u8, low: u8, filler: u8)
    requires
        chip.wf(),
    ensures
        ({
            let slow = addressed(chip, 0x03, high, middle, low);
            let fast = addressed(chip, 0x0B, high, middle, low).transferred(filler);
            let at = place(high, middle, low);
            &&& slow.answer() == chip.image[at]
            &&& slow.transferred(filler).answer() == chip.image[(at + 1) % 0x4_0000]
            &&& fast.answer() == chip.image[at]
            &&& fast.transferred(filler).answer() == chip.image[(at + 1) % 0x4_0000]
        }),
{
    lemma_addressed(chip, 0x03, high, middle, low);
    lemma_addressed(chip, 0x0B, high, middle, low);
    lemma_next_place(high, middle, low);
    let slow = addressed(chip, 0x03, high, middle, low);
    let ready = addressed(chip, 0x0B, high, middle, low);
    assert(ready.transferred(filler) == (FirmwareState { position: 5, ..ready }));
    lemma_reads_on(slow, filler);
    lemma_reads_on(ready.transferred(filler), filler);
}

/// The next byte of a read.
proof fn lemma_reads_on(chip: FirmwareState, filler: u8)
    requires
        chip.command == Some(0x03u8) || chip.command == Some(0x0Bu8),
        4 <= chip.position < 100,
        chip.command == Some(0x0Bu8) ==> chip.position > 4,
        chip.address < 0x100_0000,
    ensures
        chip.answer() == chip.image[chip.address as int % 0x4_0000],
        chip.transferred(filler).answer() == chip.image[(chip.address + 1) % 0x4_0000],
{
}

/// The place behind another.
proof fn lemma_next_place(high: u8, middle: u8, low: u8)
    ensures
        ({
            let address = 0x1_0000 * high + 0x100 * middle + low;
            &&& address % 0x100 == low
            &&& (address + 1) % 0x4_0000 == (place(high, middle, low) + 1) % 0x4_0000
            &&& low < 0xFF ==> (address + 1) % 0x4_0000 == place(high, middle, low) + 1
            &&& low < 0xFF ==> (address + 1) % 0x100 == low + 1
        }),
{
    let address = 0x1_0000 * high + 0x100 * middle + low;
    let at = address % 0x4_0000;
    assert(address == address / 0x4_0000 * 0x4_0000 + at);
    assert(at % 0x100 == low);
}

/// The chip with writing enabled: a command of its own, between two releases.
#[verifier::opaque]
pub open spec fn enabled(chip: FirmwareState) -> FirmwareState {
    chip.deselected().transferred(0x06).deselected()
}

proof fn lemma_enabled(chip: FirmwareState)
    ensures
        enabled(chip).status & 0x02 != 0,
        enabled(chip).image == chip.image,
        enabled(chip).command is None,
        enabled(chip).wf() == chip.wf(),
        enabled(chip).deselected() == enabled(chip),
{
    reveal(enabled);
    lemma_latch(chip.deselected().status);
}

/// A write puts its byte at its address, and the next one behind it; a program clears the bits that are
/// clear in its byte. Neither changes another byte, and the release afterwards ends the permission.
pub proof fn law_writes_go_to_their_address(
    chip: FirmwareState,
    high: u8,
    middle: u8,
    low: u8,
    byte: u8,
    next: u8,
)
    requires
        chip.wf(),
        low < 0xFF,
    ensures
        ({
            let at = place(high, middle, low);
            let written = addressed(enabled(chip), 0x0A, high, middle, low).transferred(byte);
            let programmed = addressed(enabled(chip), 0x02, high, middle, low).transferred(byte);
            &&& written.image == chip.image.update(at, byte)
            &&& written.transferred(next).image == chip.image.update(at, byte).update(at + 1, next)
            &&& programmed.image == chip.image.update(at, chip.image[at] & byte)
            &&& written.deselected().status & 0x02 == 0
            &&& programmed.deselected().status & 0x02 == 0
        }),
{
    lemma_enabled(chip);
    lemma_written(enabled(chip), 0x0A, high, middle, low, byte);
    lemma_written(enabled(chip), 0x02, high, middle, low, byte);
    let written = addressed(enabled(chip), 0x0A, high, middle, low).transferred(byte);
    let at = place(high, middle, low);
    lemma_next_place(high, middle, low);
    assert(written.at() == at + 1);
    lemma_writes_on(written, next);
}

/// The next byte of a write.
proof fn lemma_writes_on(chip: FirmwareState, byte: u8)
    requires
        chip.command == Some(0x0Au8),
        chip.position == 5,
        chip.status & 0x02 != 0,
    ensures
        chip.transferred(byte).image == chip.image.update(chip.at(), byte),
{
}

proof fn lemma_written(chip: FirmwareState, command: u8, high: u8, middle: u8, low: u8, byte: u8)
    requires
        chip.wf(),
        chip.status & 0x02 != 0,
        chip.deselected() == chip,
        command == 0x0A || command == 0x02,
        low < 0xFF,
    ensures
        ({
            let after = addressed(chip, command, high, middle, low).transferred(byte);
            let at = place(high, middle, low);
            &&& after.image == chip.image.update(
                at,
                if command == 0x0A { byte } else { chip.image[at] & byte },
            )
            &&& after.address == 0x1_0000 * high + 0x100 * middle + low + 1
            &&& after.position == 5
            &&& after.command == Some(command)
            &&& after.status == chip.status
            &&& after.deselected().status & 0x02 == 0
        }),
{
    lemma_addressed(chip, command, high, middle, low);
    let ready = addressed(chip, command, high, middle, low);
    let address = 0x1_0000 * high + 0x100 * middle + low;
    lemma_next_place(high, middle, low);
    lemma_latch(ready.status);
}

/// An erase fills the page, or the sector, that holds its address with ones, and changes nothing else.
pub proof fn law_erases_fill_with_ones(chip: FirmwareState, high: u8, middle: u8, low: u8, i: int)
    requires
        chip.wf(),
        0 <= i < 0x4_0000,
    ensures
        ({
            let at = place(high, middle, low);
            let page = addressed(enabled(chip), 0xDB, high, middle, low);
            let sector = addressed(enabled(chip), 0xD8, high, middle, low);
            &&& page.image[i] == (if i / 0x100 == at / 0x100 { 0xFF } else { chip.image[i] })
            &&& sector.image[i] == (if i / 0x1_0000 == at / 0x1_0000 { 0xFF } else { chip.image[i] })
        }),
{
    lemma_enabled(chip);
    let ready = enabled(chip);
    lemma_erased(ready, 0xDB, high, middle, low, i);
    lemma_erased(ready, 0xD8, high, middle, low, i);
}

proof fn lemma_erased(chip: FirmwareState, command: u8, high: u8, middle: u8, low: u8, i: int)
    requires
        chip.wf(),
        chip.status & 0x02 != 0,
        chip.deselected() == chip,
        command == 0xDB || command == 0xD8,
        0 <= i < 0x4_0000,
    ensures
        ({
            let at = place(high, middle, low);
            let span = if command == 0xDB { 0x100int } else { 0x1_0000 };
            addressed(chip, command, high, middle, low).image[i] == (if at - at % span <= i < at - at
                % span + span {
                0xFF
            } else {
                chip.image[i]
            })
        }),
{
    reveal(addressed);
    let begun = chip.transferred(command);
    let one = begun.transferred(high);
    let two = one.transferred(middle);
    assert(begun.position == 1 && begun.address == 0 && begun.status == chip.status);
    assert(one.address == high && one.position == 2);
    assert(two.address == 0x100 * high + middle && two.position == 3);
    assert(two.image == chip.image && two.status == chip.status && two.command == Some(command));
    let shifted = FirmwareState {
        position: 4,
        address: (0x1_0000 * high + 0x100 * middle + low) as u32,
        ..two
    };
    assert(two.transferred(low) == shifted.erased(command));
    assert(shifted.at() == place(high, middle, low));
}

/// The identity that the chip reports.
pub proof fn law_the_chip_names_itself(chip: FirmwareState, filler: u8)
    ensures
        ({
            let one = chip.deselected().transferred(0x9F);
            &&& one.answer() == 0x20
            &&& one.transferred(filler).answer() == 0x40
            &&& one.transferred(filler).transferred(filler).answer() == 0x12
        }),
{
}

/// What a driver makes of a raw count with the two points of a calibration.
pub open spec fn calibrated(raw: int, raw_a: int, raw_b: int, pixel_a: int, pixel_b: int) -> int {
    (raw - raw_a) * (pixel_b - pixel_a) / (raw_b - raw_a) + pixel_a
}

/// The calibration in either settings block undoes the touchscreen's scale: the raw count for a pixel
/// gives back the pixel, across the screen and down it.
pub proof fn law_the_calibration_gives_back_the_pixel(block: int, x: int, y: int)
    requires
        block == SETTINGS_A || block == SETTINGS_B,
        0 <= x <= 255,
        0 <= y <= 191,
    ensures
        ({
            let image = fabricated();
            let half = |i: int| super::half_of(image, block + i);
            let byte = |i: int| image[block + i] as int;
            &&& calibrated(16 * x, half(0x58), half(0x5E), byte(0x5C), byte(0x62)) == x
            &&& calibrated(16 * y, half(0x5A), half(0x60), byte(0x5D), byte(0x63)) == y
        }),
{
    assert(SIZE == 0x4_0000);
    assert(16 * x * 255 / 4080 == x);
    assert(16 * y * 191 / 3056 == y);
}

/// Software takes the second settings block if its counter is one ahead of the first's, round 128, and the
/// first otherwise.
pub proof fn law_the_newer_block_is_current(chip: FirmwareState)
    requires
        chip.wf(),
    ensures
        ({
            let a = chip.image[0x3_FE70] as int % 128;
            let b = chip.image[0x3_FF70] as int % 128;
            chip.current_settings() == (if b == a + 1 || b == 0 && a == 127 { 0x3_FF00int } else { 0x3_FE00 })
        }),
{
}

} // verus!
