//! The buttons, the touchscreen and the serial bus.

use handheld::nds::input::{reg, Buttons, Input, InputState, TouchPoint, RAW_PER_PIXEL};
use handheld::nds::Core;
use handheld::state::{StateError, StateReader, StateWriter};

const ARM9: Core = Core::Arm9;
const ARM7: Core = Core::Arm7;

fn pressed(buttons: Buttons) -> InputState {
    InputState {
        buttons,
        touch: None,
    }
}

fn touched(x: u16, y: u16) -> InputState {
    InputState {
        buttons: Buttons::empty(),
        touch: Some(TouchPoint { x, y }),
    }
}

#[test]
fn nothing_is_held_at_power_on() {
    let mut input = Input::new();
    assert_eq!(input.read16(ARM9, reg::KEYINPUT), Some(0x03FF));
    assert_eq!(input.read16(ARM7, reg::EXTKEYIN), Some(0x007F));
}

#[test]
fn the_ten_shared_buttons_map_to_their_bits() {
    let cases = [
        (Buttons { a: true, ..Buttons::empty() }, 0),
        (Buttons { b: true, ..Buttons::empty() }, 1),
        (Buttons { select: true, ..Buttons::empty() }, 2),
        (Buttons { start: true, ..Buttons::empty() }, 3),
        (Buttons { right: true, ..Buttons::empty() }, 4),
        (Buttons { left: true, ..Buttons::empty() }, 5),
        (Buttons { up: true, ..Buttons::empty() }, 6),
        (Buttons { down: true, ..Buttons::empty() }, 7),
        (Buttons { r: true, ..Buttons::empty() }, 8),
        (Buttons { l: true, ..Buttons::empty() }, 9),
    ];
    for (button, bit) in cases {
        let mut input = Input::new();
        input.set_input(pressed(button));
        assert_eq!(
            input.read16(ARM9, reg::KEYINPUT),
            Some(0x03FF & !(1 << bit)),
            "{button:?}"
        );
    }
}

#[test]
fn x_and_y_are_on_the_register_only_the_arm7_can_see() {
    let mut input = Input::new();
    input.set_input(pressed(Buttons { x: true, y: true, ..Buttons::empty() }));
    assert_eq!(input.read16(ARM7, reg::EXTKEYIN), Some(0x007C));
    assert_eq!(input.read16(ARM9, reg::KEYINPUT), Some(0x03FF));
    assert_eq!(input.read16(ARM9, reg::EXTKEYIN), None);
    assert!(!Input::owns(ARM9, reg::EXTKEYIN));
    assert!(Input::owns(ARM7, reg::EXTKEYIN));
    assert!(Input::owns(ARM9, reg::KEYINPUT));
}

#[test]
fn a_touch_pulls_the_pen_down_line() {
    let mut input = Input::new();
    assert_ne!(input.read16(ARM7, reg::EXTKEYIN).unwrap() & (1 << 6), 0);
    input.set_input(touched(10, 20));
    assert_eq!(input.read16(ARM7, reg::EXTKEYIN).unwrap() & (1 << 6), 0);
    input.set_input(pressed(Buttons::empty()));
    assert_ne!(input.read16(ARM7, reg::EXTKEYIN).unwrap() & (1 << 6), 0);
}

#[test]
fn the_keypad_interrupt_distinguishes_any_from_all() {
    let mut input = Input::new();
    input.write16(ARM7, reg::KEYCNT, (1 << 15) | 0b11);
    assert!(!input.irq_pending());
    input.set_input(pressed(Buttons { a: true, ..Buttons::empty() }));
    assert!(input.irq_pending());

    input.write16(ARM7, reg::KEYCNT, (1 << 15) | (1 << 14) | 0b11);
    assert!(!input.irq_pending(), "only one of the two");
    input.set_input(pressed(Buttons { a: true, b: true, ..Buttons::empty() }));
    assert!(input.irq_pending());

    input.write16(ARM7, reg::KEYCNT, 0b11);
    assert!(!input.irq_pending());
}

#[test]
fn the_key_registers_are_pins_and_ignore_writes() {
    let mut input = Input::new();
    input.set_input(pressed(Buttons { a: true, ..Buttons::empty() }));
    input.write16(ARM9, reg::KEYINPUT, 0xFFFF);
    assert_eq!(input.read16(ARM9, reg::KEYINPUT), Some(0x03FE));
}

fn read_channel(input: &mut Input, channel: u8) -> u16 {
    input.write16(ARM7, reg::SPICNT, (1 << 15) | (1 << 11) | (2 << 8));
    input.write16(ARM7, reg::SPIDATA, (0x80 | (channel << 4)) as u16);
    input.write16(ARM7, reg::SPIDATA, 0);
    let high = input.read16(ARM7, reg::SPIDATA).unwrap();
    input.write16(ARM7, reg::SPIDATA, 0);
    let low = input.read16(ARM7, reg::SPIDATA).unwrap();
    ((high & 0x7F) << 5) | ((low & 0xF8) >> 3)
}

#[test]
fn the_touchscreen_reports_a_position_over_the_serial_bus() {
    let mut input = Input::new();
    input.set_input(touched(100, 50));
    assert_eq!(read_channel(&mut input, 5), 100 * RAW_PER_PIXEL, "X");
    assert_eq!(read_channel(&mut input, 1), 50 * RAW_PER_PIXEL, "Y");
}

#[test]
fn channel_one_is_y_and_channel_five_is_x() {
    let mut input = Input::new();
    input.set_input(touched(200, 10));
    assert_ne!(read_channel(&mut input, 5), read_channel(&mut input, 1));
    assert_eq!(read_channel(&mut input, 5), 200 * RAW_PER_PIXEL);
}

#[test]
fn the_extremes_of_the_screen_survive_the_twelve_bit_conversion() {
    let mut input = Input::new();
    for (x, y) in [(0, 0), (255, 191), (255, 0), (0, 191)] {
        input.set_input(touched(x, y));
        assert_eq!(read_channel(&mut input, 5), x * RAW_PER_PIXEL);
        assert_eq!(read_channel(&mut input, 1), y * RAW_PER_PIXEL);
    }
}

#[test]
fn a_touch_outside_the_screen_is_clamped_rather_than_wrapped() {
    let mut input = Input::new();
    input.set_input(touched(9999, 9999));
    assert_eq!(read_channel(&mut input, 5), 255 * RAW_PER_PIXEL);
    assert_eq!(read_channel(&mut input, 1), 191 * RAW_PER_PIXEL);
}

#[test]
fn the_position_channels_read_zero_with_the_pen_up() {
    let mut input = Input::new();
    assert_eq!(read_channel(&mut input, 5), 0);
    assert_eq!(read_channel(&mut input, 1), 0);
}

fn read_channel_chained(input: &mut Input, channel: u8, samples: usize) -> Vec<u16> {
    let command = (0x80 | (channel << 4)) as u16;
    let send = |input: &mut Input, byte: u16| {
        input.write16(ARM7, reg::SPICNT, (1 << 15) | (1 << 11) | (2 << 8));
        input.write16(ARM7, reg::SPIDATA, byte);
        input.read16(ARM7, reg::SPIDATA).unwrap()
    };
    send(input, command);
    let mut values = Vec::with_capacity(samples);
    for _ in 0..samples {
        let high = send(input, 0);
        let low = send(input, command);
        values.push(((high & 0x7F) << 5) | ((low & 0xF8) >> 3));
    }
    values
}

#[test]
fn a_chained_conversion_hands_back_its_low_bits() {
    let mut input = Input::new();
    input.set_input(touched(101, 51));
    assert_eq!(
        read_channel_chained(&mut input, 5, 3),
        vec![101 * RAW_PER_PIXEL; 3],
        "X, three times over"
    );
    assert_eq!(
        read_channel_chained(&mut input, 1, 3),
        vec![51 * RAW_PER_PIXEL; 3],
        "Y, three times over"
    );
}

#[test]
fn deselecting_the_device_restarts_the_byte_counter() {
    let mut input = Input::new();
    input.set_input(touched(100, 50));
    input.write16(ARM7, reg::SPICNT, (1 << 15) | (1 << 11) | (2 << 8));
    input.write16(ARM7, reg::SPIDATA, 0x80 | (5 << 4));
    input.write16(ARM7, reg::SPIDATA, 0);
    let first = input.read16(ARM7, reg::SPIDATA).unwrap();

    input.write16(ARM7, reg::SPICNT, (1 << 15) | (2 << 8));
    input.write16(ARM7, reg::SPIDATA, 0);
    let low = input.read16(ARM7, reg::SPIDATA).unwrap();
    assert_ne!(low, first, "that was the second data byte");

    input.write16(ARM7, reg::SPICNT, (1 << 15) | (1 << 11) | (2 << 8));
    input.write16(ARM7, reg::SPIDATA, 0x80 | (5 << 4));
    input.write16(ARM7, reg::SPIDATA, 0);
    assert_eq!(input.read16(ARM7, reg::SPIDATA), Some(first));
}

#[test]
fn the_firmware_answers_a_read_out_of_its_own_image() {
    let mut input = Input::new();
    let expected = input.firmware.image()[4];
    for byte in [0x03, 0x00, 0x00, 0x04] {
        input.write16(ARM7, reg::SPICNT, (1 << 15) | (1 << 11) | (1 << 8));
        input.write16(ARM7, reg::SPIDATA, byte);
    }
    input.write16(ARM7, reg::SPICNT, (1 << 15) | (1 << 11) | (1 << 8));
    input.write16(ARM7, reg::SPIDATA, 0);
    assert_eq!(input.read16(ARM7, reg::SPIDATA), Some(expected as u16));
}

#[test]
fn releasing_the_chipselect_ends_the_firmware_command() {
    let mut input = Input::new();
    input.write16(ARM7, reg::SPICNT, (1 << 15) | (1 << 11) | (1 << 8));
    input.write16(ARM7, reg::SPIDATA, 0x03);
    input.write16(ARM7, reg::SPICNT, (1 << 15) | (1 << 8));
    input.write16(ARM7, reg::SPIDATA, 0x00);
    input.write16(ARM7, reg::SPICNT, (1 << 15) | (1 << 11) | (1 << 8));
    input.write16(ARM7, reg::SPIDATA, 0x05);
    input.write16(ARM7, reg::SPICNT, (1 << 15) | (1 << 11) | (1 << 8));
    input.write16(ARM7, reg::SPIDATA, 0);
    assert_eq!(input.read16(ARM7, reg::SPIDATA), Some(0));
}

#[test]
fn the_power_management_chip_is_absent_but_does_not_hang() {
    let mut input = Input::new();
    input.write16(ARM7, reg::SPICNT, (1 << 15) | (1 << 11));
    input.write16(ARM7, reg::SPIDATA, 0x00);
    assert_eq!(input.read16(ARM7, reg::SPIDATA), Some(0));
}

#[test]
fn the_spi_bus_is_not_in_the_arm9s_map() {
    let mut input = Input::new();
    assert!(!Input::owns(ARM9, reg::SPICNT));
    assert_eq!(input.read16(ARM9, reg::SPIDATA), None);
    assert!(!input.write16(ARM9, reg::SPICNT, 0xFFFF));
}

#[test]
fn byte_accesses_reach_the_registers() {
    let mut input = Input::new();
    input.set_input(pressed(Buttons { l: true, ..Buttons::empty() }));
    assert_eq!(input.read8(ARM9, reg::KEYINPUT), Some(0xFF));
    assert_eq!(input.read8(ARM9, reg::KEYINPUT + 1), Some(0x01));
    input.write8(ARM7, reg::KEYCNT, 0b11);
    input.write8(ARM7, reg::KEYCNT + 1, 0x80);
    assert!(!input.irq_pending());
    input.set_input(pressed(Buttons { a: true, ..Buttons::empty() }));
    assert!(input.irq_pending());
}

#[test]
fn input_round_trips_through_a_save_state_mid_conversion() {

    let mut input = Input::new();
    input.set_input(touched(77, 88));
    input.write16(ARM7, reg::SPICNT, (1 << 15) | (1 << 11) | (2 << 8));
    input.write16(ARM7, reg::SPIDATA, 0x80 | (5 << 4));
    input.write16(ARM7, reg::SPIDATA, 0);
    let high = input.read16(ARM7, reg::SPIDATA).unwrap();

    let mut w = StateWriter::new();
    input.save(&mut w);
    let blob = w.into_bytes();
    let mut restored = Input::new();
    restored.load(&mut StateReader::new(blob.clone())).unwrap();

    restored.write16(ARM7, reg::SPIDATA, 0);
    let low = restored.read16(ARM7, reg::SPIDATA).unwrap();
    assert_eq!(
        ((high & 0x7F) << 5) | ((low & 0xF8) >> 3),
        77 * RAW_PER_PIXEL
    );
    assert_eq!(restored.read16(ARM7, reg::EXTKEYIN).unwrap() & (1 << 6), 0);
}

#[test]
fn a_cut_off_input_stream_is_reported() {
    let mut input = Input::new();
    assert_eq!(input.load(&mut StateReader::new(vec![0; 4])), Err(StateError::UnexpectedEnd));
    assert!(!Input::owns(ARM9, reg::KEYCNT + 2 + 0x100));
}

#[test]
fn resetting_the_input_brings_back_power_on() {
    let mut input = Input::new();
    input.set_input(touched(3, 4));
    input.write16(ARM7, reg::KEYCNT, 0xFFFF);
    input.reset();
    assert_eq!(input.read16(ARM7, reg::EXTKEYIN), Some(0x007F));
    assert_eq!(input.read16(ARM7, reg::KEYCNT), Some(0));
}
