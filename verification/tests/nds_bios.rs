//! The calls that software makes into the system ROM.

use handheld::nds::bios::{crc16, dispatch, BiosCall, BiosEffect, Context};
use handheld::nds::bios::tables::{pitch_table, volume_table};
use handheld::nds::bus::{Bus, FlatBus};
use handheld::nds::cpu::RegisterFile;
use handheld::nds::Core;

const FLAGS: u32 = 0x0100;

fn cpu() -> RegisterFile {
    RegisterFile::new()
}

fn flat_with(at: u32, data: &[u8]) -> FlatBus {
    let mut bus = FlatBus::new(0x4000);
    for (index, byte) in data.iter().enumerate() {
        bus.write8(at + index as u32, *byte);
    }
    bus
}

fn read_bytes(bus: &mut FlatBus, at: u32, len: usize) -> Vec<u8> {
    (0..len).map(|i| bus.read8(at + i as u32)).collect()
}

fn decompress(bus: &mut FlatBus, core: Core, comment: u8, source: u32, destination: u32) {
    let mut cpu = cpu();
    cpu.set_reg(0, source);
    cpu.set_reg(1, destination);
    run(&mut cpu, bus, core, comment);
}

fn run(cpu: &mut RegisterFile, bus: &mut FlatBus, core: Core, comment: u8) -> BiosEffect {
    let mut waiting = false;
    dispatch(
        cpu,
        bus,
        comment,
        Context {
            core,
            flags: FLAGS,
            waiting: &mut waiting,
        },
    )
}

#[test]
fn the_sound_tables_are_the_calls_the_arm7_actually_makes() {
    assert_eq!(
        BiosCall::from_comment(Core::Arm7, 0x1A),
        BiosCall::GetSineTable
    );
    assert_eq!(
        BiosCall::from_comment(Core::Arm7, 0x1B),
        BiosCall::GetPitchTable
    );
    assert_eq!(
        BiosCall::from_comment(Core::Arm7, 0x1C),
        BiosCall::GetVolumeTable
    );
    assert_eq!(
        BiosCall::from_comment(Core::Arm9, 0x1B),
        BiosCall::Unhandled(0x1B)
    );
}

#[test]
fn the_pitch_table_doubles_over_an_octave() {
    assert_eq!(pitch_table(0), 0);
    assert_eq!(pitch_table(768 / 2), 27146);
    assert_eq!(pitch_table(767), 65418);
    assert_eq!(pitch_table(10_000), pitch_table(767));
    for i in 1..768 {
        assert!(pitch_table(i) > pitch_table(i - 1), "at {i}");
    }
}

#[test]
fn the_volume_table_hands_back_the_share_the_divider_did_not_take() {
    assert_eq!(volume_table(723), 127);
    for threshold in [60u32, 120, 240] {
        let above = volume_table(723 - threshold);
        let below = volume_table(723 - threshold - 1);
        assert!(
            below > above,
            "the divider steps at -{threshold} tenths of a decibel"
        );
    }
    assert_eq!(volume_table(723 - 60), 64);
    assert_eq!(
        volume_table(0),
        0,
        "-72.3 dB is below one step of a 7-bit volume"
    );
    assert_eq!(volume_table(10_000), 127, "past the end clamps");
}

#[test]
fn the_call_numbers_are_the_ds_table_and_not_the_gba_one() {
    assert_eq!(BiosCall::from_comment(Core::Arm9, 0x09), BiosCall::Div);
    assert_eq!(BiosCall::from_comment(Core::Arm9, 0x0D), BiosCall::Sqrt);
    assert_eq!(BiosCall::from_comment(Core::Arm9, 0x06), BiosCall::Halt);
    assert_eq!(
        BiosCall::from_comment(Core::Arm9, 0x08),
        BiosCall::Unhandled(0x08),
        "the GBA's Sqrt number is a sound call the ARM9 does not have"
    );
}

#[test]
fn the_two_cores_have_different_tables() {
    assert_eq!(
        BiosCall::from_comment(Core::Arm7, 0x08),
        BiosCall::SoundBias
    );
    assert_eq!(BiosCall::from_comment(Core::Arm7, 0x07), BiosCall::Sleep);
    assert_eq!(
        BiosCall::from_comment(Core::Arm7, 0x1F),
        BiosCall::CustomHalt
    );
    assert_eq!(
        BiosCall::from_comment(Core::Arm9, 0x16),
        BiosCall::Diff8bitUnFilterWram
    );
    assert_eq!(
        BiosCall::from_comment(Core::Arm7, 0x16),
        BiosCall::Unhandled(0x16),
        "the difference filters are ARM9-only"
    );
    assert_eq!(
        BiosCall::from_comment(Core::Arm9, 0x1F),
        BiosCall::Unhandled(0x1F),
        "and the halt and sound calls are ARM7-only"
    );
    for comment in [0x00, 0x03, 0x04, 0x05, 0x06, 0x09, 0x0B, 0x0C, 0x0D, 0x0E] {
        assert_eq!(
            BiosCall::from_comment(Core::Arm9, comment),
            BiosCall::from_comment(Core::Arm7, comment),
            "SWI {comment:#04X}"
        );
    }
}

#[test]
fn div_returns_quotient_remainder_and_absolute_quotient() {
    let mut cpu = cpu();
    let mut bus = FlatBus::new(0x200);
    cpu.set_reg(0, 100);
    cpu.set_reg(1, 7);
    run(&mut cpu, &mut bus, Core::Arm9, 0x09);
    assert_eq!(cpu.reg(0), 14);
    assert_eq!(cpu.reg(1), 2);
    assert_eq!(cpu.reg(3), 14);
}

#[test]
fn div_truncates_toward_zero_rather_than_flooring() {
    let mut cpu = cpu();
    let mut bus = FlatBus::new(0x200);
    cpu.set_reg(0, (-7i32) as u32);
    cpu.set_reg(1, 2);
    run(&mut cpu, &mut bus, Core::Arm7, 0x09);
    assert_eq!(cpu.reg(0) as i32, -3);
    assert_eq!(cpu.reg(1) as i32, -1);
    assert_eq!(cpu.reg(3), 3, "the absolute quotient");
}

#[test]
fn dividing_by_zero_leaves_the_registers_alone_rather_than_hanging() {
    let mut cpu = cpu();
    let mut bus = FlatBus::new(0x200);
    cpu.set_reg(0, 42);
    cpu.set_reg(1, 0);
    run(&mut cpu, &mut bus, Core::Arm9, 0x09);
    assert_eq!(cpu.reg(0), 42);
}

#[test]
fn sqrt_is_an_integer_square_root() {
    let mut cpu = cpu();
    let mut bus = FlatBus::new(0x200);
    for (input, expected) in [
        (0u32, 0u32),
        (1, 1),
        (2, 1),
        (16, 4),
        (17, 4),
        (10_000, 100),
        (0xFFFF_FFFF, 0xFFFF),
    ] {
        cpu.set_reg(0, input);
        run(&mut cpu, &mut bus, Core::Arm9, 0x0D);
        assert_eq!(cpu.reg(0), expected, "sqrt({input})");
    }
}

#[test]
fn cpu_set_counts_units_not_bytes() {
    let mut cpu = cpu();
    let mut bus = FlatBus::new(0x200);
    for index in 0..4u32 {
        bus.write16(index * 2, 0x1000 + index as u16);
    }
    cpu.set_reg(0, 0);
    cpu.set_reg(1, 0x40);
    cpu.set_reg(2, 4);
    run(&mut cpu, &mut bus, Core::Arm9, 0x0B);

    for index in 0..4u32 {
        assert_eq!(bus.read16(0x40 + index * 2), 0x1000 + index as u16);
    }
    assert_eq!(bus.read16(0x48), 0, "and it stopped after four");
}

#[test]
fn the_word_and_fill_bits_change_what_a_unit_is_and_where_it_comes_from() {
    let mut cpu = cpu();
    let mut bus = FlatBus::new(0x200);
    bus.write32(0, 0xDEAD_BEEF);
    bus.write32(4, 0xCAFE_F00D);
    cpu.set_reg(0, 0);
    cpu.set_reg(1, 0x40);
    cpu.set_reg(2, 2 | (1 << 26));
    run(&mut cpu, &mut bus, Core::Arm9, 0x0B);
    assert_eq!(bus.read32(0x40), 0xDEAD_BEEF);
    assert_eq!(bus.read32(0x44), 0xCAFE_F00D);

    cpu.set_reg(2, 3 | (1 << 24) | (1 << 26));
    cpu.set_reg(1, 0x80);
    run(&mut cpu, &mut bus, Core::Arm9, 0x0B);
    for index in 0..3u32 {
        assert_eq!(
            bus.read32(0x80 + index * 4),
            0xDEAD_BEEF,
            "filled from one read"
        );
    }
}

#[test]
fn cpu_fast_set_is_word_only_whatever_the_control_bit_says() {
    let mut cpu = cpu();
    let mut bus = FlatBus::new(0x200);
    bus.write32(0, 0xAABB_CCDD);
    cpu.set_reg(0, 0);
    cpu.set_reg(1, 0x40);
    cpu.set_reg(2, 1);
    run(&mut cpu, &mut bus, Core::Arm7, 0x0C);
    assert_eq!(bus.read32(0x40), 0xAABB_CCDD);
}

#[test]
fn get_crc16_is_the_checksum_a_nds_header_carries() {
    let mut cpu = cpu();
    let mut bus = flat_with(0x200, b"123456789");
    cpu.set_reg(0, 0x0000);
    cpu.set_reg(1, 0x200);
    cpu.set_reg(2, 9);
    run(&mut cpu, &mut bus, Core::Arm9, 0x0E);
    assert_eq!(cpu.reg(0), 0xBB3D);

    cpu.set_reg(0, 0x0000);
    cpu.set_reg(1, 0x200);
    cpu.set_reg(2, 4);
    run(&mut cpu, &mut bus, Core::Arm9, 0x0E);
    cpu.set_reg(1, 0x204);
    cpu.set_reg(2, 5);
    run(&mut cpu, &mut bus, Core::Arm9, 0x0E);
    assert_eq!(cpu.reg(0), 0xBB3D);
}

#[test]
fn is_debugger_answers_retail() {
    let mut cpu = cpu();
    let mut bus = FlatBus::new(0x200);
    cpu.set_reg(0, 0xFFFF_FFFF);
    run(&mut cpu, &mut bus, Core::Arm9, 0x0F);
    assert_eq!(cpu.reg(0), 0);
}

#[test]
fn halt_asks_the_caller_to_stop_but_not_to_repeat() {
    let mut cpu = cpu();
    let mut bus = FlatBus::new(0x200);
    let effect = run(&mut cpu, &mut bus, Core::Arm9, 0x06);
    assert!(effect.halt);
    assert!(!effect.repeat, "Halt returns once an interrupt arrives");
    assert!(
        !run(&mut cpu, &mut bus, Core::Arm9, 0x09).halt,
        "but Div does not halt"
    );
}

#[test]
fn intr_wait_returns_at_once_when_the_flag_is_already_set_and_not_discarded() {
    let mut cpu = cpu();
    let mut bus = FlatBus::new(0x200);
    bus.write32(FLAGS, 1);
    cpu.set_reg(0, 0);
    cpu.set_reg(1, 1);
    let mut waiting = false;
    let effect = dispatch(
        &mut cpu,
        &mut bus,
        0x04,
        Context {
            core: Core::Arm9,
            flags: FLAGS,
            waiting: &mut waiting,
        },
    );
    assert!(!effect.halt);
    assert!(!effect.repeat);
    assert_eq!(
        bus.read32(FLAGS),
        0,
        "and the bit it consumed is acknowledged"
    );
    assert!(!waiting);
}

#[test]
fn intr_wait_discards_once_then_halts_until_the_handler_sets_the_flag() {
    let mut cpu = cpu();
    let mut bus = FlatBus::new(0x200);
    bus.write32(FLAGS, 1);
    let mut waiting = false;
    let call = |cpu: &mut RegisterFile, bus: &mut FlatBus, waiting: &mut bool| {
        dispatch(
            cpu,
            bus,
            0x05,
            Context {
                core: Core::Arm9,
                flags: FLAGS,
                waiting,
            },
        )
    };

    let first = call(&mut cpu, &mut bus, &mut waiting);
    assert!(
        first.halt && first.repeat,
        "the stale flag was discarded, so it waits"
    );
    assert_eq!(bus.read32(FLAGS), 0);
    assert!(waiting);

    let second = call(&mut cpu, &mut bus, &mut waiting);
    assert!(second.halt && second.repeat, "and it goes back to waiting");

    bus.write32(FLAGS, 1);
    let third = call(&mut cpu, &mut bus, &mut waiting);
    assert!(!third.halt && !third.repeat);
    assert_eq!(bus.read32(FLAGS), 0);
    assert!(!waiting, "and the next call starts a fresh wait");
}

#[test]
fn intr_wait_acknowledges_only_the_bits_it_was_asked_for() {
    let mut cpu = cpu();
    let mut bus = FlatBus::new(0x200);
    bus.write32(FLAGS, 0b1001);
    cpu.set_reg(0, 0);
    cpu.set_reg(1, 0b0001);
    let mut waiting = false;
    dispatch(
        &mut cpu,
        &mut bus,
        0x04,
        Context {
            core: Core::Arm7,
            flags: FLAGS,
            waiting: &mut waiting,
        },
    );
    assert_eq!(
        bus.read32(FLAGS),
        0b1000,
        "the source another wait is about to ask for is still there"
    );
}

#[test]
fn custom_halt_writes_haltcnt_rather_than_deciding_for_itself() {
    let mut cpu = cpu();
    let mut bus = FlatBus::new(0x0400_0400);
    cpu.set_reg(2, 0x80);
    run(&mut cpu, &mut bus, Core::Arm7, 0x1F);
    assert_eq!(bus.read8(0x0400_0301), 0x80);
}

#[test]
fn sound_bias_writes_the_register_it_names() {
    let mut cpu = cpu();
    let mut bus = FlatBus::new(0x0400_0600);
    cpu.set_reg(0, 1);
    run(&mut cpu, &mut bus, Core::Arm7, 0x08);
    assert_eq!(bus.read32(0x0400_0504), 0x200);
}

#[test]
fn an_unimplemented_call_changes_nothing_rather_than_guessing() {
    let mut cpu = cpu();
    let mut bus = FlatBus::new(0x200);
    for comment in [0x10, 0x20, 0x21, 0x22, 0x99] {
        cpu.set_reg(0, 0x1234);
        cpu.set_reg(1, 0x5678);
        let effect = run(&mut cpu, &mut bus, Core::Arm7, comment);
        assert_eq!(cpu.reg(0), 0x1234, "SWI {comment:#04X}");
        assert_eq!(cpu.reg(1), 0x5678, "SWI {comment:#04X}");
        assert_eq!(effect, BiosEffect::default(), "SWI {comment:#04X}");
    }
}

fn header(kind: u8, size: usize) -> [u8; 4] {
    ((kind as u32) | ((size as u32) << 8)).to_le_bytes()
}

#[test]
fn lz77_copies_literals_and_back_references() {
    let mut stream = Vec::new();
    stream.extend_from_slice(&header(0x10, 8));
    stream.push(0b0000_1000);
    stream.extend_from_slice(b"ABCD");
    stream.push(0x10);
    stream.push(0x03);

    let mut bus = flat_with(0x100, &stream);
    decompress(&mut bus, Core::Arm9, 0x11, 0x100, 0x800);
    assert_eq!(read_bytes(&mut bus, 0x800, 8), b"ABCDABCD".to_vec());
}

#[test]
fn an_lz77_run_may_overlap_what_it_is_still_writing() {
    let mut stream = Vec::new();
    stream.extend_from_slice(&header(0x10, 6));
    stream.push(0b0100_0000);
    stream.push(b'Z');
    stream.push(0x20);
    stream.push(0x00);
    let mut bus = flat_with(0x100, &stream);
    decompress(&mut bus, Core::Arm9, 0x11, 0x100, 0x800);
    assert_eq!(read_bytes(&mut bus, 0x800, 6), b"ZZZZZZ".to_vec());
}

#[test]
fn a_back_reference_past_the_start_stops_rather_than_panicking() {
    let mut stream = Vec::new();
    stream.extend_from_slice(&header(0x10, 16));
    stream.push(0b1000_0000);
    stream.push(0x10);
    stream.push(0x40);
    let mut bus = flat_with(0x100, &stream);
    decompress(&mut bus, Core::Arm9, 0x11, 0x100, 0x800);
    assert_eq!(read_bytes(&mut bus, 0x800, 4), vec![0, 0, 0, 0]);
}

#[test]
fn the_vram_variant_writes_halfwords_so_nothing_is_dropped() {
    let mut stream = Vec::new();
    stream.extend_from_slice(&header(0x10, 4));
    stream.push(0b0000_0000);
    stream.extend_from_slice(&[0x11, 0x22, 0x33, 0x44]);
    let mut bus = flat_with(0x100, &stream);
    decompress(&mut bus, Core::Arm9, 0x12, 0x100, 0x800);
    assert_eq!(bus.read16(0x800), 0x2211);
    assert_eq!(bus.read16(0x802), 0x4433);
}

#[test]
fn run_length_biases_its_two_forms_differently() {
    let mut stream = Vec::new();
    stream.extend_from_slice(&header(0x30, 7));
    stream.push(0x02);
    stream.extend_from_slice(b"abc");
    stream.push(0x80 | 0x01);
    stream.push(b'!');
    let mut bus = flat_with(0x100, &stream);
    decompress(&mut bus, Core::Arm7, 0x14, 0x100, 0x800);
    assert_eq!(read_bytes(&mut bus, 0x800, 7), b"abc!!!!".to_vec());
}

#[test]
fn the_difference_filters_accumulate_and_are_arm9_only() {
    let mut stream = Vec::new();
    stream.extend_from_slice(&header(0x81, 5));
    stream.extend_from_slice(&[10, 5, 250, 1, 0]);
    let mut bus = flat_with(0x100, &stream);
    decompress(&mut bus, Core::Arm9, 0x16, 0x100, 0x800);
    assert_eq!(read_bytes(&mut bus, 0x800, 5), vec![10, 15, 9, 10, 10]);

    let mut bus = flat_with(0x100, &stream);
    decompress(&mut bus, Core::Arm7, 0x16, 0x100, 0x900);
    assert_eq!(read_bytes(&mut bus, 0x900, 5), vec![0; 5]);
}

#[test]
fn the_sixteen_bit_difference_filter_accumulates_halfwords() {
    let mut stream = Vec::new();
    stream.extend_from_slice(&header(0x82, 6));
    for value in [0x1000u16, 0x0234, 0xFFFF] {
        stream.extend_from_slice(&value.to_le_bytes());
    }
    let mut bus = flat_with(0x100, &stream);
    decompress(&mut bus, Core::Arm9, 0x18, 0x100, 0x800);
    assert_eq!(bus.read16(0x800), 0x1000);
    assert_eq!(bus.read16(0x802), 0x1234);
    assert_eq!(bus.read16(0x804), 0x1233);
}

#[test]
fn a_header_claiming_an_absurd_size_is_refused_rather_than_allocated() {
    let mut stream = Vec::new();
    stream.extend_from_slice(&header(0x10, 0x00FF_FFFF));
    let mut bus = flat_with(0x100, &stream);
    decompress(&mut bus, Core::Arm9, 0x11, 0x100, 0x800);
    assert_eq!(read_bytes(&mut bus, 0x800, 4), vec![0, 0, 0, 0]);
}

#[test]
fn huffman_decodes_an_eight_bit_tree() {
    let mut stream = Vec::new();
    stream.extend_from_slice(&header(0x28, 4));
    stream.push(0x01);
    stream.push(0xC0);
    stream.push(b'A');
    stream.push(b'B');
    let bits: u32 = 0b0110_0000 << 24;
    stream.extend_from_slice(&bits.to_le_bytes());

    let mut bus = flat_with(0x100, &stream);
    decompress(&mut bus, Core::Arm9, 0x13, 0x100, 0x800);
    assert_eq!(read_bytes(&mut bus, 0x800, 4), b"ABBA".to_vec());
}

#[test]
fn a_huffman_stream_that_does_not_terminate_gives_up_rather_than_hanging() {
    let mut stream = Vec::new();
    stream.extend_from_slice(&header(0x28, 64));
    stream.push(0x01);
    stream.push(0x00);
    stream.extend_from_slice(&[0x00, 0x00, 0x00]);
    stream.extend_from_slice(&[0u8; 64]);
    let mut bus = flat_with(0x100, &stream);
    decompress(&mut bus, Core::Arm9, 0x13, 0x100, 0x800);
}

#[test]
fn every_decompression_call_number_maps_to_its_decoder() {
    for (comment, expected) in [
        (0x11, BiosCall::Lz77UnCompWram),
        (0x12, BiosCall::Lz77UnCompVram),
        (0x13, BiosCall::HuffUnComp),
        (0x14, BiosCall::RlUnCompWram),
        (0x15, BiosCall::RlUnCompVram),
        (0x16, BiosCall::Diff8bitUnFilterWram),
        (0x18, BiosCall::Diff16bitUnFilter),
    ] {
        assert_eq!(
            BiosCall::from_comment(Core::Arm9, comment),
            expected,
            "SWI {comment:#04X}"
        );
    }
}

#[test]
fn a_checksum_goes_on_where_it_stopped() {
    assert_eq!(crc16(0, b"123456789"), 0xBB3D);
    assert_eq!(crc16(crc16(0, b"1234"), b"56789"), 0xBB3D);
    assert_eq!(crc16(0xFFFF, b""), 0xFFFF);
}
