//! The divider and the square-root unit.

use handheld::nds::math::{reg, MathUnits};
use handheld::state::{StateError, StateReader, StateWriter};

fn wide(units: &MathUnits, addr: u32) -> u64 {
    units.read32(addr) as u64 | ((units.read32(addr + 4) as u64) << 32)
}

fn divide(mode: u32, numerator: i64, denominator: i64) -> MathUnits {
    let mut units = MathUnits::new();
    units.write32(reg::DIVCNT, mode);
    units.write32(reg::DIV_NUMERATOR, numerator as u32);
    units.write32(reg::DIV_NUMERATOR + 4, (numerator >> 32) as u32);
    units.write32(reg::DIV_DENOMINATOR, denominator as u32);
    units.write32(reg::DIV_DENOMINATOR + 4, (denominator >> 32) as u32);
    units
}

#[test]
fn a_division_truncates_toward_zero() {
    let units = divide(0, -7, 2);
    assert_eq!(wide(&units, reg::DIV_RESULT) as i64, -3);
    assert_eq!(wide(&units, reg::DIV_REMAINDER) as i64, -1);
    let units = divide(2, 0x1_0000_0000_0000, 0x1_0000_0001);
    assert_eq!(wide(&units, reg::DIV_RESULT), 0xFFFF);
    assert_eq!(wide(&units, reg::DIV_REMAINDER), 0x1_0000_0000_0000 - 0xFFFF * 0x1_0000_0001);
}

#[test]
fn dividing_by_zero_sets_the_flag_and_keeps_the_numerator() {
    let units = divide(1, 5, 0);
    assert_eq!(units.read32(reg::DIVCNT) & 0x4000, 0x4000);
    assert_eq!(wide(&units, reg::DIV_RESULT), u64::MAX);
    assert_eq!(wide(&units, reg::DIV_REMAINDER), 5);
    let units = divide(0, 5, 0);
    assert_eq!(wide(&units, reg::DIV_RESULT), 0xFFFF_FFFF, "the high word comes back inverted");
    let units = divide(0, -5, 0);
    assert_eq!(wide(&units, reg::DIV_RESULT), 0xFFFF_FFFF_0000_0001);
}

#[test]
fn the_division_without_an_answer_gives_the_numerator_back() {
    let units = divide(2, i64::MIN, -1);
    assert_eq!(wide(&units, reg::DIV_RESULT) as i64, i64::MIN);
    assert_eq!(wide(&units, reg::DIV_REMAINDER), 0);
}

#[test]
fn the_root_is_the_whole_part_and_takes_either_width() {
    let mut units = MathUnits::new();
    units.write32(reg::SQRT_PARAM, 99);
    assert_eq!(units.read32(reg::SQRT_RESULT), 9);
    units.write32(reg::SQRT_PARAM + 4, 1);
    assert_eq!(units.read32(reg::SQRT_RESULT), 9, "the high word is not looked at");
    units.write32(reg::SQRTCNT, 1);
    assert_eq!(units.read32(reg::SQRT_RESULT), 0x1_0000);
    units.write32(reg::SQRT_PARAM, u32::MAX);
    units.write32(reg::SQRT_PARAM + 4, u32::MAX);
    assert_eq!(units.read32(reg::SQRT_RESULT), u32::MAX);
}

#[test]
fn the_units_are_never_busy_and_results_cannot_be_written() {
    let mut units = divide(0, 100, 7);
    assert_eq!(units.read32(reg::DIVCNT) & 0x8000, 0);
    units.write32(reg::DIV_RESULT, 99);
    assert_eq!(units.read32(reg::DIV_RESULT), 14);
    assert!(MathUnits::owns(reg::DIVCNT) && !MathUnits::owns(reg::END));
}

#[test]
fn narrow_accesses_reach_the_operands() {
    let mut units = MathUnits::new();
    units.write16(reg::SQRT_PARAM, 0x0100);
    units.write8(reg::SQRT_PARAM + 2, 0x01);
    assert_eq!(units.read32(reg::SQRT_PARAM), 0x0001_0100);
    assert_eq!(units.read16(reg::SQRT_RESULT), 256);
    assert_eq!(units.read8(reg::SQRT_RESULT + 1), 1);
}

#[test]
fn the_units_round_trip_through_a_save_state() {
    let units = divide(2, -1_000_000_000_000, 7);
    let mut w = StateWriter::new();
    units.save(&mut w);
    let bytes = w.into_bytes();
    let mut restored = MathUnits::new();
    restored.load(&mut StateReader::new(bytes.clone())).unwrap();
    assert_eq!(restored, units);
    assert_eq!(
        restored.load(&mut StateReader::new(bytes[..47].to_vec())),
        Err(StateError::UnexpectedEnd)
    );
}

#[test]
fn a_remainder_takes_the_sign_of_the_numerator() {
    for (n, d, r) in [(7i64, 2i64, 1i64), (7, -2, 1), (-7, 2, -1), (-7, -2, -1), (-6, 2, 0)] {
        let units = divide(2, n, d);
        assert_eq!(wide(&units, reg::DIV_REMAINDER) as i64, r, "{n} / {d}");
    }
}
