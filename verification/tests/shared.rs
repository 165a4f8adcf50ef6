//! What the consoles share: arithmetic, text, colours and save states.

use handheld::arith::{clamp, clamp_wide, divide, modulo, square_root, word_product};
use handheld::bits::{align2, align4, byte_at, half_at, with_byte, with_half};
use handheld::color::{bgr555_to_rgba, channel_of, join, Rgba8};
use handheld::fault::{Counted, Fault};
use handheld::state::{StateError, StateReader, StateWriter};
use handheld::text::{push_digits, push_number, push_truth, trim_padding};

#[test]
fn division_truncates_and_the_modulus_does_not() {
    assert_eq!(divide(-7, 2), -3);
    assert_eq!(divide(7, -2), -3);
    assert_eq!(modulo(-1, 5), 4);
    assert_eq!(word_product(i32::MIN, i32::MIN), 1i128 << 62);
}

#[test]
fn a_clamp_keeps_what_is_inside() {
    assert_eq!(clamp(5, 0, 3), 3);
    assert_eq!(clamp(-5, 0, 3), 0);
    assert_eq!(clamp(2, 0, 3), 2);
    assert_eq!(clamp_wide(i128::MAX, -4, 4), 4);
}

#[test]
fn a_root_is_exact_at_the_squares() {
    for n in [0u64, 1, 2, 15, 16, 17, 0xFFFF_FFFE_0000_0001, u64::MAX] {
        let r = square_root(n) as u128;
        assert!(r * r <= n as u128 && (n as u128) < (r + 1) * (r + 1), "{n}");
    }
}

#[test]
fn the_parts_of_a_word_can_be_read_and_replaced() {
    assert_eq!(align4(0x1007), 0x1004);
    assert_eq!(align2(0x1007), 0x1006);
    assert_eq!(half_at(0x1234_5678, 2), 0x1234);
    assert_eq!(with_half(0x1234_5678, 0, 0xABCD), 0x1234_ABCD);
    assert_eq!(byte_at(0x1234_5678, 1), 0x56);
    assert_eq!(with_byte(0x1234_5678, 3, 0xAB), 0xAB34_5678);
}

#[test]
fn a_colour_comes_apart_and_together() {
    assert_eq!(join(1, 2, 3), 1 | (2 << 5) | (3 << 10));
    assert_eq!(channel_of(0x7C00, 10), 31);
    assert_eq!(bgr555_to_rgba(0x7FFF), Rgba8::rgb(255, 255, 255));
}

#[test]
fn numbers_are_written_in_any_base() {
    let mut out = String::new();
    push_number(&mut out, 1234, 10);
    out.push(' ');
    push_digits(&mut out, 0xBEEF, 16, 8);
    out.push(' ');
    push_digits(&mut out, 5, 2, 4);
    out.push(' ');
    push_truth(&mut out, true);
    assert_eq!(out, "1234 0000BEEF 0101 true");
    assert_eq!(trim_padding("AB C \0 \0"), "AB C");
    assert_eq!(trim_padding("\0\0"), "");
}

#[test]
fn every_field_comes_back_in_order() {
    let mut w = StateWriter::new();
    w.write_u8(1);
    w.write_bool(true);
    w.write_u16(0x0203);
    w.write_i16(-2);
    w.write_u32(0x0405_0607);
    w.write_i32(-3);
    w.write_u64(0x08);
    w.write_bytes(&[9, 10]);
    let bytes = w.into_bytes();
    assert_eq!(bytes.len(), 1 + 1 + 2 + 2 + 4 + 4 + 8 + 2);
    let mut r = StateReader::new(bytes);
    assert_eq!(r.u8_or(0), 1);
    assert!(r.bool_or(false));
    assert_eq!(r.u16_or(0), 0x0203);
    assert_eq!(r.i16_or(0), -2);
    assert_eq!(r.u32_or(0), 0x0405_0607);
    assert_eq!(r.i32_or(0), -3);
    assert_eq!(r.u64_or(0), 8);
    let mut tail = [0u8; 2];
    r.read_bytes(&mut tail);
    assert_eq!(tail, [9, 10]);
    assert_eq!(r.status(), Ok(()));
    assert_eq!(r.u8_or(77), 77, "past the end, what was there stays");
    assert_eq!(r.status(), Err(StateError::UnexpectedEnd));
}

#[test]
fn a_flag_is_saved_as_one_or_zero() {
    let mut w = StateWriter::new();
    w.write_bool(true);
    w.write_bool(false);
    assert_eq!(w.into_bytes(), vec![1, 0]);
}

#[test]
fn a_fault_says_what_was_wrong() {
    let too_many = |what, count| Fault::TooMany(what, count).message();
    assert_eq!(Fault::HdmaMode(3).message(), "bad HDMA mode 3");
    assert_eq!(Fault::RingIndices.message(), "IPC FIFO ring indices are out of range");
    assert_eq!(
        too_many(Counted::CardWords, 1025),
        "card transfer of 1025 words is larger than any block"
    );
    assert_eq!(
        too_many(Counted::QueuedOpcodes, 1025),
        "the geometry FIFO claims 1025 queued opcodes"
    );
    assert_eq!(
        too_many(Counted::QueuedParameters, u64::MAX),
        "the geometry FIFO claims 18446744073709551615 queued parameters"
    );
    assert_eq!(
        too_many(Counted::PortParameters, 33),
        "a port command claims 33 parameters, more than any command takes"
    );
    assert_eq!(
        too_many(Counted::PolygonVertices, 6145),
        "a polygon claims 6145 vertices; the whole list holds at most 6144"
    );
    assert_eq!(
        too_many(Counted::ListVertices, 6145),
        "a display list claims 6145 vertices; hardware allows at most 6144"
    );
    assert_eq!(
        too_many(Counted::ListPolygons, 2049),
        "a display list claims 2049 polygons; hardware allows at most 2048"
    );
}
