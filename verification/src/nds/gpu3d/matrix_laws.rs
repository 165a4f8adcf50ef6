//! What the matrix commands and the command ports are for.

use vstd::arithmetic::power2::lemma2_to64;
use vstd::bits::lemma_low_bits_mask_values;
use vstd::prelude::*;
use super::geometry::{parameters_of, words, GeometryState};
use super::matrix::{self, image, product, transformed, MatrixMode, MatrixState};
use super::{arity, unpacked, Gpu3dState};
use crate::arith::lemma_fixed;
use crate::bits::lemma_field_u32;

verus! {

/// A matrix maps a point to the sum of its columns, each times one coordinate, in twelve fraction bits
/// rounded down.
pub proof fn law_a_matrix_sums_its_columns(m: Seq<i32>, x: i32, y: i32, z: i32, w: i32, row: int)
    requires
        m.len() == 16,
        0 <= row < 4,
        -0x800_0000_0000 <= m[row] * x + m[4 + row] * y + m[8 + row] * z + m[12 + row] * w
            < 0x800_0000_0000,
    ensures
        transformed(m, x, y, z, w)[row] == (m[row] * x + m[4 + row] * y + m[8 + row] * z + m[12 + row]
            * w) / 0x1000,
{
    let sum = m[row] * x + m[4 + row] * y + m[8 + row] * z + m[12 + row] * w;
    lemma_fixed(sum);
    assert(image(m, x, y, z, w, row) == crate::arith::fixed(sum));
}

/// A product applies its right factor first: its columns are what the left factor maps the right one's
/// columns to.
pub proof fn law_a_product_applies_its_right_factor_first(a: Seq<i32>, b: Seq<i32>, column: int, row: int)
    requires
        a.len() == 16,
        b.len() == 16,
        0 <= column < 4,
        0 <= row < 4,
    ensures
        product(a, b)[4 * column + row] == transformed(
            a,
            b[4 * column],
            b[4 * column + 1],
            b[4 * column + 2],
            b[4 * column + 3],
        )[row],
{
    let i = 4 * column + row;
    assert(i % 4 == row && i / 4 == column);
    let (x, y, z, w) = (
        b[4 * column],
        b[4 * column + 1],
        b[4 * column + 2],
        b[4 * column + 3],
    );
    assert(product(a, b)[i] == image(a, x, y, z, w, row));
}

/// A load takes its values column by column: all sixteen, or the upper three of each column, or three by
/// three; what is not loaded is as in the identity.
pub proof fn law_loads_go_column_by_column(values: Seq<i32>, column: int, row: int)
    requires
        0 <= column < 4,
        0 <= row < 4,
    ensures
        ({
            let at = 4 * column + row;
            let plain = if column == row { 0x1000int } else { 0 };
            &&& values.len() == 16 ==> matrix::filled_4x4(values)[at] == values[at]
            &&& values.len() == 12 && row < 3 ==> matrix::filled_4x3(values)[at] == values[3 * column + row]
            &&& row == 3 ==> matrix::filled_4x3(values)[at] == plain
            &&& values.len() == 9 && row < 3 && column < 3 ==> matrix::filled_3x3(values)[at] == values[3
                * column + row]
            &&& row == 3 || column == 3 ==> matrix::filled_3x3(values)[at] == plain
            &&& matrix::identity()[at] == plain
        }),
{
    let at = 4 * column + row;
    assert(at % 4 == row && at / 4 == column);
    assert((at % 5 == 0) == (column == row));
}

/// The low two bits of a mode: projection, position, both of position and direction, texture.
pub proof fn law_modes_go_by_number(s: MatrixState, bits: u32)
    ensures
        bits % 4 == 0 ==> s.moded(bits).mode == MatrixMode::Projection,
        bits % 4 == 1 ==> s.moded(bits).mode == MatrixMode::Position,
        bits % 4 == 2 ==> s.moded(bits).mode == MatrixMode::PositionAndDirection,
        bits % 4 == 3 ==> s.moded(bits).mode == MatrixMode::Texture,
{
    lemma2_to64();
    lemma_low_bits_mask_values();
    lemma_field_u32(bits, 0, 2);
}

/// Which matrices a mode acts on.
pub open spec fn acts_on(s: MatrixState, which: int) -> bool {
    match s.mode {
        MatrixMode::Projection => which == 0,
        MatrixMode::Position => which == 1,
        MatrixMode::PositionAndDirection => which == 1 || which == 2,
        MatrixMode::Texture => which == 3,
    }
}

/// The four matrices by number: projection, position, direction, texture.
pub open spec fn matrix_of(s: MatrixState, which: int) -> Seq<i32> {
    if which == 0 {
        s.projection
    } else if which == 1 {
        s.position
    } else if which == 2 {
        s.direction
    } else {
        s.texture
    }
}

/// A load replaces the matrices that the mode acts on, and a multiplication puts its factor on their
/// right, so that a point meets it first; the others stay. A scale leaves directions alone.
pub proof fn law_commands_act_by_mode(s: MatrixState, m: Seq<i32>, which: int, x: i32, y: i32, z: i32)
    requires
        0 <= which < 4,
    ensures
        acts_on(s, which) ==> matrix_of(s.loaded(m), which) == m,
        acts_on(s, which) ==> matrix_of(s.multiplied(m), which) == product(matrix_of(s, which), m),
        acts_on(s, which) && which != 2 ==> matrix_of(s.scaled(x, y, z), which) == product(
            matrix_of(s, which),
            matrix::scaling(x, y, z),
        ),
        !acts_on(s, which) ==> matrix_of(s.loaded(m), which) == matrix_of(s, which),
        !acts_on(s, which) ==> matrix_of(s.multiplied(m), which) == matrix_of(s, which),
        !acts_on(s, which) || which == 2 ==> matrix_of(s.scaled(x, y, z), which) == matrix_of(s, which),
{
}

/// A vertex meets the position matrix first and then the projection: the clip matrix's columns are what
/// the projection maps the position matrix's columns to.
pub proof fn law_the_clip_matrix_projects_positions(s: MatrixState, column: int, row: int)
    requires
        s.projection.len() == 16,
        s.position.len() == 16,
        0 <= column < 4,
        0 <= row < 4,
    ensures
        s.clip()[4 * column + row] == transformed(
            s.projection,
            s.position[4 * column],
            s.position[4 * column + 1],
            s.position[4 * column + 2],
            s.position[4 * column + 3],
        )[row],
{
    law_a_product_applies_its_right_factor_first(s.projection, s.position, column, row);
}

/// The slots of the position and direction stacks are apart: a store into one is recalled from it, and
/// leaves the others as they were.
pub proof fn law_slots_are_apart(s: MatrixState, slot: u32, other: u32)
    requires
        s.mode == MatrixMode::Position || s.mode == MatrixMode::PositionAndDirection,
        s.position_stack.len() == 32,
        s.direction_stack.len() == 32,
    ensures
        slot % 32 == other % 32 ==> s.stored(slot).recalled(other).position == s.position,
        slot % 32 == other % 32 ==> s.stored(slot).recalled(other).direction == s.direction,
        slot % 32 != other % 32 ==> s.stored(slot).recalled(other).position == s.recalled(other).position,
        slot % 32 != other % 32 ==> s.stored(slot).recalled(other).direction == s.recalled(
            other,
        ).direction,
        s.stored(slot).pointer == s.pointer,
{
    lemma2_to64();
    lemma_low_bits_mask_values();
    lemma_field_u32(slot, 0, 5);
    lemma_field_u32(other, 0, 5);
}

/// The matrix commands by number.
pub proof fn law_matrix_commands(s: GeometryState, params: Seq<u32>)
    requires
        params.len() >= 3,
    ensures
        ({
            let m = s.matrices;
            let values = words(params);
            let (x, y, z) = (params[0] as i32, params[1] as i32, params[2] as i32);
            &&& s.executed(0x10, params).matrices == m.moded(params[0])
            &&& s.executed(0x11, params).matrices == m.pushed()
            &&& s.executed(0x13, params).matrices == m.stored(params[0])
            &&& s.executed(0x14, params).matrices == m.recalled(params[0])
            &&& s.executed(0x15, params).matrices == m.loaded(matrix::identity())
            &&& s.executed(0x16, params).matrices == m.loaded(matrix::filled_4x4(values))
            &&& s.executed(0x17, params).matrices == m.loaded(matrix::filled_4x3(values))
            &&& s.executed(0x18, params).matrices == m.multiplied(matrix::filled_4x4(values))
            &&& s.executed(0x19, params).matrices == m.multiplied(matrix::filled_4x3(values))
            &&& s.executed(0x1A, params).matrices == m.multiplied(matrix::filled_3x3(values))
            &&& s.executed(0x1B, params).matrices == m.scaled(x, y, z)
            &&& s.executed(0x1C, params).matrices == m.multiplied(matrix::translation(x, y, z))
        }),
{
    reveal(GeometryState::executed);
}

/// How many words each command takes: a matrix load or multiplication as many as it has values, a scale
/// or a translation three, and so on.
pub proof fn law_commands_take_their_words(opcode: u8)
    ensures
        ({
            let n = parameters_of(opcode);
            &&& opcode == 0x16 || opcode == 0x18 ==> n == Some(16u8)
            &&& opcode == 0x17 || opcode == 0x19 ==> n == Some(12u8)
            &&& opcode == 0x1A ==> n == Some(9u8)
            &&& opcode == 0x1B || opcode == 0x1C || opcode == 0x70 ==> n == Some(3u8)
            &&& opcode == 0x23 || opcode == 0x71 ==> n == Some(2u8)
            &&& opcode == 0x34 ==> n == Some(32u8)
            &&& opcode == 0x00 || opcode == 0x11 || opcode == 0x15 || opcode == 0x41 ==> n == Some(0u8)
            &&& opcode == 0x10 || 0x12 <= opcode <= 0x14 || 0x20 <= opcode <= 0x22 || 0x24 <= opcode <= 0x2B
                || 0x30 <= opcode <= 0x33 || opcode == 0x40 || opcode == 0x50 || opcode == 0x60 || opcode
                == 0x72 ==> n == Some(1u8)
            &&& 0x01 <= opcode < 0x10 || 0x1D <= opcode < 0x20 || 0x2C <= opcode < 0x30 || 0x35 <= opcode
                < 0x40 || 0x42 <= opcode < 0x50 || 0x51 <= opcode < 0x60 || 0x61 <= opcode < 0x70 || opcode
                >= 0x73 ==> n is None
        }),
{
}

/// A packed word holds four opcodes, the lowest byte first.
pub proof fn law_opcodes_come_lowest_first(value: u32)
    ensures
        unpacked(value).len() == 4,
        value == unpacked(value)[0] + 0x100 * unpacked(value)[1] + 0x1_0000 * unpacked(value)[2]
            + 0x100_0000 * unpacked(value)[3],
{
    assert(value == (value as u8) as u32 + 0x100 * ((value >> 8) as u8) as u32 + 0x1_0000 * ((value >> 16)
        as u8) as u32 + 0x100_0000 * ((value >> 24) as u8) as u32) by (bit_vector);
}

/// A command's own port is the word at `0x0400_0400` plus four times its number; each write there is the
/// next parameter, and the last one runs the command with all of them in order.
pub proof fn law_each_command_has_a_port(s: Gpu3dState, opcode: u8, so_far: Seq<u32>, value: u32)
    requires
        0x10 <= opcode < 0x74,
        arity(opcode) >= 1,
        so_far.len() < arity(opcode),
        so_far.len() == 0 ==> s.port is None,
        so_far.len() > 0 ==> s.port == Some((opcode, so_far)),
    ensures
        ({
            let after = s.written((0x0400_0400 + 4 * opcode) as u32, value);
            &&& so_far.len() + 1 < arity(opcode) ==> after.port == Some((opcode, so_far.push(value)))
                && after.geometry == s.geometry
            &&& so_far.len() + 1 == arity(opcode) ==> after.port is None && after.geometry
                == s.geometry.executed(opcode, so_far.push(value))
        }),
{
    reveal(Gpu3dState::ported);
    if so_far.len() == 0 {
        assert(so_far =~= Seq::empty());
    }
}

/// `GXSTAT` from bit 8 up holds the stack pointer, in bit 15 whether anything overflowed, in bits 25 and
/// 26 that the queue is short and empty, and in the top two the interrupt mode that was written.
pub proof fn law_the_status_word(s: Gpu3dState, value: u32)
    requires
        0 <= s.geometry.matrices.pointer < 32,
    ensures
        ({
            let after = s.written(0x0400_0600, value);
            let status = after.gxstat() as int;
            &&& status / 0x100 % 32 == s.geometry.matrices.pointer
            &&& (status / 0x8000 % 2 == 1) == (s.geometry.matrices.overflow || s.geometry.overflow)
            &&& status / 0x200_0000 % 4 == 3
            &&& status / 0x4000_0000 == value / 0x4000_0000
            &&& after.word(0x0400_0600) == Some(after.gxstat())
        }),
{
    let after = s.written(0x0400_0600, value);
    let p = s.geometry.matrices.pointer as u32;
    let e = if s.geometry.matrices.overflow || s.geometry.overflow { 1u32 << 15 } else { 0u32 };
    let top = (value >> 30) as u8;
    let one: bool = s.geometry.matrices.overflow || s.geometry.overflow;
    let word = ((p & 0x1F) << 8) | e | (1u32 << 25) | (1u32 << 26) | ((top as u32) << 30);
    assert(word == after.gxstat());
    assert(p < 32 && top == (value >> 30) as u8 && e == (if one { 1u32 << 15 } else { 0u32 }) && word == ((p
        & 0x1F) << 8) | e | (1u32 << 25) | (1u32 << 26) | ((top as u32) << 30) ==> word / 0x100 % 32 == p
        && (word / 0x8000 % 2 == 1) == one && word / 0x200_0000 % 4 == 3 && word / 0x4000_0000 == value
        / 0x4000_0000) by (bit_vector);
}

/// The plain registers keep what is written to them, and the tables take two entries from a word.
pub proof fn law_registers_keep_what_is_written(s: Gpu3dState, value: u32, index: int)
    requires
        s.toon.len() == 32,
        s.edge_color.len() == 8,
        0 <= index < 16,
    ensures
        s.written(0x0400_0350, value).clear_color == value,
        s.written(0x0400_0354, value).clear_depth == value % 0x8000,
        s.written(0x0400_0358, value).fog_color == value,
        s.written((0x0400_0380 + 4 * index) as u32, value).toon == s.toon.update(
            2 * index,
            value as u16,
        ).update(2 * index + 1, (value >> 16) as u16),
        index < 4 ==> s.written((0x0400_0330 + 4 * index) as u32, value).edge_color == s.edge_color.update(
            2 * index,
            value as u16,
        ).update(2 * index + 1, (value >> 16) as u16),
{
    lemma2_to64();
    lemma_low_bits_mask_values();
    lemma_field_u32(value, 0, 15);
    assert((0x0400_0380 + 4 * index - 0x0400_0380) / 2 == 2 * index);
    assert((0x0400_0330 + 4 * index - 0x0400_0330) / 2 == 2 * index);
}

} // verus!
