//! What a sprite shows, stated of its picture in video memory.

use vstd::arithmetic::power2::lemma2_to64;
use vstd::bits::lemma_low_bits_mask_values;
use vstd::prelude::*;
use super::objects::{object_of, Object};
use super::{dispcnt, Engine, Registers};
use crate::bits::{lemma_field_u16, lemma_field_u32, lemma_flag_u16, lemma_flag_u32, lemma_nibbles};
use crate::nds::vram::{Vram, VramSpace};

verus! {

/// The little-endian halfword at `at`.
pub open spec fn word_at(bytes: Seq<u8>, at: int) -> int {
    bytes[at] + 256 * bytes[at + 1]
}

/// The sides of a sprite, by shape and size: square, wide, tall.
pub open spec fn sides(shape: int, size: int) -> (int, int) {
    let square = if size == 0 { 8int } else if size == 1 { 16 } else if size == 2 { 32 } else { 64 };
    let long = if size == 0 { 16int } else if size == 1 { 32 } else if size == 2 { 32 } else { 64 };
    let short = if size == 0 { 8int } else if size == 1 { 8 } else if size == 2 { 16 } else { 32 };
    if shape == 0 {
        (square, square)
    } else if shape == 1 {
        (long, short)
    } else {
        (short, long)
    }
}

proof fn lemma_nine_bits(x: u16)
    ensures
        ((x & 0x1FF) as i32) << 23 >> 23 == (if x % 512 < 256 {
            (x % 512) as int
        } else {
            x % 512 - 512
        }),
{
    assert((x % 512 < 256 ==> ((x & 0x1FF) as i32) << 23 >> 23 == x % 512) && (x % 512 >= 256 ==> ((x
        & 0x1FF) as i32) << 23 >> 23 == x % 512 - 512)) by (bit_vector);
}

/// What an OAM entry spells, field by field: which entries draw at all, and where, how large, from
/// which tile, in which colours, how far in front and which way round the sprite is drawn.
#[verifier::rlimit(50)]
pub proof fn law_an_entry_spells_a_sprite(oam: Seq<u8>, base: int, index: int)
    requires
        0 <= base,
        0 <= index < 128,
        base + index * 8 + 8 <= oam.len(),
    ensures
        ({
            let a = word_at(oam, base + index * 8);
            let b = word_at(oam, base + index * 8 + 2);
            let c = word_at(oam, base + index * 8 + 4);
            let affine = a / 256 % 2 == 1;
            let double = a / 512 % 2 == 1;
            let shape = a / 0x4000;
            match object_of(oam, base, index) {
                None => (!affine && double) || shape == 3,
                Some(o) => {
                    let (width, height) = sides(shape, b / 0x4000);
                    &&& (affine || !double) && shape < 3
                    &&& o.x == (if b % 512 < 256 { b % 512 } else { b % 512 - 512 })
                    &&& o.y == a % 256
                    &&& o.width == width && o.height == height
                    &&& o.box_width == (if double { 2 * width } else { width })
                    &&& o.box_height == (if double { 2 * height } else { height })
                    &&& o.tile == c % 1024
                    &&& o.priority == c / 1024 % 4
                    &&& o.palette == c / 4096
                    &&& o.mode == a / 1024 % 4
                    &&& o.eight_bit == (a / 0x2000 % 2 == 1)
                    &&& o.flip_x == (!affine && b / 0x1000 % 2 == 1)
                    &&& o.flip_y == (!affine && b / 0x2000 % 2 == 1)
                    &&& o.affine == (if affine { Some((b / 512 % 32) as usize) } else { None })
                },
            }
        }),
{
    let a = super::half_or_zero(oam, base + index * 8);
    let b = super::half_or_zero(oam, base + index * 8 + 2);
    let c = super::half_or_zero(oam, base + index * 8 + 4);
    lemma2_to64();
    lemma_low_bits_mask_values();
    lemma_flag_u16(a, 0x100, 8);
    lemma_flag_u16(a, 0x200, 9);
    lemma_flag_u16(a, 0x2000, 13);
    lemma_flag_u16(b, 0x1000, 12);
    lemma_flag_u16(b, 0x2000, 13);
    lemma_field_u16(a, 14, 2);
    lemma_field_u16(b, 14, 2);
    lemma_field_u16(a, 0, 8);
    lemma_field_u16(a, 10, 2);
    lemma_field_u16(b, 9, 5);
    lemma_field_u16(c, 0, 10);
    lemma_field_u16(c, 10, 2);
    lemma_field_u16(c, 12, 2);
    lemma_nine_bits(b);
}

/// Where in its space the tile data of a sprite begins, and how far apart its rows of tiles are:
/// either one tile after another from a boundary on, or a window onto a sheet 32 tiles wide.
pub open spec fn tiles_from(r: Registers, o: Object) -> (int, int) {
    let tile_size = if o.eight_bit { 64int } else { 32 };
    if r.dispcnt / 16 % 2 == 1 {
        let field = r.dispcnt / 0x10_0000 % 4;
        let boundary = if field == 0 {
            32int
        } else if field == 1 {
            64
        } else if field == 2 {
            128
        } else {
            256
        };
        (o.tile * boundary, (o.width as int / 8) * tile_size)
    } else {
        (o.tile * 32, 1024)
    }
}

/// Video memory holds a sprite's picture: colour numbers, tile by tile, each tile row by row, one to
/// a byte or two with the left one low.
pub open spec fn holds_picture(
    r: Registers,
    o: Object,
    vram: Vram,
    picture: spec_fn(int, int) -> int,
) -> bool {
    forall|a: int, b: int|
        0 <= a < o.width && 0 <= b < o.height ==> #[trigger] picture(a, b) == shown_at(
            r,
            o,
            vram,
            a,
            b,
        )
}

/// The colour number in column `a` and row `b` of the tiles.
#[verifier::opaque]
pub open spec fn shown_at(r: Registers, o: Object, vram: Vram, a: int, b: int) -> int {
    let (start, stride) = tiles_from(r, o);
    let space = r.engine.obj_space();
    if o.eight_bit {
        vram.byte(space, (start + b / 8 * stride + a / 8 * 64 + b % 8 * 8 + a % 8) as u32) as int
    } else {
        let pair = vram.byte(
            space,
            (start + b / 8 * stride + a / 8 * 32 + b % 8 * 4 + a % 8 / 2) as u32,
        );
        if a % 2 == 0 { pair as int % 16 } else { pair as int / 16 }
    }
}

proof fn lemma_tile_offset(r: Registers, o: Object, a: int, b: int)
    requires
        o.in_range(),
        0 <= a < o.width,
        0 <= b < o.height,
    ensures
        ({
            let (start, stride) = tiles_from(r, o);
            r.tile_offset(o, a, b) == start + b / 8 * stride + a / 8 * (if o.eight_bit {
                64int
            } else {
                32
            })
        }),
{
    lemma2_to64();
    lemma_low_bits_mask_values();
    lemma_flag_u32(r.dispcnt, 0x10, 4);
    let d = r.dispcnt;
    let field = (d & dispcnt::OBJ_1D_BOUNDARY) >> 20;
    crate::bits::lemma_middle_fields(d);
    lemma_field_u32(d, 20, 2);
    vstd::bits::lemma_u32_shl_is_mul(32, field);
    let size = if o.eight_bit { 64int } else { 32 };
    let wide = o.width as int / 8;
    assert((b / 8 * wide + a / 8) * size == b / 8 * (wide * size) + a / 8 * size)
        by (nonlinear_arith);
}

/// The colour that a number stands for on a sprite: sixteen-colour tiles pick a row of the sprite palettes,
/// and 256-colour ones the palette as a whole or, where extended palettes are on, one of sixteen.
#[verifier::opaque]
pub open spec fn sprite_ink(r: Registers, o: Object, vram: Vram, palette: Seq<u8>, number: int) -> u16 {
    let from = (if r.engine == Engine::A { 0int } else { 0x400 }) + 0x200;
    if !o.eight_bit {
        word_at(palette, from + 2 * (16 * o.palette + number)) as u16
    } else if r.dispcnt < 0x8000_0000 {
        word_at(palette, from + 2 * number) as u16
    } else {
        vram.half(
            if r.engine == Engine::A { VramSpace::ObjExtPalA } else { VramSpace::ObjExtPalB },
            (2 * (256 * o.palette + number)) as u32,
        )
    }
}

/// A pixel of a sprite's picture: number zero is transparent, and the others pick a colour.
#[verifier::spinoff_prover]
#[verifier::rlimit(60)]
proof fn lemma_picture_color(
    r: Registers,
    o: Object,
    vram: Vram,
    palette: Seq<u8>,
    column: int,
    row: int,
)
    requires
        o.in_range(),
        o.mode != 3,
        palette.len() == 0x800,
        0 <= column < o.width,
        0 <= row < o.height,
    ensures
        ({
            let number = shown_at(r, o, vram, column, row);
            r.object_color(o, vram, palette, column, row) == (if number == 0 {
                None
            } else {
                Some(sprite_ink(r, o, vram, palette, number))
            })
        }),
{
    reveal(shown_at);
    reveal(sprite_ink);
    lemma_tile_offset(r, o, column, row);
    lemma2_to64();
    lemma_flag_u32(r.dispcnt, 0x8000_0000, 31);
    let (start, stride) = tiles_from(r, o);
    let pair = vram.byte(
        r.engine.obj_space(),
        (start + row / 8 * stride + column / 8 * 32 + row % 8 * 4 + column % 8 / 2) as u32,
    );
    lemma_nibbles(pair);
}

/// A plain sprite shows, at the screen point `i` columns and `j` rows into it, the pixel in column
/// `i` and row `j` of its picture; the flip bits count from the far side instead. Colour number zero
/// is transparent, and the others pick from the sprite palettes.
#[verifier::spinoff_prover]
#[verifier::rlimit(60)]
pub proof fn law_a_plain_sprite_shows_its_picture(
    r: Registers,
    o: Object,
    oam: Seq<u8>,
    vram: Vram,
    palette: Seq<u8>,
    picture: spec_fn(int, int) -> int,
    line: u32,
    i: int,
    j: int,
)
    requires
        o.in_range(),
        o.affine is None,
        o.mode != 3,
        palette.len() == 0x800,
        0 <= i < o.width,
        0 <= j < o.height,
        line < 192,
        line as int == (o.y + j) % 256,
        holds_picture(r, o, vram, picture),
    ensures
        ({
            let column = if o.flip_x { o.width - 1 - i } else { i };
            let row = if o.flip_y { o.height - 1 - j } else { j };
            let number = picture(column, row);
            r.object_at(o, line, o.x + i, vram, palette, oam) == (if number == 0 {
                None
            } else {
                Some(sprite_ink(r, o, vram, palette, number))
            })
        }),
{
    let column = if o.flip_x { o.width - 1 - i } else { i };
    let row = if o.flip_y { o.height - 1 - j } else { j };
    assert((line - o.y) % 256 == j);
    assert(picture(column, row) == shown_at(r, o, vram, column, row));
    lemma_picture_color(r, o, vram, palette, column, row);
    lemma_plain_point(r, o, oam, vram, palette, line, i, j);
}

/// The pixel of the picture that a plain sprite shows at a point of its box.
#[verifier::spinoff_prover]
#[verifier::rlimit(60)]
proof fn lemma_plain_point(
    r: Registers,
    o: Object,
    oam: Seq<u8>,
    vram: Vram,
    palette: Seq<u8>,
    line: u32,
    i: int,
    j: int,
)
    requires
        o.in_range(),
        o.affine is None,
        0 <= i < o.width,
        0 <= j < o.height,
        (line - o.y) % 256 == j,
    ensures
        r.object_at(o, line, o.x + i, vram, palette, oam) == r.object_color(
            o,
            vram,
            palette,
            if o.flip_x { o.width - 1 - i } else { i },
            if o.flip_y { o.height - 1 - j } else { j },
        ),
{
}

/// A bitmap sprite is a picture of halfwords, stored row by row, with the top bit for "there": on its own
/// from a boundary of 128 or 256 bytes on, or in a sheet 128 or 256 pixels wide, where the low five bits of
/// its number count eight pixels across and the rest sixteen rows down.
#[verifier::rlimit(60)]
pub proof fn law_bitmap_sprites_show_their_picture(
    r: Registers,
    o: Object,
    vram: Vram,
    palette: Seq<u8>,
    column: int,
    row: int,
)
    requires
        o.in_range(),
        o.mode == 3,
        o.tile < 1024,
    ensures
        ({
            let d = r.dispcnt as int;
            let sheet = if d / 32 % 2 == 1 { 256int } else { 128 };
            let boundary = if d / 0x40_0000 % 2 == 1 { 256int } else { 128 };
            let at = if d / 64 % 2 == 1 {
                boundary * o.tile + 2 * (row * o.width + column)
            } else {
                2 * (8 * (o.tile as int % 32) + 16 * (o.tile as int / 32) * sheet + row * sheet + column)
            };
            let value = vram.half(r.engine.obj_space(), at as u32);
            r.object_color(o, vram, palette, column, row) == (if value >= 0x8000 {
                Some((value % 0x8000) as u16)
            } else {
                None
            })
        }),
{
    lemma2_to64();
    lemma_low_bits_mask_values();
    let d = r.dispcnt;
    lemma_flag_u32(d, 0x20, 5);
    lemma_flag_u32(d, 0x40, 6);
    lemma_flag_u32(d, 0x40_0000, 22);
    let tile = o.tile;
    assert(tile < 1024 ==> tile & 0x1F == tile % 32 && tile & 0x3E0 == 32 * (tile / 32)) by (bit_vector);
    let value = vram.half(r.engine.obj_space(), r.bitmap_offset(o, column, row) as u32);
    lemma_flag_u16(value, 0x8000, 15);
    lemma_field_u16(value, 0, 15);
}

/// A sprite draws nothing outside its box: left or right of it, or on a line that is not one of its
/// rows.
pub proof fn law_a_sprite_keeps_to_its_box(
    r: Registers,
    o: Object,
    oam: Seq<u8>,
    vram: Vram,
    palette: Seq<u8>,
    line: u32,
    x: int,
)
    requires
        x < o.x || x >= o.x + o.box_width || (line - o.y) % 256 >= o.box_height,
    ensures
        r.object_at(o, line, x, vram, palette, oam) is None,
{
}

/// An affine sprite whose matrix is the identity shows what the plain one shows, in a box of its own
/// size.
pub proof fn law_the_identity_matrix_changes_nothing(
    r: Registers,
    o: Object,
    plain: Object,
    oam: Seq<u8>,
    vram: Vram,
    palette: Seq<u8>,
    line: u32,
    x: int,
)
    requires
        o.in_range(),
        o.affine is Some,
        o.box_width == o.width && o.box_height == o.height,
        plain == (Object { affine: None, flip_x: false, flip_y: false, ..o }),
        ({
            let base = r.engine.block_offset() as int + o.affine->0 * 32;
            &&& base + 32 <= oam.len()
            &&& word_at(oam, base + 6) == 256
            &&& word_at(oam, base + 14) == 0
            &&& word_at(oam, base + 22) == 0
            &&& word_at(oam, base + 30) == 256
        }),
    ensures
        r.object_at(o, line, x, vram, palette, oam) == r.object_at(
            plain,
            line,
            x,
            vram,
            palette,
            oam,
        ),
{
    let base = r.engine.block_offset() as int;
    let g = o.affine->0 as int;
    lemma_small_signed(256);
    lemma_small_signed(0);
    assert(super::objects::parameter(oam, base, g, 0) == 256);
    assert(super::objects::parameter(oam, base, g, 1) == 0);
    assert(super::objects::parameter(oam, base, g, 2) == 0);
    assert(super::objects::parameter(oam, base, g, 3) == 256);
    let row = (line - o.y) % 256;
    let dx = x - o.x;
    if 0 <= dx < o.box_width && row < o.box_height {
        let ox = dx - o.box_width as int / 2;
        let oy = row - o.box_height as int / 2;
        lemma_eight_bits((256 * ox) as i32, ox);
        lemma_eight_bits((256 * oy) as i32, oy);
        let pa = super::objects::parameter(oam, base, g, 0);
        let pb = super::objects::parameter(oam, base, g, 1);
        let pc = super::objects::parameter(oam, base, g, 2);
        let pd = super::objects::parameter(oam, base, g, 3);
        assert(pa * ox + pb * oy == 256 * ox && pc * ox + pd * oy == 256 * oy) by (nonlinear_arith)
            requires
                pa == 256,
                pb == 0,
                pc == 0,
                pd == 256,
        ;
        let (sx, sy) = super::objects::source_point(o, oam, base, dx, row);
        assert(sx == dx && sy == row);
        assert(r.tile_offset(o, sx, sy) == r.tile_offset(plain, sx, sy));
        assert(r.bitmap_offset(o, sx, sy) == r.bitmap_offset(plain, sx, sy));
        assert(r.object_color(o, vram, palette, sx, sy) == r.object_color(
            plain,
            vram,
            palette,
            sx,
            sy,
        ));
    }
}

/// Fixed point with eight fraction bits.
proof fn lemma_eight_bits(value: i32, whole: int)
    requires
        -128 <= whole <= 128,
        value == 256 * whole,
    ensures
        value >> 8 == whole,
{
    crate::bits::lemma_fraction_dropped(value);
}

/// A small halfword is the same signed.
proof fn lemma_small_signed(value: u16)
    requires
        value < 0x8000,
    ensures
        value as i16 == value,
{
}

/// A halfword of the sprite table as a signed number.
pub open spec fn signed_at(oam: Seq<u8>, at: int) -> int {
    let value = word_at(oam, at);
    if value < 0x8000 { value } else { value - 0x1_0000 }
}

/// A rotated sprite turns about the middle of its box: the point that lies so far from the middle shows
/// the pixel of the picture as far from its middle as the group's four parameters take it, in 256ths
/// rounded down; and nothing where that lies outside the picture.
#[verifier::spinoff_prover]
#[verifier::rlimit(60)]
pub proof fn law_rotated_sprites_turn_about_their_middle(
    r: Registers,
    o: Object,
    oam: Seq<u8>,
    vram: Vram,
    palette: Seq<u8>,
    line: u32,
    dx: int,
    row: int,
)
    requires
        o.in_range(),
        o.affine is Some,
        o.box_width <= 128,
        o.box_height <= 128,
        0 <= dx < o.box_width,
        0 <= row < o.box_height,
        line < 192,
        line as int == (o.y + row) % 256,
        r.engine.block_offset() + o.affine->0 * 32 + 32 <= oam.len(),
    ensures
        ({
            let at = (if r.engine == Engine::A { 0int } else { 0x400 }) + 32 * o.affine->0;
            let across = dx - o.box_width as int / 2;
            let down = row - o.box_height as int / 2;
            let sx = (signed_at(oam, at + 6) * across + signed_at(oam, at + 14) * down) / 256
                + o.width as int / 2;
            let sy = (signed_at(oam, at + 22) * across + signed_at(oam, at + 30) * down) / 256
                + o.height as int / 2;
            r.object_at(o, line, o.x + dx, vram, palette, oam) == (if 0 <= sx < o.width && 0 <= sy
                < o.height {
                r.object_color(o, vram, palette, sx, sy)
            } else {
                None
            })
        }),
{
    let base = r.engine.block_offset() as int;
    let g = o.affine->0 as int;
    assert((line - o.y) % 256 == row);
    lemma_parameter(oam, base, g, 0);
    lemma_parameter(oam, base, g, 1);
    lemma_parameter(oam, base, g, 2);
    lemma_parameter(oam, base, g, 3);
    let across = dx - o.box_width as int / 2;
    let down = row - o.box_height as int / 2;
    let pa = super::objects::parameter(oam, base, g, 0);
    let pb = super::objects::parameter(oam, base, g, 1);
    let pc = super::objects::parameter(oam, base, g, 2);
    let pd = super::objects::parameter(oam, base, g, 3);
    lemma_turned(pa as int, pb as int, across, down);
    lemma_turned(pc as int, pd as int, across, down);
    crate::bits::lemma_fraction_dropped((pa * across + pb * down) as i32);
    crate::bits::lemma_fraction_dropped((pc * across + pd * down) as i32);
}

proof fn lemma_parameter(oam: Seq<u8>, base: int, group: int, i: int)
    requires
        0 <= base,
        0 <= group,
        0 <= i < 4,
        base + group * 32 + 32 <= oam.len(),
    ensures
        super::objects::parameter(oam, base, group, i) == signed_at(oam, base + 32 * group + 8 * i + 6),
{
    let at = base + group * 32 + i * 8 + 6;
    crate::bits::lemma_signed((oam[at] + 256 * oam[at + 1]) as u16, 0, 0, 0);
}

proof fn lemma_turned(a: int, b: int, across: int, down: int)
    requires
        -0x8000 <= a <= 0x7FFF,
        -0x8000 <= b <= 0x7FFF,
        -64 <= across <= 64,
        -64 <= down <= 64,
    ensures
        -0x40_0000 <= a * across + b * down <= 0x40_0000,
{
    assert(-0x20_0000 <= a * across <= 0x20_0000 && -0x20_0000 <= b * down <= 0x20_0000)
        by (nonlinear_arith)
        requires
            -0x8000 <= a <= 0x7FFF,
            -0x8000 <= b <= 0x7FFF,
            -64 <= across <= 64,
            -64 <= down <= 64,
    ;
}

} // verus!
