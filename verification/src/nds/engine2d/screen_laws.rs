//! What backgrounds, windows, blending and brightness do to a pixel, stated of maps, tiles and
//! channels.

use vstd::arithmetic::power2::lemma2_to64;
use vstd::bits::lemma_low_bits_mask_values;
use vstd::prelude::*;
use super::object_laws::word_at;
use super::{
    alpha_blended, blended_channel, brightened, brightened_channel, dispcnt, layer_of, next_visible,
    shows, weight, Engine, LinePixel, Registers,
};
use crate::bits::{
    lemma_bit_u16, lemma_field_u16, lemma_field_u32, lemma_flag_u16, lemma_flag_u32,
    lemma_fraction_dropped, lemma_middle_fields, lemma_nibbles,
};
use crate::color::{channel, joined, law_channels_are_digits, law_joined_channels_come_apart};
use crate::nds::vram::{Vram, VramSpace};

verus! {

/// The offset of this engine's palettes and sprites.
pub open spec fn block_of(engine: Engine) -> int {
    if engine == Engine::A { 0 } else { 0x400 }
}

/// The video memory that this engine's backgrounds lie in.
pub open spec fn background_space(engine: Engine) -> VramSpace {
    if engine == Engine::A { VramSpace::BgA } else { VramSpace::BgB }
}

/// Where a layer's tiles begin, and where its map does: in units of 16 and 2 KiB, and for engine A in
/// 64 KiB further on for each step of the display control's own fields.
pub open spec fn tiles_at(r: Registers, layer: int) -> int {
    r.bgcnt[layer] / 4 % 16 * 0x4000 + (if r.engine == Engine::A {
        r.dispcnt / 0x100_0000 % 8 * 0x1_0000
    } else {
        0
    })
}

pub open spec fn map_at(r: Registers, layer: int) -> int {
    r.bgcnt[layer] / 256 % 32 * 0x800 + (if r.engine == Engine::A {
        r.dispcnt / 0x800_0000 % 8 * 0x1_0000
    } else {
        0
    })
}

pub(crate) proof fn lemma_bases(r: Registers, layer: int)
    requires
        0 <= layer < 4,
    ensures
        r.char_base(layer) == tiles_at(r, layer),
        r.screen_base(layer) == map_at(r, layer),
        0 <= tiles_at(r, layer) <= 0xB_0000,
        0 <= map_at(r, layer) <= 0xB_0000,
{
    lemma2_to64();
    lemma_low_bits_mask_values();
    lemma_middle_fields(r.dispcnt);
    lemma_field_u16(r.bgcnt[layer], 2, 4);
    lemma_field_u16(r.bgcnt[layer], 8, 5);
    lemma_field_u32(r.dispcnt, 24, 3);
    lemma_field_u32(r.dispcnt, 27, 3);
}

/// The colour number in column `a` and row `b` of a tile: tiles are stored row by row, a byte to a
/// pixel or two pixels to a byte with the left one low.
pub open spec fn tile_pixel(
    vram: Vram,
    space: VramSpace,
    tiles: int,
    eight_bit: bool,
    tile: int,
    a: int,
    b: int,
) -> int {
    if eight_bit {
        vram.byte(space, (tiles + 64 * tile + 8 * b + a) as u32) as int
    } else {
        let pair = vram.byte(space, (tiles + 32 * tile + 4 * b + a / 2) as u32) as int;
        if a % 2 == 0 { pair % 16 } else { pair / 16 }
    }
}

/// The colour that a number stands for on a background: sixteen-colour tiles pick a row of the
/// palette, and 256-colour ones the palette as a whole or, where extended palettes are on, one of
/// sixteen in the layer's slot.
pub open spec fn background_ink(
    r: Registers,
    layer: int,
    vram: Vram,
    palette: Seq<u8>,
    eight_bit: bool,
    bank: int,
    number: int,
) -> u16 {
    if !eight_bit {
        word_at(palette, block_of(r.engine) + 2 * (16 * bank + number)) as u16
    } else if r.dispcnt / 0x4000_0000 % 2 == 0 {
        word_at(palette, block_of(r.engine) + 2 * number) as u16
    } else {
        let slot = if layer <= 1 && r.bgcnt[layer] / 0x2000 % 2 == 1 { layer + 2 } else { layer };
        vram.half(
            if r.engine == Engine::A { VramSpace::BgExtPalA } else { VramSpace::BgExtPalB },
            (0x2000 * slot + 2 * (256 * bank + number)) as u32,
        )
    }
}

pub(crate) proof fn lemma_ink(r: Registers, layer: int, vram: Vram, palette: Seq<u8>, bank: int, number: int)
    requires
        0 <= layer < 4,
        palette.len() == 0x800,
        0 <= bank < 16,
        0 <= number < 256,
    ensures
        r.color_8bpp(vram, palette, layer, bank, number) == background_ink(
            r,
            layer,
            vram,
            palette,
            true,
            bank,
            number,
        ),
{
    lemma2_to64();
    lemma_flag_u32(r.dispcnt, 0x4000_0000, 30);
    lemma_flag_u16(r.bgcnt[layer], 0x2000, 13);
}

/// A text layer shows its map through the scroll registers, wrapping round its edges: at each pixel,
/// the tile that the map names there, mirrored as the entry says, in the entry's colours. Number zero
/// is transparent.
#[verifier::rlimit(60)]
pub proof fn law_text_layers_show_their_tiles(
    r: Registers,
    layer: int,
    line: u32,
    x: int,
    vram: Vram,
    palette: Seq<u8>,
)
    requires
        0 <= layer < 4,
        line < 192,
        0 <= x < 256,
        palette.len() == 0x800,
    ensures
        ({
            let size = r.bgcnt[layer] / 0x4000;
            let wide = if size % 2 == 1 { 64int } else { 32 };
            let tall = if size / 2 == 1 { 64int } else { 32 };
            let px = (x + r.bghofs[layer]) % (8 * wide);
            let py = (line + r.bgvofs[layer]) % (8 * tall);
            let (cx, cy) = (px / 8, py / 8);
            let block = cx / 32 + (cy / 32) * (wide / 32);
            let entry = vram.half(
                background_space(r.engine),
                (map_at(r, layer) + 0x800 * block + 64 * (cy % 32) + 2 * (cx % 32)) as u32,
            ) as int;
            let eight_bit = r.bgcnt[layer] / 128 % 2 == 1;
            let number = tile_pixel(
                vram,
                background_space(r.engine),
                tiles_at(r, layer),
                eight_bit,
                entry % 1024,
                if entry / 1024 % 2 == 1 { 7 - px % 8 } else { px % 8 },
                if entry / 2048 % 2 == 1 { 7 - py % 8 } else { py % 8 },
            );
            r.text_color(layer, line, x, vram, palette) == (if number == 0 {
                None
            } else {
                Some(background_ink(r, layer, vram, palette, eight_bit, entry / 4096, number))
            })
        }),
{
    let size = r.bgcnt[layer] / 0x4000;
    let wide = if size % 2 == 1 { 64int } else { 32 };
    let tall = if size / 2 == 1 { 64int } else { 32 };
    let px = (x + r.bghofs[layer]) % (8 * wide);
    let py = (line + r.bgvofs[layer]) % (8 * tall);
    lemma2_to64();
    lemma_low_bits_mask_values();
    lemma_bases(r, layer);
    lemma_field_u16(r.bgcnt[layer], 14, 2);
    lemma_flag_u16(r.bgcnt[layer], 0x80, 7);
    assert(r.text_width(layer) == wide && r.text_height(layer) == tall);
    let block = px / 8 / 32 + (py / 8 / 32) * (wide / 32);
    let at = (map_at(r, layer) + 0x800 * block + 64 * (py / 8 % 32) + 2 * (px / 8 % 32)) as u32;
    let entry = vram.half(background_space(r.engine), at);
    assert(r.screen_base(layer) + super::background::cell_offset(wide, px / 8, py / 8) == map_at(
        r,
        layer,
    ) + 0x800 * block + 64 * (py / 8 % 32) + 2 * (px / 8 % 32));
    lemma_entry(entry);
    let column = if entry / 1024 % 2 == 1 { 7 - px % 8 } else { px % 8 };
    let row = if entry / 2048 % 2 == 1 { 7 - py % 8 } else { py % 8 };
    let tile = (entry % 1024) as int;
    if r.bgcnt[layer] / 128 % 2 == 1 {
        let index = vram.byte(
            background_space(r.engine),
            (tiles_at(r, layer) + 64 * tile + 8 * row + column) as u32,
        );
        lemma_ink(r, layer, vram, palette, entry as int / 4096, index as int);
    } else {
        let pair = vram.byte(
            background_space(r.engine),
            (tiles_at(r, layer) + 32 * tile + 4 * row + column / 2) as u32,
        );
        lemma_nibbles(pair);
    }
}

/// The fields of a map entry.
pub(crate) proof fn lemma_entry(entry: u16)
    ensures
        (entry & 0x800 != 0) == (entry as int / 2048 % 2 == 1),
        (entry & 0x400 != 0) == (entry as int / 1024 % 2 == 1),
        entry & 0x3FF == entry as int % 1024,
        entry >> 12 == entry as int / 4096,
{
    lemma2_to64();
    lemma_low_bits_mask_values();
    lemma_flag_u16(entry, 0x800, 11);
    lemma_flag_u16(entry, 0x400, 10);
    lemma_field_u16(entry, 12, 10);
}

/// Scrolling is looking elsewhere: a layer scrolled by so much shows at a pixel what the layer at rest
/// shows so much farther on.
pub proof fn law_scrolling_is_looking_elsewhere(
    r: Registers,
    rest: Registers,
    layer: int,
    line: u32,
    x: int,
    vram: Vram,
    palette: Seq<u8>,
)
    requires
        0 <= layer < 4,
        0 <= x,
        rest.engine == r.engine && rest.dispcnt == r.dispcnt && rest.bgcnt == r.bgcnt,
        rest.bghofs[layer] == 0 && rest.bgvofs[layer] == 0,
        line + r.bgvofs[layer] <= u32::MAX,
    ensures
        r.text_color(layer, line, x, vram, palette) == rest.text_color(
            layer,
            (line + r.bgvofs[layer]) as u32,
            x + r.bghofs[layer],
            vram,
            palette,
        ),
{
}

/// Where an affine layer's pixel falls: from its reference point, `pa` and `pc` farther for each
/// column, in 256ths.
pub open spec fn affine_place(r: Registers, block: int, x: int) -> (int, int) {
    (
        (r.bgx_internal[block] + r.bgp[block][0] * x) / 256,
        (r.bgy_internal[block] + r.bgp[block][2] * x) / 256,
    )
}

pub(crate) proof fn lemma_affine_place(r: Registers, block: int, x: int)
    requires
        0 <= block < 2,
        0 <= x < 256,
        -0x7000_0000 <= r.bgx_internal[block] <= 0x7000_0000,
        -0x7000_0000 <= r.bgy_internal[block] <= 0x7000_0000,
    ensures
        r.affine_point(block, x) == affine_place(r, block, x),
{
    let (pa, pc) = (r.bgp[block][0] as int, r.bgp[block][2] as int);
    assert(-0x8000 * 256 <= pa * x <= 0x8000 * 256 && -0x8000 * 256 <= pc * x <= 0x8000 * 256)
        by (nonlinear_arith)
        requires
            -0x8000 <= pa <= 0x7FFF,
            -0x8000 <= pc <= 0x7FFF,
            0 <= x < 256,
    ;
    lemma_fraction_dropped((r.bgx_internal[block] + pa * x) as i32);
    lemma_fraction_dropped((r.bgy_internal[block] + pc * x) as i32);
}

/// A point of a map, or none where it lies outside one that does not wrap.
pub open spec fn on_map(p: (int, int), width: int, height: int, wraps: bool) -> Option<(int, int)> {
    if wraps {
        Some((p.0 % width, p.1 % height))
    } else if 0 <= p.0 < width && 0 <= p.1 < height {
        Some(p)
    } else {
        None
    }
}

/// An affine layer shows, at each pixel, the tile that its square map names where the matrix lands:
/// one byte to a tile, row by row, each tile of 256 colours. Outside the map it is transparent unless
/// it wraps.
#[verifier::rlimit(60)]
pub proof fn law_affine_layers_show_their_tiles(
    r: Registers,
    layer: int,
    x: int,
    vram: Vram,
    palette: Seq<u8>,
)
    requires
        2 <= layer < 4,
        0 <= x < 256,
        palette.len() == 0x800,
        -0x7000_0000 <= r.bgx_internal[layer - 2] <= 0x7000_0000,
        -0x7000_0000 <= r.bgy_internal[layer - 2] <= 0x7000_0000,
    ensures
        ({
            let size = r.bgcnt[layer] / 0x4000;
            let tiles = if size == 0 {
                16int
            } else if size == 1 {
                32
            } else if size == 2 {
                64
            } else {
                128
            };
            let point = affine_place(r, layer - 2, x);
            r.affine_color(layer, x, vram, palette, false) == (match on_map(
                point,
                8 * tiles,
                8 * tiles,
                r.bgcnt[layer] / 0x2000 % 2 == 1,
            ) {
                None => None,
                Some((px, py)) => {
                    let tile = vram.byte(
                        background_space(r.engine),
                        (map_at(r, layer) + (py / 8) * tiles + px / 8) as u32,
                    ) as int;
                    let number = tile_pixel(
                        vram,
                        background_space(r.engine),
                        tiles_at(r, layer),
                        true,
                        tile,
                        px % 8,
                        py % 8,
                    );
                    if number == 0 {
                        None
                    } else {
                        Some(background_ink(r, layer, vram, palette, true, 0, number))
                    }
                },
            })
        }),
{
    lemma2_to64();
    lemma_low_bits_mask_values();
    lemma_bases(r, layer);
    lemma_field_u16(r.bgcnt[layer], 14, 2);
    lemma_flag_u16(r.bgcnt[layer], 0x2000, 13);
    lemma_affine_place(r, layer - 2, x);
    let tiles = r.affine_tiles(layer);
    let wraps = r.bgcnt[layer] / 0x2000 % 2 == 1;
    match on_map(affine_place(r, layer - 2, x), 8 * tiles, 8 * tiles, wraps) {
        None => {},
        Some((px, py)) => {
            let tile = vram.byte(
                background_space(r.engine),
                (map_at(r, layer) + (py / 8) * tiles + px / 8) as u32,
            ) as int;
            let index = vram.byte(
                background_space(r.engine),
                (tiles_at(r, layer) + 64 * tile + 8 * (py % 8) + px % 8) as u32,
            );
            lemma_ink(r, layer, vram, palette, 0, index as int);
        },
    }
}

/// A bitmap layer shows its picture, stored row by row from its base in units of 16 KiB: a halfword to
/// a pixel with its top bit for "there", or a byte that picks a colour.
#[verifier::rlimit(60)]
pub proof fn law_bitmap_layers_show_their_picture(
    r: Registers,
    layer: int,
    x: int,
    vram: Vram,
    palette: Seq<u8>,
    direct: bool,
)
    requires
        2 <= layer < 4,
        0 <= x < 256,
        palette.len() == 0x800,
        -0x7000_0000 <= r.bgx_internal[layer - 2] <= 0x7000_0000,
        -0x7000_0000 <= r.bgy_internal[layer - 2] <= 0x7000_0000,
    ensures
        ({
            let size = r.bgcnt[layer] / 0x4000;
            let width = if size == 0 { 128int } else if size == 1 { 256 } else { 512 };
            let height = if size == 0 { 128int } else if size == 3 { 512 } else { 256 };
            let base = r.bgcnt[layer] / 256 % 32 * 0x4000;
            let space = background_space(r.engine);
            let point = affine_place(r, layer - 2, x);
            r.bitmap_color(layer, x, vram, palette, direct) == (match on_map(
                point,
                width,
                height,
                r.bgcnt[layer] / 0x2000 % 2 == 1,
            ) {
                None => None,
                Some((px, py)) => if direct {
                    let value = vram.half(space, (base + 2 * (py * width + px)) as u32);
                    if value >= 0x8000 { Some((value % 0x8000) as u16) } else { None }
                } else {
                    let number = vram.byte(space, (base + py * width + px) as u32) as int;
                    if number == 0 {
                        None
                    } else {
                        Some(word_at(palette, block_of(r.engine) + 2 * number) as u16)
                    }
                },
            })
        }),
{
    lemma2_to64();
    lemma_low_bits_mask_values();
    lemma_field_u16(r.bgcnt[layer], 14, 2);
    lemma_field_u16(r.bgcnt[layer], 8, 5);
    lemma_flag_u16(r.bgcnt[layer], 0x2000, 13);
    lemma_affine_place(r, layer - 2, x);
    let size = r.bgcnt[layer] / 0x4000;
    let width = if size == 0 { 128int } else if size == 1 { 256 } else { 512 };
    let height = if size == 0 { 128int } else if size == 3 { 512 } else { 256 };
    let base = r.bgcnt[layer] / 256 % 32 * 0x4000;
    assert(r.bitmap_width(layer) == width && r.bitmap_height(layer) == height);
    let wraps = r.bgcnt[layer] / 0x2000 % 2 == 1;
    match on_map(affine_place(r, layer - 2, x), width, height, wraps) {
        None => {},
        Some((px, py)) => {
            if direct {
                let value = vram.half(
                    background_space(r.engine),
                    (base + 2 * (py * width + px)) as u32,
                );
                lemma_flag_u16(value, 0x8000, 15);
                lemma_field_u16(value, 0, 15);
                assert(base + (py * width + px) * 2 == base + 2 * (py * width + px));
            }
        },
    }
}

/// A window takes the columns from its left edge up to its right one, and the rows from its top up to
/// its bottom one.
pub proof fn law_windows_are_boxes(r: Registers, index: int, line: u32, x: int)
    requires
        0 <= index < 2,
        0 <= x < 256,
    ensures
        ({
            let (left, right) = (r.winh[index] as int / 256, r.winh[index] as int % 256);
            let (top, bottom) = (r.winv[index] as int / 256, r.winv[index] as int % 256);
            &&& left < right ==> r.column_inside(index, x) == (left <= x < right)
            &&& left >= right ==> r.column_inside(index, x) == !(right <= x < left)
            &&& top < bottom ==> r.row_inside(index, line) == (top <= line < bottom)
            &&& top > bottom ==> r.row_inside(index, line) == !(bottom <= line < top)
            &&& top == bottom ==> !r.row_inside(index, line)
        }),
{
    lemma2_to64();
    lemma_low_bits_mask_values();
    lemma_field_u16(r.winh[index], 8, 8);
    lemma_field_u16(r.winv[index], 8, 8);
}

/// The first window that a pixel lies in decides what shows there: window 0, then window 1, then the
/// object window, each by its own six bits, and the outside by its own where it lies in none.
pub proof fn law_the_first_window_decides(r: Registers, line: u32, x: int, in_object_window: bool)
    ensures
        ({
            let zero = r.dispcnt / 0x2000 % 2 == 1;
            let one = r.dispcnt / 0x4000 % 2 == 1;
            let object = r.dispcnt / 0x8000 % 2 == 1;
            let control = r.window_control(line, x, in_object_window);
            if !zero && !one && !object {
                control == 63
            } else if zero && r.row_inside(0, line) && r.column_inside(0, x) {
                control == r.winin % 64
            } else if one && r.row_inside(1, line) && r.column_inside(1, x) {
                control == r.winin / 256 % 64
            } else if object && in_object_window {
                control == r.winout / 256 % 64
            } else {
                control == r.winout % 64
            }
        }),
{
    lemma2_to64();
    lemma_low_bits_mask_values();
    let d = r.dispcnt;
    lemma_flag_u32(d, 0x2000, 13);
    lemma_flag_u32(d, 0x4000, 14);
    lemma_flag_u32(d, 0x8000, 15);
    lemma_field_u16(r.winin, 0, 6);
    lemma_field_u16(r.winin, 8, 6);
    lemma_field_u16(r.winout, 0, 6);
    lemma_field_u16(r.winout, 8, 6);
    assert((d & (0x2000u32 | 0x4000u32 | 0x8000u32) == 0) == (d & 0x2000 == 0 && d & 0x4000 == 0 && d
        & 0x8000 == 0)) by (bit_vector);
}

/// A layer whose bit is clear in the window does not show.
pub proof fn law_windows_hide_layers(pixels: Seq<LinePixel>, control: u16, n: int)
    requires
        0 <= n < 20,
        ({
            let layer = layer_of(n);
            control as int / (if layer == 0 {
                1int
            } else if layer == 1 {
                2
            } else if layer == 2 {
                4
            } else if layer == 3 {
                8
            } else {
                16
            }) % 2 == 0
        }),
    ensures
        !shows(pixels, control, n),
{
    lemma2_to64();
    lemma_bit_u16(control, layer_of(n) as u16);
}

/// A layer's bit among the targets of the colour effect.
pub open spec fn digit(value: u16, place: int) -> bool {
    value as int / (vstd::arithmetic::power2::pow2(place as nat) as int) % 2 == 1
}

/// What the colour effect does to two layers: nothing unless the one in front is a first target and the
/// window lets effects through; alpha blending also needs the one behind to be a second target; but a
/// semi-transparent sprite over a second target blends whatever is selected.
pub proof fn law_the_colour_effect(
    r: Registers,
    top_layer: int,
    top: LinePixel,
    below_layer: int,
    below: u16,
    effects: bool,
)
    requires
        0 <= top_layer <= 5,
        0 <= below_layer <= 5,
        top.alpha_3d == 0,
    ensures
        ({
            let effect = r.bldcnt as int / 64 % 4;
            let first = digit(r.bldcnt, top_layer);
            let second = digit(r.bldcnt, below_layer + 8);
            let shown = r.mixed(top_layer, top, below_layer, below, effects);
            if top.semi_transparent && second {
                shown == alpha_blended(top.color, below, r.bldalpha)
            } else if !effects || !first || effect == 0 || (effect == 1 && !second) {
                shown == top.color
            } else if effect == 1 {
                shown == alpha_blended(top.color, below, r.bldalpha)
            } else {
                shown == brightened(top.color, (r.bldy % 32) as u16, effect == 2)
            }
        }),
{
    lemma2_to64();
    lemma_low_bits_mask_values();
    lemma_field_u16(r.bldcnt, 6, 2);
    lemma_bit_u16(r.bldcnt, top_layer as u16);
    lemma_bit_u16(r.bldcnt, (below_layer + 8) as u16);
    lemma_field_u16(r.bldy, 0, 5);
}

/// A weight out of sixteen.
pub open spec fn sixteenths(field: int) -> int {
    if field % 32 > 16 { 16 } else { field % 32 }
}

/// One channel of a sum of two in sixteenths, no more than full.
pub open spec fn sum_of(a: int, b: int, wa: int, wb: int) -> int {
    if (a * wa + b * wb) / 16 > 31 { 31 } else { (a * wa + b * wb) / 16 }
}

proof fn lemma_sum(a: int, b: int, wa: int, wb: int)
    requires
        0 <= a <= 31,
        0 <= b <= 31,
        0 <= wa <= 16,
        0 <= wb <= 16,
    ensures
        0 <= sum_of(a, b, wa, wb) <= 31,
        blended_channel(a, b, wa, wb) == sum_of(a, b, wa, wb),
{
    assert(0 <= a * wa && 0 <= b * wb) by (nonlinear_arith)
        requires
            0 <= a,
            0 <= b,
            0 <= wa,
            0 <= wb,
    ;
}

/// Alpha blending adds the two colours channel by channel, the front one by the low weight and the
/// other by the high one, in sixteenths and no more than full.
#[verifier::rlimit(40)]
pub proof fn law_alpha_blending_adds_in_sixteenths(top: u16, bottom: u16, bldalpha: u16)
    ensures
        ({
            let mix = alpha_blended(top, bottom, bldalpha);
            let wa = sixteenths(bldalpha as int);
            let wb = sixteenths(bldalpha as int / 256);
            &&& mix % 32 == sum_of(top as int % 32, bottom as int % 32, wa, wb)
            &&& mix / 32 % 32 == sum_of(top as int / 32 % 32, bottom as int / 32 % 32, wa, wb)
            &&& mix / 1024 == sum_of(top as int / 1024 % 32, bottom as int / 1024 % 32, wa, wb)
        }),
{
    lemma2_to64();
    lemma_low_bits_mask_values();
    lemma_field_u16(bldalpha, 0, 5);
    lemma_field_u16(bldalpha, 8, 5);
    vstd::bits::lemma_u16_low_bits_mask_is_mod(bldalpha >> 8, 5);
    let wa = sixteenths(bldalpha as int);
    let wb = sixteenths(bldalpha as int / 256);
    assert(weight(bldalpha) == wa && weight(bldalpha >> 8) == wb);
    law_channels_are_digits(top);
    law_channels_are_digits(bottom);
    let a = sum_of(top as int % 32, bottom as int % 32, wa, wb);
    let b = sum_of(top as int / 32 % 32, bottom as int / 32 % 32, wa, wb);
    let c = sum_of(top as int / 1024 % 32, bottom as int / 1024 % 32, wa, wb);
    lemma_sum(top as int % 32, bottom as int % 32, wa, wb);
    lemma_sum(top as int / 32 % 32, bottom as int / 32 % 32, wa, wb);
    lemma_sum(top as int / 1024 % 32, bottom as int / 1024 % 32, wa, wb);
    assert(alpha_blended(top, bottom, bldalpha) == joined(a, b, c));
    law_joined_channels_come_apart(a, b, c);
    law_channels_are_digits(joined(a, b, c));
}

proof fn lemma_brightened(c: int, evy: int, up: bool)
    requires
        0 <= c <= 31,
        0 <= evy <= 16,
    ensures
        ({
            let d = brightened_channel(c, evy, up);
            &&& 0 <= d <= 31
            &&& up ==> c <= d && 16 * (d - c) <= (31 - c) * evy < 16 * (d - c) + 16
            &&& !up ==> d <= c && 16 * (c - d) <= c * evy < 16 * (c - d) + 16
        }),
{
    assert(0 <= (31 - c) * evy <= (31 - c) * 16 && 0 <= c * evy <= c * 16) by (nonlinear_arith)
        requires
            0 <= c <= 31,
            0 <= evy <= 16,
    ;
}

/// Brightness moves every channel toward white, or toward black, by so many sixteenths of the way:
/// none of it changes nothing.
#[verifier::rlimit(40)]
pub proof fn law_brightness_moves_toward_the_end(color: u16, evy: u16, up: bool)
    ensures
        ({
            let by = if evy > 16 { 16 } else { evy as int };
            let after = brightened(color, evy, up);
            let (r, g, b) = (
                color as int % 32,
                color as int / 32 % 32,
                color as int / 1024 % 32,
            );
            let (s, h, c) = (after as int % 32, after as int / 32 % 32, after as int / 1024);
            &&& up ==> 16 * (s - r) <= (31 - r) * by < 16 * (s - r) + 16
            &&& up ==> 16 * (h - g) <= (31 - g) * by < 16 * (h - g) + 16
            &&& up ==> 16 * (c - b) <= (31 - b) * by < 16 * (c - b) + 16
            &&& !up ==> 16 * (r - s) <= r * by < 16 * (r - s) + 16
            &&& !up ==> 16 * (g - h) <= g * by < 16 * (g - h) + 16
            &&& !up ==> 16 * (b - c) <= b * by < 16 * (b - c) + 16
        }),
{
    law_channels_are_digits(color);
    let by = if evy > 16 { 16 } else { evy as int };
    let (r, g, b) = (color as int % 32, color as int / 32 % 32, color as int / 1024 % 32);
    lemma_brightened(r, by, up);
    lemma_brightened(g, by, up);
    lemma_brightened(b, by, up);
    let (s, h, c) = (
        brightened_channel(r, by, up),
        brightened_channel(g, by, up),
        brightened_channel(b, by, up),
    );
    assert(brightened(color, evy, up) == joined(s, h, c));
    law_joined_channels_come_apart(s, h, c);
    law_channels_are_digits(joined(s, h, c));
}

/// Master brightness is the same step on the finished pixel: up in mode 1, down in mode 2, and none
/// otherwise.
pub proof fn law_master_brightness(r: Registers, color: u16)
    ensures
        ({
            let mode = r.master_bright as int / 0x4000;
            let field = r.master_bright as int % 32;
            let by = (if field > 16 { 16 } else { field }) as u16;
            r.mastered(color) == (if mode == 1 {
                brightened(color, by, true)
            } else if mode == 2 {
                brightened(color, by, false)
            } else {
                color
            })
        }),
{
    lemma2_to64();
    lemma_low_bits_mask_values();
    lemma_field_u16(r.master_bright, 0, 5);
    lemma_field_u16(r.master_bright, 14, 2);
}

/// Nothing but the backdrop shows where no layer does, and one layer alone shows its own colour where
/// no effect is selected.
pub proof fn law_layers_cover_the_backdrop(
    r: Registers,
    pixels: Seq<LinePixel>,
    control: u16,
    backdrop: u16,
    n: int,
)
    requires
        0 <= n < 20,
        r.bldcnt == 0,
        shows(pixels, control, n),
        forall|m: int| 0 <= m < n ==> !#[trigger] shows(pixels, control, m),
    ensures
        r.composed(pixels, control, backdrop) == pixels[layer_of(n)].color,
{
    lemma_first(pixels, control, 0, n);
    lemma2_to64();
    lemma_low_bits_mask_values();
    lemma_field_u16(0, 6, 2);
    let second = next_visible(pixels, control, n + 1);
    lemma_within(pixels, control, n + 1);
    let below_layer = match second {
        None => 5int,
        Some(k) => layer_of(k),
    };
    lemma_bit_u16(0, (below_layer + 8) as u16);
    lemma_bit_u16(0, layer_of(n) as u16);
    assert(0int / (vstd::arithmetic::power2::pow2((below_layer + 8) as nat) as int) == 0)
        by (nonlinear_arith)
        requires
            vstd::arithmetic::power2::pow2((below_layer + 8) as nat) > 0,
    {
        vstd::arithmetic::power2::lemma_pow2_pos((below_layer + 8) as nat);
    }
}

proof fn lemma_within(pixels: Seq<LinePixel>, control: u16, start: int)
    requires
        0 <= start <= 20,
    ensures
        next_visible(pixels, control, start) matches Some(k) ==> start <= k < 20,
    decreases 20 - start,
{
    if start < 20 && !shows(pixels, control, start) {
        lemma_within(pixels, control, start + 1);
    }
}

proof fn lemma_first(pixels: Seq<LinePixel>, control: u16, start: int, n: int)
    requires
        0 <= start <= n < 20,
        shows(pixels, control, n),
        forall|m: int| 0 <= m < n ==> !#[trigger] shows(pixels, control, m),
    ensures
        next_visible(pixels, control, start) == Some(n),
    decreases n - start,
{
    if start < n {
        assert(!shows(pixels, control, start));
        lemma_first(pixels, control, start + 1, n);
    }
}

} // verus!
