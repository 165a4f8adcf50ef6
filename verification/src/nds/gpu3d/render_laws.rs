//! What rasterising is for: textures, interpolation, coverage and translucency, stated of pictures
//! and pixels.

use vstd::arithmetic::power2::lemma2_to64;
use vstd::bits::lemma_low_bits_mask_values;
use vstd::prelude::*;
use super::geometry::ScreenVertex;
use super::render::{
    across, attributes_of, averaged_channel, blended, covered, crossings, edge_crossing, layered,
    leftmost, modulated, modulated_channel, packed, resolved_color, resolved_texcoord, rightmost,
    sampled, side_of, wrapped, Attributes, Crossing, Pixel, Surface, Texel,
};
use crate::arith::{larger, quotient, smaller};
use crate::bits::{lemma_field_u16, lemma_field_u32};
use crate::color::{channel, joined, law_channels_are_digits, law_joined_channels_come_apart};
use crate::nds::vram::{Vram, VramSpace};

verus! {

/// What `TEXIMAGE_PARAM` says of a texture.
pub struct Layout {
    pub base: int,
    pub width: int,
    pub height: int,
    pub format: int,
    pub repeat_s: bool,
    pub repeat_t: bool,
    pub flip_s: bool,
    pub flip_t: bool,
    pub zero_is_clear: bool,
}

/// Eight, doubled so many times.
pub open spec fn eight_doubled(times: int) -> int {
    if times == 0 {
        8
    } else if times == 1 {
        16
    } else if times == 2 {
        32
    } else if times == 3 {
        64
    } else if times == 4 {
        128
    } else if times == 5 {
        256
    } else if times == 6 {
        512
    } else {
        1024
    }
}

/// `TEXIMAGE_PARAM`, field by field.
pub open spec fn layout_of(param: u32) -> Layout {
    let p = param as int;
    Layout {
        base: p % 0x1_0000 * 8,
        width: eight_doubled(p / 0x10_0000 % 8),
        height: eight_doubled(p / 0x80_0000 % 8),
        format: p / 0x400_0000 % 8,
        repeat_s: p / 0x1_0000 % 2 == 1,
        repeat_t: p / 0x2_0000 % 2 == 1,
        flip_s: p / 0x4_0000 % 2 == 1,
        flip_t: p / 0x8_0000 % 2 == 1,
        zero_is_clear: p / 0x2000_0000 % 2 == 1,
    }
}

proof fn lemma_side(field: u32)
    requires
        field < 8,
    ensures
        side_of(field) == eight_doubled(field as int),
{
    lemma2_to64();
    vstd::bits::lemma_u32_shl_is_mul(8, field);
}

/// The fields that sampling goes by are those of the parameter.
pub(crate) proof fn lemma_layout(param: u32)
    ensures
        ({
            let l = layout_of(param);
            &&& (param & 0xFFFF) << 3 == l.base
            &&& side_of((param >> 20) & 7) == l.width
            &&& side_of((param >> 23) & 7) == l.height
            &&& (param >> 26) & 7 == l.format
            &&& (param & (1u32 << 16) != 0) == l.repeat_s
            &&& (param & (1u32 << 17) != 0) == l.repeat_t
            &&& (param & (1u32 << 18) != 0) == l.flip_s
            &&& (param & (1u32 << 19) != 0) == l.flip_t
            &&& (param & (1u32 << 29) != 0) == l.zero_is_clear
            &&& 8 <= l.width <= 1024
            &&& 8 <= l.height <= 1024
            &&& 0 <= l.base <= 0x7_FFF8
        }),
{
    lemma2_to64();
    lemma_low_bits_mask_values();
    lemma_field_u32(param, 0, 16);
    lemma_field_u32(param, 20, 3);
    lemma_field_u32(param, 23, 3);
    lemma_field_u32(param, 26, 3);
    crate::bits::lemma_bit_u32(param, 16);
    crate::bits::lemma_bit_u32(param, 17);
    crate::bits::lemma_bit_u32(param, 18);
    crate::bits::lemma_bit_u32(param, 19);
    crate::bits::lemma_bit_u32(param, 29);
    lemma_side((param >> 20) & 7);
    lemma_side((param >> 23) & 7);
    vstd::bits::lemma_u32_shl_is_mul(param & 0xFFFF, 3);
}

/// A coordinate in sixteenths of a texel, rounded down to a texel.
pub(crate) proof fn lemma_sixteenths(value: i32, whole: int)
    requires
        16 * whole <= value < 16 * whole + 16,
    ensures
        value >> 4 == whole,
{
    crate::bits::lemma_fraction_dropped(value);
}

/// A texture coordinate that lies in texel `at`.
pub open spec fn lies_in(coordinate: i32, at: int) -> bool {
    16 * at <= coordinate < 16 * at + 16
}

/// The colour in place `number` of a texture's palette.
pub open spec fn palette_number(vram: Vram, l: Layout, palette: u32, number: int) -> u16 {
    vram.half(
        VramSpace::TexturePalette,
        (palette * (if l.format == 2 { 8int } else { 16 }) + 2 * number) as u32,
    )
}

/// What video memory holds for the texel `n` places into a texture: as many bits as its format has.
pub open spec fn texel_bits(vram: Vram, l: Layout, n: int) -> int {
    let byte = |at: int| vram.byte(VramSpace::Texture, (l.base + at) as u32) as int;
    if l.format == 2 {
        let quad = byte(n / 4);
        if n % 4 == 0 {
            quad % 4
        } else if n % 4 == 1 {
            quad / 4 % 4
        } else if n % 4 == 2 {
            quad / 16 % 4
        } else {
            quad / 64
        }
    } else if l.format == 3 {
        if n % 2 == 0 { byte(n / 2) % 16 } else { byte(n / 2) / 16 }
    } else if l.format == 7 {
        byte(2 * n) + 256 * byte(2 * n + 1)
    } else {
        byte(n)
    }
}

/// What a texel of an uncompressed format with these bits looks like.
pub open spec fn texel_looks(vram: Vram, l: Layout, palette: u32, bits: int) -> Texel {
    if l.format == 7 {
        Texel { color: (bits % 0x8000) as u16, alpha: if bits >= 0x8000 { 31 } else { 0 } }
    } else if l.format == 1 {
        let a = bits / 32;
        Texel {
            color: palette_number(vram, l, palette, bits % 32),
            alpha: (a * 4 + a / 2) as u8,
        }
    } else if l.format == 6 {
        Texel { color: palette_number(vram, l, palette, bits % 8), alpha: (bits / 8) as u8 }
    } else {
        Texel {
            color: palette_number(vram, l, palette, bits),
            alpha: if bits == 0 && l.zero_is_clear { 0 } else { 31 },
        }
    }
}

/// Two bits of a byte.
proof fn lemma_two_bits(x: u32, n: int)
    requires
        x < 256,
        0 <= n < 4,
    ensures
        (x >> ((n * 2) as u32)) & 3 == (if n == 0 {
            x as int % 4
        } else if n == 1 {
            x as int / 4 % 4
        } else if n == 2 {
            x as int / 16 % 4
        } else {
            x as int / 64
        }),
{
    lemma2_to64();
    lemma_low_bits_mask_values();
    lemma_field_u32(x, 0, 2);
    lemma_field_u32(x, 2, 2);
    lemma_field_u32(x, 4, 2);
    lemma_field_u32(x, 6, 2);
}

/// The bits of a byte that the formats with an opacity split it into.
proof fn lemma_split_byte(x: u32)
    requires
        x < 256,
    ensures
        x & 0x1F == x as int % 32,
        (x >> 5) & 7 == x as int / 32,
        x & 7 == x as int % 8,
        (x >> 3) & 0x1F == x as int / 8,
        x & 0xF == x as int % 16,
        x >> 4 == x as int / 16,
{
    lemma2_to64();
    lemma_low_bits_mask_values();
    lemma_field_u32(x, 0, 5);
    lemma_field_u32(x, 5, 3);
    lemma_field_u32(x, 0, 3);
    lemma_field_u32(x, 3, 5);
    lemma_field_u32(x, 0, 4);
    lemma_field_u32(x, 4, 4);
}

/// A coordinate inside a texture is where it is, however the texture repeats.
pub(crate) proof fn lemma_inside(value: int, size: int, repeat: bool, flip: bool)
    requires
        0 <= value < size,
    ensures
        wrapped(value, size, repeat, flip) == value,
{
    if repeat {
        vstd::arithmetic::div_mod::lemma_small_mod(value as nat, size as nat);
        vstd::arithmetic::div_mod::lemma_small_mod(value as nat, (size * 2) as nat);
    }
}

/// Every uncompressed texture is a picture stored row by row: for any picture that video memory holds
/// from the texture's base on, one row of it behind the other, a coordinate in column `s` and row `t`
/// shows the texel there.
#[verifier::rlimit(60)]
pub proof fn law_uncompressed_textures_are_stored_row_by_row(
    param: u32,
    palette: u32,
    texcoord: [i32; 2],
    vram: Vram,
    picture: spec_fn(int, int) -> int,
    s: int,
    t: int,
)
    requires
        ({
            let l = layout_of(param);
            &&& 1 <= l.format <= 7 && l.format != 5
            &&& 0 <= s < l.width
            &&& 0 <= t < l.height
            &&& forall|column: int, row: int|
                0 <= column < l.width && 0 <= row < l.height ==> #[trigger] picture(column, row)
                    == texel_bits(vram, l, l.width * row + column)
        }),
        palette < 0x2000,
        lies_in(texcoord[0], s),
        lies_in(texcoord[1], t),
    ensures
        sampled(param, palette, texcoord, vram) == texel_looks(
            vram,
            layout_of(param),
            palette,
            picture(s, t),
        ),
{
    let l = layout_of(param);
    lemma_layout(param);
    lemma_sixteenths(texcoord[0], s);
    lemma_sixteenths(texcoord[1], t);
    lemma_inside(s, l.width, l.repeat_s, l.flip_s);
    lemma_inside(t, l.height, l.repeat_t, l.flip_t);
    let n = t * l.width + s;
    assert(0 <= t * l.width <= 1023 * 1024) by (nonlinear_arith)
        requires
            0 <= t <= 1023,
            0 <= l.width <= 1024,
    ;
    assert(l.width * t + s == n) by (nonlinear_arith)
        requires
            n == t * l.width + s,
    ;
    assert(picture(s, t) == texel_bits(vram, l, n));
    lemma2_to64();
    vstd::bits::lemma_u32_shl_is_mul(palette, 3);
    vstd::bits::lemma_u32_shl_is_mul(palette, 4);
    lemma_texel(param, palette, vram, n);
    assert(sampled(param, palette, texcoord, vram) == texel_of(param, palette, vram, n));
}

/// The texel `n` places into a texture.
spec fn texel_of(param: u32, palette_field: u32, vram: Vram, n: int) -> Texel {
    let base = (param & 0xFFFF) << 3;
    let format = (param >> 26) & 7;
    let clear = param & (1u32 << 29) != 0;
    let palette = if format == 2 { palette_field << 3 } else { palette_field << 4 };
    let byte = |offset: int| vram.byte(VramSpace::Texture, (base + offset) as u32) as u32;
    if format == 1 {
        let v = byte(n);
        let a = (v >> 5) & 7;
        Texel {
            color: super::render::palette_entry(vram, palette, v & 0x1F),
            alpha: (a * 4 + a / 2) as u8,
        }
    } else if format == 2 {
        let entry = (byte(n / 4) >> ((n % 4 * 2) as u32)) & 3;
        Texel {
            color: super::render::palette_entry(vram, palette, entry),
            alpha: if entry == 0 && clear { 0 } else { 31 },
        }
    } else if format == 3 {
        let v = byte(n / 2);
        let entry = if n % 2 == 0 { v & 0xF } else { v >> 4 };
        Texel {
            color: super::render::palette_entry(vram, palette, entry),
            alpha: if entry == 0 && clear { 0 } else { 31 },
        }
    } else if format == 4 {
        let entry = byte(n);
        Texel {
            color: super::render::palette_entry(vram, palette, entry),
            alpha: if entry == 0 && clear { 0 } else { 31 },
        }
    } else if format == 6 {
        let v = byte(n);
        Texel {
            color: super::render::palette_entry(vram, palette, v & 7),
            alpha: ((v >> 3) & 0x1F) as u8,
        }
    } else {
        let value = vram.half(VramSpace::Texture, (base + n * 2) as u32);
        Texel { color: value & 0x7FFF, alpha: if value & 0x8000 == 0 { 0 } else { 31 } }
    }
}

#[verifier::rlimit(60)]
proof fn lemma_texel(param: u32, palette: u32, vram: Vram, n: int)
    requires
        palette < 0x2000,
        0 <= n <= 0x10_0000,
        1 <= layout_of(param).format <= 7,
        layout_of(param).format != 5,
    ensures
        texel_of(param, palette, vram, n) == texel_looks(
            vram,
            layout_of(param),
            palette,
            texel_bits(vram, layout_of(param), n),
        ),
{
    let l = layout_of(param);
    lemma_layout(param);
    lemma2_to64();
    lemma_low_bits_mask_values();
    vstd::bits::lemma_u32_shl_is_mul(palette, 3);
    vstd::bits::lemma_u32_shl_is_mul(palette, 4);
    let byte = |at: int| vram.byte(VramSpace::Texture, (l.base + at) as u32) as u32;
    lemma_split_byte(byte(n));
    lemma_split_byte(byte(n / 2));
    lemma_two_bits(byte(n / 4), n % 4);
    if l.format == 7 {
        let value = vram.half(VramSpace::Texture, (l.base + n * 2) as u32);
        lemma_field_u16(value, 0, 15);
        crate::bits::lemma_flag_u16(value, 0x8000, 15);
    }
}

/// A texture that is moved down in memory by one row shows each row where it showed the one after:
/// rows lie a width of texels apart.
pub proof fn law_rows_are_a_width_apart(
    param: u32,
    moved: u32,
    palette: u32,
    here: [i32; 2],
    below: [i32; 2],
    vram: Vram,
    s: int,
    t: int,
)
    requires
        ({
            let l = layout_of(param);
            &&& l.format == 1 || l.format == 4 || l.format == 6 || l.format == 7
            &&& 0 <= s < l.width
            &&& 0 <= t < l.height - 1
            &&& moved == param + l.width / (if l.format == 7 { 4int } else { 8 })
            &&& layout_of(moved) == (Layout {
                base: l.base + l.width * (if l.format == 7 { 2int } else { 1 }),
                ..l
            })
        }),
        palette < 0x2000,
        lies_in(here[0], s),
        lies_in(here[1], t),
        lies_in(below[0], s),
        lies_in(below[1], t + 1),
    ensures
        sampled(moved, palette, here, vram) == sampled(param, palette, below, vram),
{
    let l = layout_of(param);
    let m = layout_of(moved);
    law_uncompressed_textures_are_stored_row_by_row(
        param,
        palette,
        below,
        vram,
        |a: int, b: int| texel_bits(vram, l, l.width * b + a),
        s,
        t + 1,
    );
    law_uncompressed_textures_are_stored_row_by_row(
        moved,
        palette,
        here,
        vram,
        |a: int, b: int| texel_bits(vram, m, m.width * b + a),
        s,
        t,
    );
    assert(l.width * (t + 1) + s == l.width * t + s + l.width) by (nonlinear_arith);
}

/// A coordinate off the edge of a texture shows the edge where the texture does not repeat, what lies
/// a whole texture away where it does, and the mirror image of what lies on this side where it also
/// flips.
#[verifier::rlimit(40)]
pub proof fn law_textures_clamp_repeat_and_mirror(
    param: u32,
    palette: u32,
    off: [i32; 2],
    on: [i32; 2],
    vram: Vram,
    s: int,
    whole: int,
)
    requires
        ({
            let l = layout_of(param);
            let edge = if s < 0 { 0 } else { l.width - 1 };
            &&& off[1] == on[1]
            &&& lies_in(off[0], s)
            &&& !l.repeat_s ==> (s < 0 || s >= l.width) && lies_in(on[0], edge)
            &&& l.repeat_s && !l.flip_s ==> lies_in(on[0], s - whole * l.width)
            &&& l.repeat_s && l.flip_s ==> lies_in(on[0], s - whole * (2 * l.width)) || (0 <= s - l.width
                < l.width && lies_in(on[0], 2 * l.width - 1 - s))
        }),
    ensures
        sampled(param, palette, off, vram) == sampled(param, palette, on, vram),
{
    let l = layout_of(param);
    lemma_layout(param);
    lemma_sixteenths(off[0], s);
    let other = (on[0] as int - on[0] as int % 16) / 16;
    lemma_sixteenths(on[0], other);
    if l.repeat_s && !l.flip_s {
        assert(other == s - whole * l.width);
        lemma_periodic(s, l.width, whole);
    } else if l.repeat_s && l.flip_s {
        if other == s - whole * (2 * l.width) {
            lemma_periodic(s, 2 * l.width, whole);
        } else {
            vstd::arithmetic::div_mod::lemma_small_mod(s as nat, (l.width * 2) as nat);
            vstd::arithmetic::div_mod::lemma_small_mod(other as nat, (l.width * 2) as nat);
        }
    }
    assert(wrapped(s, l.width, l.repeat_s, l.flip_s) == wrapped(
        other,
        l.width,
        l.repeat_s,
        l.flip_s,
    ));
}

proof fn lemma_periodic(s: int, period: int, times: int)
    requires
        period > 0,
    ensures
        s % period == (s - times * period) % period,
{
    vstd::arithmetic::div_mod::lemma_mod_multiples_vanish(-times, s, period);
    assert(period * -times + s == s - times * period) by (nonlinear_arith);
}

/// Modulation multiplies: a full vertex colour keeps the texel, none of it leaves nothing, and more of
/// either never gives less.
pub proof fn law_modulation_multiplies(texel: u16, vertex: [u8; 3], brighter: [u8; 3])
    requires
        vertex[0] <= brighter[0] <= 63,
        vertex[1] <= brighter[1] <= 63,
        vertex[2] <= brighter[2] <= 63,
    ensures
        modulated(texel, [63, 63, 63]) == texel % 0x8000,
        modulated(texel, [0, 0, 0]) == 0,
        modulated(texel, vertex) % 32 <= modulated(texel, brighter) % 32,
        modulated(texel, vertex) / 32 % 32 <= modulated(texel, brighter) / 32 % 32,
        modulated(texel, vertex) / 1024 <= modulated(texel, brighter) / 1024,
        64 * (modulated(texel, vertex) % 32) <= (texel % 32) * (vertex[0] + 1) < 64 * (modulated(
            texel,
            vertex,
        ) % 32 + 1),
        64 * (modulated(texel, vertex) / 32 % 32) <= (texel / 32 % 32) * (vertex[1] + 1) < 64 * (
        modulated(texel, vertex) / 32 % 32 + 1),
        64 * (modulated(texel, vertex) / 1024) <= (texel / 1024 % 32) * (vertex[2] + 1) < 64 * (
        modulated(texel, vertex) / 1024 + 1),
{
    law_channels_are_digits(texel);
    lemma_modulated(texel, vertex);
    lemma_modulated(texel, brighter);
    lemma_modulated(texel, [63, 63, 63]);
    lemma_modulated(texel, [0, 0, 0]);
    let (r, g, b) = (texel % 32, texel / 32 % 32, texel / 1024 % 32);
    assert(r * (vertex[0] + 1) <= r * (brighter[0] + 1)) by (nonlinear_arith)
        requires
            vertex[0] <= brighter[0],
            0 <= r,
    ;
    assert(g * (vertex[1] + 1) <= g * (brighter[1] + 1)) by (nonlinear_arith)
        requires
            vertex[1] <= brighter[1],
            0 <= g,
    ;
    assert(b * (vertex[2] + 1) <= b * (brighter[2] + 1)) by (nonlinear_arith)
        requires
            vertex[2] <= brighter[2],
            0 <= b,
    ;
}

proof fn lemma_modulated(texel: u16, vertex: [u8; 3])
    requires
        vertex[0] <= 63,
        vertex[1] <= 63,
        vertex[2] <= 63,
    ensures
        modulated(texel, vertex) % 32 == (texel % 32) * (vertex[0] + 1) / 64,
        modulated(texel, vertex) / 32 % 32 == (texel / 32 % 32) * (vertex[1] + 1) / 64,
        modulated(texel, vertex) / 1024 == (texel / 1024 % 32) * (vertex[2] + 1) / 64,
        modulated(texel, vertex) < 0x8000,
{
    law_channels_are_digits(texel);
    lemma_product((texel % 32) as int, vertex[0] as int);
    lemma_product((texel / 32 % 32) as int, vertex[1] as int);
    lemma_product((texel / 1024 % 32) as int, vertex[2] as int);
    let a = modulated_channel(channel(texel, 0), vertex[0]);
    let b = modulated_channel(channel(texel, 5), vertex[1]);
    let c = modulated_channel(channel(texel, 10), vertex[2]);
    law_joined_channels_come_apart(a, b, c);
    law_channels_are_digits(joined(a, b, c));
}

proof fn lemma_product(t: int, v: int)
    requires
        0 <= t <= 31,
        0 <= v <= 63,
    ensures
        0 <= t * (v + 1) / 64 <= 31,
        0 <= t * (v + 1) <= 31 * 64,
{
    assert(0 <= t * (v + 1) <= 31 * 64) by (nonlinear_arith)
        requires
            0 <= t <= 31,
            0 <= v <= 63,
    ;
}

/// A six-bit colour is shown in five bits, half of each channel.
pub proof fn law_six_bits_are_halved(color: [u8; 3])
    requires
        color[0] <= 63,
        color[1] <= 63,
        color[2] <= 63,
    ensures
        packed(color) % 32 == color[0] / 2,
        packed(color) / 32 % 32 == color[1] / 2,
        packed(color) / 1024 == color[2] / 2,
{
    let (r, g, b) = (color[0] as int / 2, color[1] as int / 2, color[2] as int / 2);
    lemma_halved(color[0]);
    lemma_halved(color[1]);
    lemma_halved(color[2]);
    assert(packed(color) == joined(r, g, b));
    law_joined_channels_come_apart(r, g, b);
    law_channels_are_digits(joined(r, g, b));
}

proof fn lemma_halved(c: u8)
    requires
        c <= 63,
    ensures
        (c as u16 >> 1u16) & 0x1F == c as int / 2,
{
    lemma2_to64();
    lemma_low_bits_mask_values();
    lemma_field_u16(c as u16, 1, 5);
}

proof fn lemma_layered(top: u16, bottom: u16, alpha: u8)
    requires
        alpha <= 31,
    ensures
        ({
            let c = layered(top, bottom, alpha);
            &&& c % 32 == ((top % 32) * (alpha + 1) + (bottom % 32) * (31 - alpha)) / 32
            &&& c / 32 % 32 == ((top / 32 % 32) * (alpha + 1) + (bottom / 32 % 32) * (31 - alpha))
                / 32
            &&& c / 1024 == ((top / 1024 % 32) * (alpha + 1) + (bottom / 1024 % 32) * (31 - alpha))
                / 32
        }),
{
    law_channels_are_digits(top);
    law_channels_are_digits(bottom);
    lemma_weighted((top % 32) as int, (bottom % 32) as int, alpha as int);
    lemma_weighted((top / 32 % 32) as int, (bottom / 32 % 32) as int, alpha as int);
    lemma_weighted((top / 1024 % 32) as int, (bottom / 1024 % 32) as int, alpha as int);
    let a = averaged_channel(channel(top, 0), channel(bottom, 0), alpha + 1, 31 - alpha);
    let b = averaged_channel(channel(top, 5), channel(bottom, 5), alpha + 1, 31 - alpha);
    let c = averaged_channel(channel(top, 10), channel(bottom, 10), alpha + 1, 31 - alpha);
    law_joined_channels_come_apart(a, b, c);
    law_channels_are_digits(joined(a, b, c));
}

proof fn lemma_weighted(t: int, b: int, alpha: int)
    requires
        0 <= t <= 31,
        0 <= b <= 31,
        0 <= alpha <= 31,
    ensures
        smaller(t, b) <= (t * (alpha + 1) + b * (31 - alpha)) / 32 <= larger(t, b),
        0 <= (t * (alpha + 1) + b * (31 - alpha)) / 32 <= 31,
{
    let low = smaller(t, b);
    let high = larger(t, b);
    assert(32 * low <= t * (alpha + 1) + b * (31 - alpha) <= 32 * high) by (nonlinear_arith)
        requires
            low <= t <= high,
            low <= b <= high,
            0 <= alpha <= 31,
    ;
}

/// A translucent fragment mixes with what is under it in thirty-seconds, one more of its own than its
/// opacity: each channel lies between the two, opaque ones keep the fragment's, and a more opaque
/// fragment brings the mix no farther from its own colour.
pub proof fn law_translucent_colours_mix_in_proportion(
    top: u16,
    bottom: u16,
    alpha: u8,
    more: u8,
)
    requires
        alpha <= more <= 31,
        bottom % 32 <= top % 32,
    ensures
        layered(top, bottom, 31) == top % 0x8000,
        bottom % 32 <= layered(top, bottom, alpha) % 32 <= top % 32,
        layered(top, bottom, alpha) % 32 <= layered(top, bottom, more) % 32,
        ({
            let mix = layered(top, bottom, alpha);
            let blue = (top / 1024 % 32) * (alpha + 1) + (bottom / 1024 % 32) * (31 - alpha);
            let green = (top / 32 % 32) * (alpha + 1) + (bottom / 32 % 32) * (31 - alpha);
            &&& 32 * (mix / 1024) <= blue < 32 * (mix / 1024) + 32
            &&& 32 * (mix / 32 % 32) <= green < 32 * (mix / 32 % 32) + 32
        }),
{
    lemma_layered(top, bottom, 31);
    lemma_layered(top, bottom, alpha);
    lemma_layered(top, bottom, more);
    lemma_weighted((top % 32) as int, (bottom % 32) as int, alpha as int);
    let t = (top % 32) as int;
    let b = (bottom % 32) as int;
    assert(t * (alpha + 1) + b * (31 - alpha) <= t * (more + 1) + b * (31 - more))
        by (nonlinear_arith)
        requires
            b <= t,
            alpha <= more,
    ;
    assert((top / 32 % 32) * 0 == 0 && (bottom % 32) * 0 == 0);
    law_channels_are_digits(top);
    let whole = layered(top, bottom, 31);
    law_channels_are_digits(whole);
    assert(whole < 0x8000) by {
        law_joined_channels_come_apart(
            averaged_channel(channel(top, 0), channel(bottom, 0), 32, 0),
            averaged_channel(channel(top, 5), channel(bottom, 5), 32, 0),
            averaged_channel(channel(top, 10), channel(bottom, 10), 32, 0),
        );
        law_channels_are_digits(bottom);
    }
}

/// The depth of a fragment as it is stored.
pub open spec fn stored_depth(a: Attributes) -> int {
    if a.depth < 0 { 0 } else if a.depth > 0xFF_FFFF { 0xFF_FFFF } else { a.depth as int }
}

/// A fragment is drawn where it is nearer than what is there; or, for a polygon that asks for it, where
/// it is within a small margin of the same depth. Otherwise the pixel stays.
pub proof fn law_hidden_fragments_change_nothing(
    surface: Surface,
    a: Attributes,
    vram: Vram,
    before: Pixel,
)
    requires
        surface.attr as int / 0x4000 % 2 == 0 ==> stored_depth(a) >= before.depth,
        surface.attr as int / 0x4000 % 2 == 1 ==> stored_depth(a) > before.depth + 0x200
            || stored_depth(a) < before.depth - 0x200,
    ensures
        surface.fragment(a, vram, before) == before,
{
    lemma2_to64();
    crate::bits::lemma_bit_u32(surface.attr, 14);
}

/// A fragment passes its depth test.
pub open spec fn visible(surface: Surface, a: Attributes, before: Pixel) -> bool {
    if surface.attr as int / 0x4000 % 2 == 0 {
        stored_depth(a) < before.depth
    } else {
        before.depth - 0x200 <= stored_depth(a) <= before.depth + 0x200
    }
}

/// The opacity that a polygon gives: its five-bit field, with zero standing for fully opaque.
pub open spec fn polygon_opacity(surface: Surface) -> int {
    let field = surface.attr as int / 0x1_0000 % 32;
    if field == 0 { 31 } else { field }
}

pub(crate) proof fn lemma_surface(surface: Surface)
    ensures
        surface.opacity() == polygon_opacity(surface),
        surface.mode() == surface.attr as int / 16 % 4,
        surface.polygon_id() == surface.attr as int / 0x100_0000 % 64,
        surface.writes_depth_translucent() == (surface.attr as int / 0x800 % 2 == 1),
        surface.depth_equal() == (surface.attr as int / 0x4000 % 2 == 1),
        (surface.tex_param >> 26) & 7 == layout_of(surface.tex_param).format,
        1 <= polygon_opacity(surface) <= 31,
{
    lemma2_to64();
    lemma_low_bits_mask_values();
    lemma_field_u32(surface.attr, 16, 5);
    lemma_field_u32(surface.attr, 4, 2);
    lemma_field_u32(surface.attr, 24, 6);
    crate::bits::lemma_bit_u32(surface.attr, 11);
    crate::bits::lemma_bit_u32(surface.attr, 14);
    lemma_layout(surface.tex_param);
}

/// An opaque fragment that is visible replaces the pixel: with the vertex colour where there is no
/// texture, with the texel where the texture is a decal, and with the product of the two otherwise.
pub proof fn law_opaque_fragments_replace_the_pixel(
    surface: Surface,
    a: Attributes,
    vram: Vram,
    before: Pixel,
)
    requires
        visible(surface, a, before),
        polygon_opacity(surface) == 31,
        layout_of(surface.tex_param).format == 0 || sampled(
            surface.tex_param,
            surface.palette_base,
            resolved_texcoord(a),
            vram,
        ).alpha == 31,
    ensures
        ({
            let texel = sampled(
                surface.tex_param,
                surface.palette_base,
                resolved_texcoord(a),
                vram,
            );
            surface.fragment(a, vram, before) == (Pixel {
                color: if layout_of(surface.tex_param).format == 0 {
                    packed(resolved_color(a))
                } else if surface.attr as int / 16 % 4 == 1 {
                    texel.color
                } else {
                    modulated(texel.color, resolved_color(a))
                },
                alpha: 31,
                depth: stored_depth(a) as u32,
                polygon_id: (surface.attr as int / 0x100_0000 % 64) as u8,
            })
        }),
{
    lemma_surface(surface);
}

/// A texel of no opacity draws nothing, except that a decal shows the vertex colour there.
pub proof fn law_clear_texels_show_what_is_behind(
    surface: Surface,
    a: Attributes,
    vram: Vram,
    before: Pixel,
)
    requires
        layout_of(surface.tex_param).format != 0,
        sampled(surface.tex_param, surface.palette_base, resolved_texcoord(a), vram).alpha == 0,
    ensures
        surface.attr as int / 16 % 4 != 1 ==> surface.fragment(a, vram, before) == before,
        surface.attr as int / 16 % 4 == 1 && visible(surface, a, before) && polygon_opacity(surface)
            == 31 ==> surface.fragment(a, vram, before).color == packed(resolved_color(a)),
{
    lemma_surface(surface);
}

/// A translucent fragment of an untextured polygon mixes with the pixel, keeps the greater opacity,
/// leaves its polygon's number, and moves the depth only if the polygon says so; over a translucent
/// fragment of the same number it draws nothing.
pub proof fn law_translucent_fragments_mix(
    surface: Surface,
    a: Attributes,
    vram: Vram,
    before: Pixel,
)
    requires
        visible(surface, a, before),
        polygon_opacity(surface) < 31,
        layout_of(surface.tex_param).format == 0,
    ensures
        ({
            let after = surface.fragment(a, vram, before);
            let id = surface.attr as int / 0x100_0000 % 64;
            let alpha = polygon_opacity(surface);
            if before.polygon_id == id && before.alpha < 31 {
                after == before
            } else {
                &&& after.color == layered(packed(resolved_color(a)), before.color, alpha as u8)
                &&& after.alpha == (if before.alpha >= alpha { before.alpha as int } else { alpha })
                &&& after.polygon_id == id
                &&& after.depth == (if surface.attr as int / 0x800 % 2 == 1 {
                    stored_depth(a)
                } else {
                    before.depth as int
                })
            }
        }),
{
    lemma_surface(surface);
}

/// A value stepped `num` parts of `den` of the way from `a` to `b`.
proof fn lemma_stepped(a: int, b: int, num: int, den: int)
    requires
        0 <= num <= den,
        0 < den,
    ensures
        ({
            let m = a + quotient((b - a) * num, den);
            &&& -den < m * den - (a * (den - num) + b * num) < den
            &&& smaller(a, b) <= m <= larger(a, b)
            &&& num == 0 ==> m == a
            &&& num == den ==> m == b
        }),
{
    let p = (b - a) * num;
    let q = quotient(p, den);
    crate::arith::lemma_quotient(p, den);
    super::render::lemma_mix_between(a, b, num, den);
    assert((a + q) * den - (a * (den - num) + b * num) == q * den - p) by (nonlinear_arith)
        requires
            p == (b - a) * num,
    ;
    if num == 0 {
        assert(p == 0) by (nonlinear_arith)
            requires
                p == (b - a) * num,
                num == 0,
        ;
        assert(0int / den == 0) by (nonlinear_arith)
            requires
                den > 0,
        ;
    }
    if num == den {
        assert(q == b - a) by {
            vstd::arithmetic::div_mod::lemma_div_multiples_vanish(b - a, den);
            vstd::arithmetic::div_mod::lemma_div_multiples_vanish(a - b, den);
            assert((b - a) * den == den * (b - a) && -((b - a) * den) == den * (a - b))
                by (nonlinear_arith);
        }
    }
}

/// An edge is the same from either end, starts at its upper corner, and stays within one pixel of the
/// straight line between its corners.
pub proof fn law_edges_are_straight(upper: ScreenVertex, lower: ScreenVertex, y: int)
    requires
        upper.y <= y < lower.y,
    ensures
        edge_crossing(upper, lower, y) == edge_crossing(lower, upper, y),
        edge_crossing(upper, lower, y) is Some,
        ({
            let x = edge_crossing(upper, lower, y)->0.x;
            let rows = lower.y - upper.y;
            let down = y - upper.y;
            &&& -rows < (x - upper.x) * rows - (lower.x - upper.x) * down < rows
            &&& smaller(upper.x as int, lower.x as int) <= x <= larger(
                upper.x as int,
                lower.x as int,
            )
            &&& y == upper.y ==> x == upper.x
        }),
{
    let rows = lower.y - upper.y;
    let down = y - upper.y;
    lemma_stepped(upper.x as int, lower.x as int, down, rows);
    let x = edge_crossing(upper, lower, y)->0.x;
    assert((x - upper.x) * rows - (lower.x - upper.x) * down == x * rows - (upper.x * (rows - down)
        + lower.x * down)) by (nonlinear_arith);
}

/// A line that misses an edge, or only touches its lower end, does not cross it.
pub proof fn law_edges_end_where_their_corners_are(a: ScreenVertex, b: ScreenVertex, y: int)
    requires
        (y < a.y && y < b.y) || (y >= a.y && y >= b.y),
    ensures
        edge_crossing(a, b, y) is None,
{
}

/// Depth runs in a straight line across a span, from the one side's to the other's.
pub proof fn law_depth_runs_straight_across(left: Crossing, right: Crossing, x: int)
    requires
        left.x < right.x,
        left.x <= x <= right.x,
        left.attributes.bounded(),
        right.attributes.bounded(),
    ensures
        ({
            let d = across(left, right, x).depth;
            let span = right.x - left.x;
            let (l, r) = (left.attributes.depth, right.attributes.depth);
            &&& -span < d * span - (l * (right.x - x) + r * (x - left.x)) < span
            &&& x == left.x ==> d == l
            &&& x == right.x ==> d == r
        }),
{
    lemma_stepped(
        left.attributes.depth as int,
        right.attributes.depth as int,
        x - left.x,
        right.x - left.x,
    );
    assert((right.x - left.x) - (x - left.x) == right.x - x);
}

/// A corner shows its own colour and texture coordinates, however far away it is.
pub proof fn law_corners_keep_their_own(v: ScreenVertex)
    requires
        1 <= v.w <= 0x40_0000,
        v.color[0] <= 63,
        v.color[1] <= 63,
        v.color[2] <= 63,
    ensures
        resolved_color(attributes_of(v))[0] == v.color[0],
        resolved_color(attributes_of(v))[1] == v.color[1],
        resolved_color(attributes_of(v))[2] == v.color[2],
        resolved_texcoord(attributes_of(v))[0] == v.texcoord[0],
        resolved_texcoord(attributes_of(v))[1] == v.texcoord[1],
        attributes_of(v).depth == v.depth,
{
    let w = v.w as int;
    let inv = 0x40_0000int / w;
    assert(1 <= inv <= 0x40_0000) by (nonlinear_arith)
        requires
            1 <= w <= 0x40_0000,
            inv == 0x40_0000int / w,
    ;
    lemma_undone(v.color[0] as int, inv);
    lemma_undone(v.color[1] as int, inv);
    lemma_undone(v.color[2] as int, inv);
    lemma_undone(v.texcoord[0] as int, inv);
    lemma_undone(v.texcoord[1] as int, inv);
}

/// Multiplying and dividing again changes nothing.
proof fn lemma_undone(value: int, by: int)
    requires
        1 <= by <= 0x40_0000,
        -0x8000_0000 <= value <= 0x7FFF_FFFF,
    ensures
        quotient(value * by, by) == value,
        -0x40_0000_0000_0000 <= value * by <= 0x40_0000_0000_0000,
{
    assert(-0x40_0000_0000_0000 <= value * by <= 0x40_0000_0000_0000) by (nonlinear_arith)
        requires
            1 <= by <= 0x40_0000,
            -0x8000_0000 <= value <= 0x7FFF_FFFF,
    ;
    vstd::arithmetic::div_mod::lemma_div_multiples_vanish(value, by);
    vstd::arithmetic::div_mod::lemma_div_multiples_vanish(-value, by);
    assert(value * by == by * value && -(value * by) == by * -value) by (nonlinear_arith);
    assert(value >= 0 ==> value * by >= 0) by (nonlinear_arith)
        requires
            by >= 1,
    ;
    assert(value < 0 ==> value * by < 0) by (nonlinear_arith)
        requires
            by >= 1,
    ;
}

/// Texture coordinates are perspective-correct: along an edge it is the coordinate over `w`, and one
/// over `w`, that run in straight lines, and the coordinate shown is the quotient of the two.
pub proof fn law_interpolation_is_perspective_correct(
    a: ScreenVertex,
    b: ScreenVertex,
    num: int,
    den: int,
)
    requires
        1 <= a.w <= 0x40_0000,
        1 <= b.w <= 0x40_0000,
        -0x1000_0000 <= a.texcoord[0] <= 0x1000_0000,
        -0x1000_0000 <= b.texcoord[0] <= 0x1000_0000,
        0 <= num <= den,
        0 < den <= 0x1_0000_0000,
    ensures
        ({
            let near = 0x40_0000int / a.w as int;
            let far = 0x40_0000int / b.w as int;
            let between = blended(attributes_of(a), attributes_of(b), num, den);
            let inverse = between.inv_w as int;
            let shown = resolved_texcoord(between)[0] as int;
            let over_w = between.texcoord[0] as int;
            &&& -den < inverse * den - (near * (den - num) + far * num) < den
            &&& -den < over_w * den - (a.texcoord[0] * near * (den - num) + b.texcoord[0] * far * num)
                < den
            &&& -inverse < shown * inverse - over_w < inverse
        }),
{
    let near = 0x40_0000int / a.w as int;
    let far = 0x40_0000int / b.w as int;
    let (wa, wb) = (a.w as int, b.w as int);
    assert(1 <= near <= 0x40_0000) by (nonlinear_arith)
        requires
            1 <= wa <= 0x40_0000,
            near == 0x40_0000int / wa,
    ;
    assert(1 <= far <= 0x40_0000) by (nonlinear_arith)
        requires
            1 <= wb <= 0x40_0000,
            far == 0x40_0000int / wb,
    ;
    lemma_undone(a.texcoord[0] as int, near);
    lemma_undone(b.texcoord[0] as int, far);
    lemma_stepped(near, far, num, den);
    lemma_stepped(a.texcoord[0] * near, b.texcoord[0] * far, num, den);
    let between = blended(attributes_of(a), attributes_of(b), num, den);
    let inverse = between.inv_w as int;
    let over_w = between.texcoord[0] as int;
    assert(inverse >= 1);
    crate::arith::lemma_quotient(over_w, inverse);
    lemma_ratio(
        a.texcoord[0] as int,
        b.texcoord[0] as int,
        near,
        far,
        num,
        den,
        inverse,
        over_w,
    );
}

/// A weighted mean over the mean of the weights lies no farther out than twice what was weighed.
proof fn lemma_ratio(
    p: int,
    q: int,
    near: int,
    far: int,
    num: int,
    den: int,
    inverse: int,
    over: int,
)
    requires
        -0x1000_0000 <= p <= 0x1000_0000,
        -0x1000_0000 <= q <= 0x1000_0000,
        near >= 1,
        far >= 1,
        0 <= num <= den,
        0 < den,
        inverse >= 1,
        inverse * den - (near * (den - num) + far * num) > -den,
        -den < over * den - (p * near * (den - num) + q * far * num) < den,
    ensures
        -0x4000_0000 <= quotient(over, inverse) <= 0x4000_0000,
{
    let t = 0x1000_0000int;
    let a = near * (den - num);
    let b = far * num;
    assert(a >= 0 && b >= 0) by (nonlinear_arith)
        requires
            near >= 1,
            far >= 1,
            0 <= num <= den,
            a == near * (den - num),
            b == far * num,
    ;
    assert(p * near * (den - num) == p * a && q * far * num == q * b) by (nonlinear_arith)
        requires
            a == near * (den - num),
            b == far * num,
    ;
    assert(-(t * a) <= p * a <= t * a) by (nonlinear_arith)
        requires
            -t <= p <= t,
            a >= 0,
    ;
    assert(-(t * b) <= q * b <= t * b) by (nonlinear_arith)
        requires
            -t <= q <= t,
            b >= 0,
    ;
    assert(t * a + t * b <= t * (inverse * den + den)) by (nonlinear_arith)
        requires
            a + b <= inverse * den + den,
            t > 0,
    ;
    assert(-(t * (inverse + 1) + 1) < over < t * (inverse + 1) + 1) by (nonlinear_arith)
        requires
            over * den < t * (inverse * den + den) + den,
            over * den > -(t * (inverse * den + den)) - den,
            den > 0,
    ;
    crate::arith::lemma_quotient(over, inverse);
    let k = quotient(over, inverse);
    assert(-0x4000_0000 <= k <= 0x4000_0000) by (nonlinear_arith)
        requires
            -(t * (inverse + 1) + 1) < over < t * (inverse + 1) + 1,
            -inverse < over - k * inverse < inverse,
            inverse >= 1,
            t == 0x1000_0000,
    ;
}

/// The place that an edge's crossing takes among the crossings of a line.
proof fn lemma_place_of_crossing(corners: Seq<ScreenVertex>, y: int, i: nat, n: nat)
    requires
        i < n <= corners.len(),
        edge_crossing(corners[i as int], corners[(i + 1) as int % corners.len() as int], y) is Some,
    ensures
        crossings(corners, y, i).len() < crossings(corners, y, n).len(),
        crossings(corners, y, n)[crossings(corners, y, i).len() as int] == edge_crossing(
            corners[i as int],
            corners[(i + 1) as int % corners.len() as int],
            y,
        )->0,
    decreases n,
{
    if n > i + 1 {
        lemma_place_of_crossing(corners, y, i, (n - 1) as nat);
    }
}

/// Fewer edges have no more crossings.
proof fn lemma_crossings_grow(corners: Seq<ScreenVertex>, y: int, i: nat, n: nat)
    requires
        i <= n <= corners.len(),
    ensures
        crossings(corners, y, i).len() <= crossings(corners, y, n).len(),
    decreases n,
{
    if n > i {
        lemma_crossings_grow(corners, y, i, (n - 1) as nat);
    }
}

/// Every crossing has a depth between those of the corners.
proof fn lemma_crossing_depths(corners: Seq<ScreenVertex>, y: int, high: int, n: nat)
    requires
        n <= corners.len(),
        corners.len() > 0,
        forall|i: int| 0 <= i < corners.len() ==> (#[trigger] corners[i]).depth < high,
    ensures
        forall|i: int|
            0 <= i < crossings(corners, y, n).len() ==> 0 <= (#[trigger] crossings(
                corners,
                y,
                n,
            )[i]).attributes.depth < high,
    decreases n,
{
    if n > 0 {
        lemma_crossing_depths(corners, y, high, (n - 1) as nat);
        assert(0 <= n as int % corners.len() as int && n as int % (corners.len() as int)
            < corners.len()) by (nonlinear_arith)
            requires
                corners.len() > 0,
        ;
        let a = corners[n - 1];
        let b = corners[n as int % corners.len() as int];
        if a.y <= y < b.y {
            lemma_stepped(a.depth as int, b.depth as int, y - a.y, b.y - a.y);
        } else if b.y <= y < a.y {
            lemma_stepped(b.depth as int, a.depth as int, y - b.y, a.y - b.y);
        }
        let before = crossings(corners, y, (n - 1) as nat);
        let all = crossings(corners, y, n);
        assert forall|i: int| 0 <= i < all.len() implies 0 <= (#[trigger] all[i]).attributes.depth
            < high by {
            if i < before.len() {
                assert(all[i] == before[i]);
            }
        }
    }
}

/// The extreme crossings are crossings.
proof fn lemma_extremes_are_crossings(cs: Seq<Crossing>, low: int, high: int)
    requires
        cs.len() >= 1,
        forall|i: int| 0 <= i < cs.len() ==> low <= (#[trigger] cs[i]).attributes.depth < high,
    ensures
        low <= leftmost(cs).attributes.depth < high,
        low <= rightmost(cs).attributes.depth < high,
        forall|i: int| 0 <= i < cs.len() ==> leftmost(cs).x <= (#[trigger] cs[i]).x <= rightmost(cs).x,
    decreases cs.len(),
{
    if cs.len() > 1 {
        let init = cs.drop_last();
        assert forall|i: int| 0 <= i < init.len() implies low <= (
        #[trigger] init[i]).attributes.depth < high by {
            assert(init[i] == cs[i]);
        }
        lemma_extremes_are_crossings(init, low, high);
        assert(low <= cs[cs.len() - 1].attributes.depth < high);
        assert forall|i: int| 0 <= i < cs.len() implies leftmost(cs).x <= (#[trigger] cs[i]).x
            <= rightmost(cs).x by {
            if i < cs.len() - 1 {
                assert(cs[i] == init[i]);
            }
        }
    } else {
        assert(low <= cs[0].attributes.depth < high);
    }
}

/// A pixel between two of a polygon's edges is drawn: an opaque polygon whose corners are all nearer
/// than what is there leaves its number, its opacity and a nearer depth.
pub proof fn law_the_inside_is_drawn(
    surface: Surface,
    corners: Seq<ScreenVertex>,
    vram: Vram,
    x: int,
    y: int,
    before: Pixel,
    i: nat,
    j: nat,
)
    requires
        corners.len() >= 3,
        i < corners.len(),
        j < corners.len(),
        i != j,
        polygon_opacity(surface) == 31,
        layout_of(surface.tex_param).format == 0,
        surface.attr as int / 0x4000 % 2 == 0,
        before.depth <= 0xFF_FFFF,
        forall|k: int| 0 <= k < corners.len() ==> (#[trigger] corners[k]).depth < before.depth,
        ({
            let a = edge_crossing(corners[i as int], corners[(i + 1) as int % corners.len() as int], y);
            let b = edge_crossing(corners[j as int], corners[(j + 1) as int % corners.len() as int], y);
            a is Some && b is Some && a->0.x <= x <= b->0.x
        }),
    ensures
        ({
            let after = covered(surface, corners, vram, x, y, before);
            &&& after.alpha == 31
            &&& after.polygon_id == surface.attr as int / 0x100_0000 % 64
            &&& after.depth < before.depth
        }),
{
    let n = corners.len();
    let cs = crossings(corners, y, n);
    lemma_place_of_crossing(corners, y, i, n);
    lemma_place_of_crossing(corners, y, j, n);
    if i < j {
        lemma_place_of_crossing(corners, y, i, j);
        lemma_crossings_grow(corners, y, j, n);
    } else {
        lemma_place_of_crossing(corners, y, j, i);
        lemma_crossings_grow(corners, y, i, n);
    }
    lemma_crossing_depths(corners, y, before.depth as int, n);
    lemma_extremes_are_crossings(cs, 0, before.depth as int);
    let left = leftmost(cs);
    let right = rightmost(cs);
    if left.x < right.x {
        lemma_stepped(
            left.attributes.depth as int,
            right.attributes.depth as int,
            x - left.x,
            right.x - left.x,
        );
    }
    let a = across(left, right, x);
    law_opaque_fragments_replace_the_pixel(surface, a, vram, before);
}

} // verus!
