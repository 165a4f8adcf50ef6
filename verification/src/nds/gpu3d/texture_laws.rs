//! Compressed textures, textured translucency, the clear plane and the order of drawing.

use vstd::arithmetic::power2::lemma2_to64;
use vstd::bits::lemma_low_bits_mask_values;
use vstd::prelude::*;
use super::geometry::ListState;
use super::render::{
    averaged, averaged_channel, clear_pixel, corners_of, covered, layered, modulated, palette_entry,
    rendered, resolved_color, resolved_texcoord, sampled, surface_of, Attributes, Pixel, Surface,
};
use super::render_laws::{
    layout_of, lemma_inside, lemma_layout, lemma_sixteenths, lemma_surface, lies_in,
    polygon_opacity, stored_depth, visible,
};
use crate::bits::lemma_field_u32;
use crate::color::{channel, joined, law_channels_are_digits, law_joined_channels_come_apart};
use crate::nds::vram::{Vram, VramSpace};

verus! {

/// Two bits out of four bytes: those of column `c` in row `r`, a byte to a row with the left column in its
/// lowest bits.
pub open spec fn row_bits(byte: int, c: int) -> int {
    if c == 0 {
        byte % 4
    } else if c == 1 {
        byte / 4 % 4
    } else if c == 2 {
        byte / 16 % 4
    } else {
        byte / 64
    }
}

/// The bytes of a word, by division.
proof fn lemma_bytes_of_word(b0: int, b1: int, b2: int, b3: int)
    requires
        0 <= b0 < 256,
        0 <= b1 < 256,
        0 <= b2 < 256,
        0 <= b3 < 256,
    ensures
        ({
            let w = b0 + 0x100 * b1 + 0x1_0000 * b2 + 0x100_0000 * b3;
            &&& w % 256 == b0
            &&& w / 0x100 % 256 == b1
            &&& w / 0x1_0000 % 256 == b2
            &&& w / 0x100_0000 == b3
        }),
{
    let w = b0 + 0x100 * b1 + 0x1_0000 * b2 + 0x100_0000 * b3;
    assert(w / 0x100 == b1 + 0x100 * b2 + 0x1_0000 * b3);
    assert(w / 0x1_0000 == b2 + 0x100 * b3);
}

#[verifier::rlimit(60)]
proof fn lemma_block_bits(word: u32, r: int, c: int)
    requires
        0 <= r < 4,
        0 <= c < 4,
    ensures
        (word >> (((r * 4 + c) * 2) as u32)) & 3 == ({
            let w = word as int;
            if r == 0 {
                row_bits(w % 256, c)
            } else if r == 1 {
                row_bits(w / 0x100 % 256, c)
            } else if r == 2 {
                row_bits(w / 0x1_0000 % 256, c)
            } else {
                row_bits(w / 0x100_0000, c)
            }
        }),
{
    lemma2_to64();
    lemma_low_bits_mask_values();
    let w = word as int;
    if r == 0 {
        lemma_part(w, c);
        if c == 0 {
            lemma_field_u32(word, 0, 2);
        } else if c == 1 {
            lemma_field_u32(word, 2, 2);
        } else if c == 2 {
            lemma_field_u32(word, 4, 2);
        } else {
            lemma_field_u32(word, 6, 2);
        }
    } else if r == 1 {
        lemma_part(w / 0x100, c);
        if c == 0 {
            lemma_field_u32(word, 8, 2);
        } else if c == 1 {
            lemma_field_u32(word, 10, 2);
            assert(w / 0x100 / 4 == w / 0x400);
        } else if c == 2 {
            lemma_field_u32(word, 12, 2);
            assert(w / 0x100 / 16 == w / 0x1000);
        } else {
            lemma_field_u32(word, 14, 2);
            assert(w / 0x100 / 64 == w / 0x4000);
        }
    } else if r == 2 {
        lemma_part(w / 0x1_0000, c);
        if c == 0 {
            lemma_field_u32(word, 16, 2);
        } else if c == 1 {
            lemma_field_u32(word, 18, 2);
            assert(w / 0x1_0000 / 4 == w / 0x40000);
        } else if c == 2 {
            lemma_field_u32(word, 20, 2);
            assert(w / 0x1_0000 / 16 == w / 0x100000);
        } else {
            lemma_field_u32(word, 22, 2);
            assert(w / 0x1_0000 / 64 == w / 0x400000);
        }
    } else {
        lemma_part(w / 0x100_0000, c);
        if c == 0 {
            lemma_field_u32(word, 24, 2);
        } else if c == 1 {
            lemma_field_u32(word, 26, 2);
            assert(w / 0x100_0000 / 4 == w / 0x4000000);
        } else if c == 2 {
            lemma_field_u32(word, 28, 2);
            assert(w / 0x100_0000 / 16 == w / 0x10000000);
        } else {
            lemma_field_u32(word, 30, 2);
            assert(w / 0x100_0000 / 64 == w / 0x40000000);
        }
    }
}

/// The bits of a number's lowest byte.
proof fn lemma_part(v: int, c: int)
    requires
        0 <= v,
        0 <= c < 4,
    ensures
        row_bits(v % 256, c) == (if c == 0 {
            v % 4
        } else if c == 1 {
            v / 4 % 4
        } else if c == 2 {
            v / 16 % 4
        } else {
            v / 64 % 4
        }),
{
    let (q, m) = (v / 256, v % 256);
    assert(v == 256 * q + m);
    assert(v / 4 == 64 * q + m / 4);
    assert(v / 16 == 16 * q + m / 16);
    assert(v / 64 == 4 * q + m / 64);
}

/// One channel of two colours mixed by whole weights.
pub open spec fn mixed_channel(a: int, b: int, wa: int, wb: int) -> int {
    (a * wa + b * wb) / (wa + wb)
}

/// Two colours mixed channel by channel.
pub open spec fn is_mix(color: u16, first: u16, second: u16, wa: int, wb: int) -> bool {
    &&& color % 32 == mixed_channel((first % 32) as int, (second % 32) as int, wa, wb)
    &&& color / 32 % 32 == mixed_channel((first / 32 % 32) as int, (second / 32 % 32) as int, wa, wb)
    &&& color / 1024 == mixed_channel((first / 1024 % 32) as int, (second / 1024 % 32) as int, wa, wb)
}

proof fn lemma_mixed_channel(a: int, b: int, wa: int, wb: int)
    requires
        0 <= a <= 31,
        0 <= b <= 31,
        wa == 1 && wb == 1 || wa == 5 && wb == 3 || wa == 3 && wb == 5,
    ensures
        0 <= mixed_channel(a, b, wa, wb) <= 31,
{
}

proof fn lemma_mix(first: u16, second: u16, wa: int, wb: int)
    requires
        wa == 1 && wb == 1 || wa == 5 && wb == 3 || wa == 3 && wb == 5,
    ensures
        is_mix(averaged(first, second, wa, wb), first, second, wa, wb),
{
    law_channels_are_digits(first);
    law_channels_are_digits(second);
    lemma_mixed_channel((first % 32) as int, (second % 32) as int, wa, wb);
    lemma_mixed_channel((first / 32 % 32) as int, (second / 32 % 32) as int, wa, wb);
    lemma_mixed_channel((first / 1024 % 32) as int, (second / 1024 % 32) as int, wa, wb);
    let a = averaged_channel(channel(first, 0), channel(second, 0), wa, wb);
    let b = averaged_channel(channel(first, 5), channel(second, 5), wa, wb);
    let c = averaged_channel(channel(first, 10), channel(second, 10), wa, wb);
    law_joined_channels_come_apart(a, b, c);
    law_channels_are_digits(joined(a, b, c));
}

/// A compressed texture is made of blocks of four texels by four, stored row by row from the texture's
/// base, four bytes each with a byte to a row. Each texel is a number from nought to three, and the block
/// has a halfword as half as far into the upper half of its 128 KiB: where its colours are, and what the
/// numbers 2 and 3 stand for. The first two numbers are colours of their own; the others are a colour of
/// their own too, a mix of the first two, or nothing.
#[verifier::rlimit(60)]
pub proof fn law_compressed_textures_are_blocks(
    param: u32,
    palette: u32,
    texcoord: [i32; 2],
    vram: Vram,
    s: int,
    t: int,
)
    requires
        layout_of(param).format == 5,
        0 <= s < layout_of(param).width,
        0 <= t < layout_of(param).height,
        palette < 0x2000,
        lies_in(texcoord[0], s),
        lies_in(texcoord[1], t),
    ensures
        ({
            let l = layout_of(param);
            let block = l.base + 4 * ((t / 4) * (l.width / 4) + s / 4);
            let number = row_bits(
                vram.byte(VramSpace::Texture, (block + t % 4) as u32) as int,
                s % 4,
            );
            let slot = l.base - l.base % 0x2_0000;
            let pointer = vram.half(
                VramSpace::Texture,
                (slot + 0x1_0000 + (block - slot) / 2) as u32,
            ) as int;
            let colors = 16 * palette + 4 * (pointer % 0x4000);
            let color = |i: int| vram.half(VramSpace::TexturePalette, (colors + 2 * i) as u32);
            let mode = pointer / 0x4000;
            let texel = sampled(param, palette, texcoord, vram);
            &&& number < 2 ==> texel.color == color(number) && texel.alpha == 31
            &&& number == 2 && (mode == 0 || mode == 2) ==> texel.color == color(2) && texel.alpha == 31
            &&& number == 2 && mode == 1 ==> is_mix(texel.color, color(0), color(1), 1, 1) && texel.alpha
                == 31
            &&& number == 2 && mode == 3 ==> is_mix(texel.color, color(0), color(1), 5, 3) && texel.alpha
                == 31
            &&& number == 3 && mode <= 1 ==> texel.alpha == 0
            &&& number == 3 && mode == 2 ==> texel.color == color(3) && texel.alpha == 31
            &&& number == 3 && mode == 3 ==> is_mix(texel.color, color(0), color(1), 3, 5) && texel.alpha
                == 31
        }),
{
    let l = layout_of(param);
    lemma_layout(param);
    lemma_sixteenths(texcoord[0], s);
    lemma_sixteenths(texcoord[1], t);
    lemma_inside(s, l.width, l.repeat_s, l.flip_s);
    lemma_inside(t, l.height, l.repeat_t, l.flip_t);
    assert(0 <= (t / 4) * (l.width / 4) <= 255 * 256) by (nonlinear_arith)
        requires
            0 <= t < 1024,
            0 <= l.width <= 1024,
    ;
    let index = (t / 4) * (l.width / 4) + s / 4;
    let at = l.base + 4 * index;
    lemma2_to64();
    vstd::bits::lemma_u32_shl_is_mul(palette, 4);
    lemma_compressed(l.base as u32, s as u32, t as u32, l.width as u32, (16 * palette) as u32, vram);
    assert(l.base % 8 == 0);
    assert(l.base % 0x2_0000 / 2 + 2 * index == (at - (l.base - l.base % 0x2_0000)) / 2);
    assert(sampled(param, palette, texcoord, vram) == super::render::compressed_texel_of(
        l.base as u32,
        s as u32,
        t as u32,
        l.width as u32,
        (16 * palette) as u32,
        vram,
    ));
}

#[verifier::rlimit(60)]
proof fn lemma_compressed(base: u32, s: u32, t: u32, width: u32, palette: u32, vram: Vram)
    requires
        base <= 0x7_FFF8,
        base % 8 == 0,
        8 <= width <= 1024,
        s < 1024,
        t < 1024,
        palette <= 0x2_0000,
        0 <= (t / 4) * (width / 4) <= 255 * 256,
    ensures
        ({
            let index = (t / 4) * (width / 4) + s / 4;
            let number = row_bits(
                vram.byte(VramSpace::Texture, (base + 4 * index + t % 4) as u32) as int,
                s as int % 4,
            );
            let pointer = vram.half(
                VramSpace::Texture,
                (base - base % 0x2_0000 + 0x1_0000 + base % 0x2_0000 / 2 + 2 * index) as u32,
            ) as int;
            let colors = palette + 4 * (pointer % 0x4000);
            let color = |i: int| vram.half(VramSpace::TexturePalette, (colors + 2 * i) as u32);
            let mode = pointer / 0x4000;
            let texel = super::render::compressed_texel_of(base, s, t, width, palette, vram);
            &&& number < 2 ==> texel.color == color(number) && texel.alpha == 31
            &&& number == 2 && (mode == 0 || mode == 2) ==> texel.color == color(2) && texel.alpha == 31
            &&& number == 2 && mode == 1 ==> is_mix(texel.color, color(0), color(1), 1, 1) && texel.alpha
                == 31
            &&& number == 2 && mode == 3 ==> is_mix(texel.color, color(0), color(1), 5, 3) && texel.alpha
                == 31
            &&& number == 3 && mode <= 1 ==> texel.alpha == 0
            &&& number == 3 && mode == 2 ==> texel.color == color(3) && texel.alpha == 31
            &&& number == 3 && mode == 3 ==> is_mix(texel.color, color(0), color(1), 3, 5) && texel.alpha
                == 31
        }),
{
    let index = (t / 4) * (width / 4) + s / 4;
    let at = (base + 4 * index) as u32;
    let byte = |i: int| vram.byte(VramSpace::Texture, (at + i) as u32);
    let word = vram.word(VramSpace::Texture, at);
    assert(word == byte(0) + 0x100 * byte(1) + 0x1_0000 * byte(2) + 0x100_0000 * byte(3)) by {
        assert(vram.half(VramSpace::Texture, at) == byte(0) + 0x100 * byte(1));
        assert(vram.half(VramSpace::Texture, (at + 2) as u32) == byte(2) + 0x100 * byte(3));
    }
    lemma_bytes_of_word(byte(0) as int, byte(1) as int, byte(2) as int, byte(3) as int);
    lemma_block_bits(word, t as int % 4, s as int % 4);
    let pointer = vram.half(
        VramSpace::Texture,
        (base - base % 0x2_0000 + 0x1_0000 + base % 0x2_0000 / 2 + 2 * index) as u32,
    );
    lemma2_to64();
    lemma_low_bits_mask_values();
    lemma_field_u32(pointer as u32, 14, 2);
    lemma_field_u32(pointer as u32, 0, 14);
    let colors = (palette + 4 * (pointer % 0x4000)) as u32;
    let first = palette_entry(vram, colors, 0);
    let second = palette_entry(vram, colors, 1);
    lemma_mix(first, second, 1, 1);
    lemma_mix(first, second, 5, 3);
    lemma_mix(first, second, 3, 5);
}

/// A translucent fragment of a textured polygon that is no decal has the product of the two colours, and
/// of the two opacities in parts of thirty-one.
pub proof fn law_textured_opacities_multiply(surface: Surface, a: Attributes, vram: Vram, before: Pixel)
    requires
        visible(surface, a, before),
        layout_of(surface.tex_param).format != 0,
        surface.attr as int / 16 % 4 != 1,
        before.alpha == 31 || before.polygon_id != surface.attr as int / 0x100_0000 % 64,
        sampled(surface.tex_param, surface.palette_base, resolved_texcoord(a), vram).alpha <= 31,
    ensures
        ({
            let texel = sampled(
                surface.tex_param,
                surface.palette_base,
                resolved_texcoord(a),
                vram,
            );
            let alpha = texel.alpha * polygon_opacity(surface) / 31;
            let after = surface.fragment(a, vram, before);
            let color = modulated(texel.color, resolved_color(a));
            &&& alpha == 0 ==> after == before
            &&& alpha == 31 ==> after.color == color && after.alpha == 31 && after.depth == stored_depth(a)
            &&& 0 < alpha < 31 ==> after.color == layered(color, before.color, alpha as u8)
        }),
{
    lemma_surface(surface);
    let texel = sampled(surface.tex_param, surface.palette_base, resolved_texcoord(a), vram);
    assert(0 <= texel.alpha * polygon_opacity(surface) <= 31 * 31) by (nonlinear_arith)
        requires
            0 <= texel.alpha <= 31,
            1 <= polygon_opacity(surface) <= 31,
    ;
}

/// The clear plane, field by field: a colour of fifteen bits, five of opacity and six of polygon number,
/// and a depth of fifteen bits that is widened to twenty-four with ones below.
pub proof fn law_the_clear_plane(color: u32, depth: u32)
    ensures
        ({
            let p = clear_pixel(color, depth);
            &&& p.color == color % 0x8000
            &&& p.alpha == color / 0x1_0000 % 32
            &&& p.polygon_id == color / 0x100_0000 % 64
            &&& p.depth == 512 * (depth % 0x8000) + 511
        }),
{
    lemma2_to64();
    lemma_low_bits_mask_values();
    lemma_field_u32(color, 0, 15);
    lemma_field_u32(color, 16, 5);
    lemma_field_u32(color, 24, 6);
    lemma_field_u32(depth, 0, 15);
}

/// Polygons are drawn in order over the clear plane: the first on what is clear, and each on what those
/// before it left.
pub proof fn law_polygons_are_drawn_in_order(
    list: ListState,
    vram: Vram,
    clear: Pixel,
    x: int,
    y: int,
    n: nat,
)
    ensures
        rendered(list, vram, clear, x, y, 0) == clear,
        rendered(list, vram, clear, x, y, n + 1) == covered(
            surface_of(list.polygons[n as int]),
            corners_of(list.polygons[n as int].vertices, list.vertices),
            vram,
            x,
            y,
            rendered(list, vram, clear, x, y, n),
        ),
{
}

} // verus!
