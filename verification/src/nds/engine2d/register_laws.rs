//! Where each register of a 2D engine is, and how much of a write it keeps.

use vstd::arithmetic::power2::lemma2_to64;
use vstd::bits::lemma_low_bits_mask_values;
use vstd::prelude::*;
use super::{Engine, Registers};
use crate::bits::lemma_field_u16;

verus! {

/// The registers of the backgrounds: four controls side by side from offset 8 on, and from `0x10` on a
/// horizontal and a vertical scroll of nine bits for each.
pub proof fn law_background_registers(r: Registers, layer: int, value: u16)
    requires
        0 <= layer < 4,
    ensures
        ({
            let control = r.with_half((0x08 + 2 * layer) as u32, value);
            let across = r.with_half((0x10 + 4 * layer) as u32, value);
            let down = r.with_half((0x12 + 4 * layer) as u32, value);
            &&& control.bgcnt[layer] == value
            &&& across.bghofs[layer] == value % 512
            &&& down.bgvofs[layer] == value % 512
            &&& forall|other: int|
                0 <= other < 4 && other != layer ==> #[trigger] control.bgcnt[other] == r.bgcnt[other]
            &&& forall|other: int|
                0 <= other < 4 && other != layer ==> #[trigger] across.bghofs[other] == r.bghofs[other]
            &&& forall|other: int|
                0 <= other < 4 && other != layer ==> #[trigger] down.bgvofs[other] == r.bgvofs[other]
            &&& across.bgvofs == r.bgvofs && down.bghofs == r.bghofs
        }),
{
    lemma2_to64();
    lemma_low_bits_mask_values();
    lemma_field_u16(value, 0, 9);
    assert((0x10 + 4 * layer - 0x10) / 4 == layer && (0x12 + 4 * layer - 0x10) / 4 == layer);
    assert((0x08 + 2 * layer - 0x08) / 2 == layer);
}

/// The registers of the windows, of blending and of brightness, each in its place with the bits that it
/// has.
pub proof fn law_effect_registers(r: Registers, value: u16)
    ensures
        r.with_half(0x40, value).winh[0] == value && r.with_half(0x40, value).winh[1] == r.winh[1],
        r.with_half(0x42, value).winh[1] == value && r.with_half(0x42, value).winh[0] == r.winh[0],
        r.with_half(0x44, value).winv[0] == value && r.with_half(0x44, value).winv[1] == r.winv[1],
        r.with_half(0x46, value).winv[1] == value && r.with_half(0x46, value).winv[0] == r.winv[0],
        r.with_half(0x48, value).winin % 64 == value % 64,
        r.with_half(0x48, value).winin / 256 % 64 == value / 256 % 64,
        r.with_half(0x4A, value).winout % 64 == value % 64,
        r.with_half(0x4A, value).winout / 256 % 64 == value / 256 % 64,
        r.with_half(0x50, value).bldcnt == value % 0x4000,
        r.with_half(0x52, value).bldalpha % 32 == value % 32,
        r.with_half(0x52, value).bldalpha / 256 % 32 == value / 256 % 32,
        r.with_half(0x54, value).bldy == value % 32,
        r.with_half(0x6C, value).master_bright % 32 == value % 32,
        r.with_half(0x6C, value).master_bright / 0x4000 == value / 0x4000,
{
    lemma2_to64();
    lemma_low_bits_mask_values();
    lemma_field_u16(value, 0, 14);
    lemma_field_u16(value, 0, 5);
    assert((value & 0x3F3F) % 64 == value % 64 && (value & 0x3F3F) / 256 % 64 == value / 256 % 64 && (value
        & 0x1F1F) % 32 == value % 32 && (value & 0x1F1F) / 256 % 32 == value / 256 % 32 && (value & 0xC01F)
        % 32 == value % 32 && (value & 0xC01F) / 0x4000 == value / 0x4000) by (bit_vector);
}

/// The four parameters of each rotated background, signed, from offset `0x20` for BG2 and from `0x30` for
/// BG3.
pub proof fn law_matrix_registers(r: Registers, block: int, i: int, value: u16)
    requires
        0 <= block < 2,
        0 <= i < 4,
    ensures
        ({
            let after = r.with_half((0x20 + 0x10 * block + 2 * i) as u32, value);
            &&& after.bgp[block][i] == (if value < 0x8000 { value as int } else { value - 0x1_0000 })
            &&& forall|j: int| 0 <= j < 4 && j != i ==> #[trigger] after.bgp[block][j] == r.bgp[block][j]
            &&& after.bgp[1 - block] == r.bgp[1 - block]
        }),
{
    crate::bits::lemma_signed(value, 0, 0, 0);
}

/// A reference point is written in two halves, the low one first, and is a signed number of 28 bits; it
/// takes effect at once. BG2's two are at offsets `0x28` and `0x2C`, and BG3's at `0x38` and `0x3C`.
pub proof fn law_reference_points_are_signed(r: Registers, block: int, low: u16, high: u16)
    requires
        0 <= block < 2,
    ensures
        ({
            let at = 0x28 + 0x10 * block;
            let x = r.with_half(at as u32, low).with_half((at + 2) as u32, high);
            let y = r.with_half((at + 4) as u32, low).with_half((at + 6) as u32, high);
            let word = low + 0x1_0000 * (high % 0x1000);
            let value = if word < 0x800_0000 { word } else { word - 0x1000_0000 };
            &&& x.bgx[block] == value && x.bgx_internal[block] == value
            &&& y.bgy[block] == value && y.bgy_internal[block] == value
            &&& x.bgy == r.bgy && y.bgx == r.bgx
            &&& x.bgx[1 - block] == r.bgx[1 - block]
        }),
{
    lemma_reference(r.bgx[block] as u32, low, high);
    lemma_reference(r.bgy[block] as u32, low, high);
}

proof fn lemma_reference(before: u32, low: u16, high: u16)
    ensures
        ({
            let first = super::extended_28(super::spliced(before, false, low));
            let both = super::extended_28(super::spliced(first as u32, true, high));
            let word = low + 0x1_0000 * (high % 0x1000);
            both == (if word < 0x800_0000 { word } else { word - 0x1000_0000 })
        }),
{
    let first = ((((before & 0xFFFF_0000) | low as u32) & 0x0FFF_FFFF) << 4) as i32 >> 4;
    let both = ((((first as u32 & 0xFFFF) | ((high as u32) << 16)) & 0x0FFF_FFFF) << 4) as i32 >> 4;
    let kept = high % 0x1000;
    assert(first == ((((before & 0xFFFF_0000) | low as u32) & 0x0FFF_FFFF) << 4) as i32 >> 4 && both == ((((
    first as u32 & 0xFFFF) | ((high as u32) << 16)) & 0x0FFF_FFFF) << 4) as i32 >> 4 && kept == high % 0x1000
        ==> (kept < 0x800 ==> both == low + 0x1_0000 * kept) && (kept >= 0x800 ==> both == low + 0x1_0000
        * kept - 0x1000_0000)) by (bit_vector);
}

/// A line of pixels goes out as four bytes each: red, green, blue and opacity.
pub proof fn law_pixels_are_four_bytes(out: Seq<u8>, x: int, color: crate::color::Rgba8)
    requires
        super::pixel_written(out, x, color),
    ensures
        out[4 * x] == color.r,
        out[4 * x + 1] == color.g,
        out[4 * x + 2] == color.b,
        out[4 * x + 3] == color.a,
{
}

/// Engine A's registers begin at `0x0400_0000` and engine B's 4 KiB on, and a write elsewhere changes
/// nothing.
pub proof fn law_engines_have_their_own_registers(r: Registers, offset: u32, value: u16)
    requires
        offset < 0x70,
        offset % 2 == 0,
    ensures
        ({
            let base = if r.engine == Engine::A { 0x0400_0000u32 } else { 0x0400_1000u32 };
            let other = if r.engine == Engine::A { 0x0400_1000u32 } else { 0x0400_0000u32 };
            &&& r.written((base + offset) as u32, value) == r.with_half(offset, value)
            &&& r.written((other + offset) as u32, value) == r
        }),
{
}

} // verus!
