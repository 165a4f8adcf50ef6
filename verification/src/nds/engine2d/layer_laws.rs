//! Which layers there are, which of them is in front, and what the screen makes of them.

use vstd::arithmetic::power2::lemma2_to64;
use vstd::bits::lemma_low_bits_mask_values;
use vstd::prelude::*;
use super::background::{kind_of, BackgroundKind};
use super::objects::{object_of, Object};
use super::screen_laws::{
    affine_place, background_ink, background_space, digit, lemma_affine_place, lemma_bases,
    lemma_entry, lemma_ink, map_at, on_map, tile_pixel, tiles_at,
};
use super::{layer_of, next_visible, shows, Engine, LinePixel, Registers};
use crate::bits::{
    lemma_bit_u16, lemma_bit_u32, lemma_field_u16, lemma_field_u32, lemma_flag_u16, lemma_flag_u32,
    lemma_middle_fields,
};
use crate::color::{rgba_of, Rgba8};
use crate::nds::gpu3d::render::FrameState;
use crate::nds::vram::{Vram, VramSpace};

verus! {

/// A rotated layer with halfwords in its map shows the tile that the map names where the matrix lands,
/// mirrored and coloured as the entry says.
#[verifier::rlimit(60)]
pub proof fn law_extended_layers_show_their_tiles(
    r: Registers,
    layer: int,
    x: int,
    vram: Vram,
    palette: Seq<u8>,
)
    requires
        2 <= layer < 4,
        0 <= x < 256,
        palette.len() == 0x800,
        -0x7000_0000 <= r.bgx_internal[layer - 2] <= 0x7000_0000,
        -0x7000_0000 <= r.bgy_internal[layer - 2] <= 0x7000_0000,
    ensures
        ({
            let size = r.bgcnt[layer] / 0x4000;
            let tiles = if size == 0 {
                16int
            } else if size == 1 {
                32
            } else if size == 2 {
                64
            } else {
                128
            };
            r.affine_color(layer, x, vram, palette, true) == (match on_map(
                affine_place(r, layer - 2, x),
                8 * tiles,
                8 * tiles,
                r.bgcnt[layer] / 0x2000 % 2 == 1,
            ) {
                None => None,
                Some((px, py)) => {
                    let entry = vram.half(
                        background_space(r.engine),
                        (map_at(r, layer) + 2 * ((py / 8) * tiles + px / 8)) as u32,
                    ) as int;
                    let number = tile_pixel(
                        vram,
                        background_space(r.engine),
                        tiles_at(r, layer),
                        true,
                        entry % 1024,
                        if entry / 1024 % 2 == 1 { 7 - px % 8 } else { px % 8 },
                        if entry / 2048 % 2 == 1 { 7 - py % 8 } else { py % 8 },
                    );
                    if number == 0 {
                        None
                    } else {
                        Some(background_ink(r, layer, vram, palette, true, entry / 4096, number))
                    }
                },
            })
        }),
{
    lemma2_to64();
    lemma_low_bits_mask_values();
    lemma_bases(r, layer);
    lemma_field_u16(r.bgcnt[layer], 14, 2);
    lemma_flag_u16(r.bgcnt[layer], 0x2000, 13);
    lemma_affine_place(r, layer - 2, x);
    let tiles = r.affine_tiles(layer);
    let wraps = r.bgcnt[layer] / 0x2000 % 2 == 1;
    match on_map(affine_place(r, layer - 2, x), 8 * tiles, 8 * tiles, wraps) {
        None => {},
        Some((px, py)) => {
            let entry = vram.half(
                background_space(r.engine),
                (map_at(r, layer) + 2 * ((py / 8) * tiles + px / 8)) as u32,
            );
            lemma_entry(entry);
            let column = if entry / 1024 % 2 == 1 { 7 - px % 8 } else { px % 8 };
            let row = if entry / 2048 % 2 == 1 { 7 - py % 8 } else { py % 8 };
            let index = vram.byte(
                background_space(r.engine),
                (tiles_at(r, layer) + 64 * (entry % 1024) + 8 * row + column) as u32,
            );
            lemma_ink(r, layer, vram, palette, entry as int / 4096, index as int);
        },
    }
}

/// The kind of each layer, mode by mode: BG0 and BG1 are text but for mode 6; BG2 is text in modes 0, 1
/// and 3, rotated in 2 and 4, and extended in 5; BG3 is text in mode 0, rotated in 1 and 2, and extended
/// from 3 to 5. Bit 3 makes engine A's BG0 the 3D layer.
pub proof fn law_modes_make_layers(engine: Engine, mode: u32, d: u32, c: u16)
    requires
        mode <= 5,
    ensures
        ({
            let extended = if c / 128 % 2 == 0 {
                BackgroundKind::ExtendedRotscale
            } else if c / 4 % 2 == 0 {
                BackgroundKind::ExtendedBitmap
            } else {
                BackgroundKind::ExtendedDirectBitmap
            };
            let three_d = engine == Engine::A && d / 8 % 2 == 1;
            &&& kind_of(engine, mode, 0, d, c) == (if three_d {
                BackgroundKind::ThreeD
            } else {
                BackgroundKind::Text
            })
            &&& kind_of(engine, mode, 1, d, c) == BackgroundKind::Text
            &&& mode == 0 || mode == 1 || mode == 3 ==> kind_of(engine, mode, 2, d, c)
                == BackgroundKind::Text
            &&& mode == 2 || mode == 4 ==> kind_of(engine, mode, 2, d, c) == BackgroundKind::Affine
            &&& mode == 5 ==> kind_of(engine, mode, 2, d, c) == extended
            &&& mode == 0 ==> kind_of(engine, mode, 3, d, c) == BackgroundKind::Text
            &&& mode == 1 || mode == 2 ==> kind_of(engine, mode, 3, d, c) == BackgroundKind::Affine
            &&& mode >= 3 ==> kind_of(engine, mode, 3, d, c) == extended
        }),
{
    lemma2_to64();
    lemma_flag_u32(d, 8, 3);
    lemma_flag_u16(c, 0x80, 7);
    lemma_flag_u16(c, 4, 2);
}

/// A layer that is on shows its colour at the priority in its control register; one that is off shows
/// nothing. The display control's low three bits choose the kind of layer, and the bits from 8 on switch
/// the layers on.
#[verifier::rlimit(60)]
pub proof fn law_layers_bring_their_priority(
    r: Registers,
    layer: int,
    line: u32,
    x: int,
    vram: Vram,
    palette: Seq<u8>,
)
    requires
        0 <= layer < 4,
        layer > 0 || r.engine != Engine::A || r.dispcnt / 8 % 2 == 0,
    ensures
        ({
            let on = r.dispcnt as int / (if layer == 0 {
                0x100int
            } else if layer == 1 {
                0x200
            } else if layer == 2 {
                0x400
            } else {
                0x800
            }) % 2 == 1;
            let p = r.background_pixel(layer, line, x, vram, palette, None);
            let kind = kind_of(
                r.engine,
                (r.dispcnt % 8) as u32,
                layer,
                r.dispcnt,
                r.bgcnt[layer],
            );
            let color = match kind {
                BackgroundKind::Text => r.text_color(layer, line, x, vram, palette),
                BackgroundKind::Affine => r.affine_color(layer, x, vram, palette, false),
                BackgroundKind::ExtendedRotscale => r.affine_color(layer, x, vram, palette, true),
                BackgroundKind::ExtendedBitmap => r.bitmap_color(layer, x, vram, palette, false),
                BackgroundKind::ExtendedDirectBitmap => r.bitmap_color(layer, x, vram, palette, true),
                _ => None,
            };
            if on && color is Some {
                p.opaque && p.color == color->0 && p.priority == r.bgcnt[layer] % 4 && !p.semi_transparent
                    && p.alpha_3d == 0
            } else {
                !p.opaque
            }
        }),
{
    lemma_switched_on(r, layer);
    lemma2_to64();
    lemma_low_bits_mask_values();
    lemma_field_u32(r.dispcnt, 0, 3);
    lemma_flag_u32(r.dispcnt, 8, 3);
    lemma_field_u16(r.bgcnt[layer], 0, 2);
    let color = r.background_color(layer, line, x, vram, palette);
    let p = r.background_pixel(layer, line, x, vram, palette, None);
    assert(r.layer_enabled(layer) && color is Some ==> p.opaque && p.color == color->0);
}

/// The switches of the four layers.
proof fn lemma_switched_on(r: Registers, layer: int)
    requires
        0 <= layer < 4,
    ensures
        r.layer_enabled(layer) == (r.dispcnt as int / (if layer == 0 {
            0x100int
        } else if layer == 1 {
            0x200
        } else if layer == 2 {
            0x400
        } else {
            0x800
        }) % 2 == 1),
{
    lemma2_to64();
    lemma_low_bits_mask_values();
    lemma_middle_fields(r.dispcnt);
    lemma_field_u32(r.dispcnt, 8, 4);
    lemma_bit_u32((r.dispcnt >> 8) & 0xF, layer as u32);
    let d = r.dispcnt as int;
    if layer == 0 {
        assert(d / 0x100 % 16 % 2 == d / 0x100 % 2);
    } else if layer == 1 {
        assert(d / 0x100 % 16 / 2 % 2 == d / 0x200 % 2);
    } else if layer == 2 {
        assert(d / 0x100 % 16 / 4 % 2 == d / 0x400 % 2);
    } else {
        assert(d / 0x100 % 16 / 8 % 2 == d / 0x800 % 2);
    }
}

/// How far back a layer lies: by its priority, and within one the sprites in front of the backgrounds
/// and those in order.
pub open spec fn depth_of(pixels: Seq<LinePixel>, layer: int) -> int {
    5 * pixels[layer].priority + (if layer == 4 { 0 } else { layer + 1 })
}

/// A layer is there and the window lets it through.
pub open spec fn seen(pixels: Seq<LinePixel>, control: u16, layer: int) -> bool {
    pixels[layer].opaque && pixels[layer].priority <= 3 && digit(control, layer)
}

proof fn lemma_place(pixels: Seq<LinePixel>, control: u16, n: int)
    requires
        0 <= n < 20,
    ensures
        0 <= layer_of(n) <= 4,
        shows(pixels, control, n) == (seen(pixels, control, layer_of(n)) && depth_of(
            pixels,
            layer_of(n),
        ) == n),
{
    lemma2_to64();
    lemma_bit_u16(control, layer_of(n) as u16);
}

proof fn lemma_seen(pixels: Seq<LinePixel>, control: u16, layer: int)
    requires
        0 <= layer <= 4,
        seen(pixels, control, layer),
    ensures
        0 <= depth_of(pixels, layer) < 20,
        layer_of(depth_of(pixels, layer)) == layer,
        shows(pixels, control, depth_of(pixels, layer)),
{
    let n = depth_of(pixels, layer);
    assert(n % 5 == (if layer == 4 { 0 } else { layer + 1 }));
    lemma_place(pixels, control, n);
}

/// The next place from `start` on is the layer that lies least far back.
proof fn lemma_next(pixels: Seq<LinePixel>, control: u16, start: int, n: int)
    requires
        0 <= start <= n < 20,
        shows(pixels, control, n),
        forall|m: int| start <= m < n ==> !#[trigger] shows(pixels, control, m),
    ensures
        next_visible(pixels, control, start) == Some(n),
    decreases n - start,
{
    if start < n {
        assert(!shows(pixels, control, start));
        lemma_next(pixels, control, start + 1, n);
    }
}

proof fn lemma_none(pixels: Seq<LinePixel>, control: u16, start: int)
    requires
        0 <= start <= 20,
        forall|m: int| start <= m < 20 ==> !#[trigger] shows(pixels, control, m),
    ensures
        next_visible(pixels, control, start) is None,
    decreases 20 - start,
{
    if start < 20 {
        assert(!shows(pixels, control, start));
        lemma_none(pixels, control, start + 1);
    }
}

/// The two layers that lie least far back make the pixel, the front one over the other.
pub proof fn law_the_two_front_layers_make_the_pixel(
    r: Registers,
    pixels: Seq<LinePixel>,
    control: u16,
    backdrop: u16,
    front: int,
    behind: int,
)
    requires
        0 <= front <= 4,
        0 <= behind <= 4,
        front != behind,
        seen(pixels, control, front),
        seen(pixels, control, behind),
        depth_of(pixels, front) < depth_of(pixels, behind),
        forall|other: int|
            0 <= other <= 4 && other != front && other != behind && #[trigger] seen(
                pixels,
                control,
                other,
            ) ==> depth_of(pixels, other) > depth_of(pixels, behind),
    ensures
        r.composed(pixels, control, backdrop) == r.mixed(
            front,
            pixels[front],
            behind,
            pixels[behind].color,
            digit(control, 5),
        ),
{
    let n = depth_of(pixels, front);
    let m = depth_of(pixels, behind);
    lemma_seen(pixels, control, front);
    lemma_seen(pixels, control, behind);
    assert forall|k: int| 0 <= k < m && k != n implies !#[trigger] shows(pixels, control, k) by {
        lemma_place(pixels, control, k);
        assert(!seen(pixels, control, layer_of(k)) || depth_of(pixels, layer_of(k)) != k);
    }
    lemma_next(pixels, control, 0, n);
    lemma_next(pixels, control, n + 1, m);
    lemma2_to64();
    lemma_flag_u16(control, 0x20, 5);
}

/// A layer with no other behind it lies over the backdrop, which is a layer of its own to the colour
/// effects; and where there is none the backdrop shows.
pub proof fn law_the_backdrop_lies_behind(
    r: Registers,
    pixels: Seq<LinePixel>,
    control: u16,
    backdrop: u16,
    front: int,
)
    requires
        0 <= front <= 4,
        forall|other: int|
            0 <= other <= 4 && other != front ==> !#[trigger] seen(pixels, control, other),
    ensures
        seen(pixels, control, front) ==> r.composed(pixels, control, backdrop) == r.mixed(
            front,
            pixels[front],
            5,
            backdrop,
            digit(control, 5),
        ),
        !seen(pixels, control, front) && r.bldcnt == 0 ==> r.composed(pixels, control, backdrop)
            == backdrop,
{
    let n = depth_of(pixels, front);
    assert forall|k: int| 0 <= k < 20 && !(seen(pixels, control, front) && k == n) implies !#[trigger] shows(
        pixels,
        control,
        k,
    ) by {
        lemma_place(pixels, control, k);
        assert(layer_of(k) == front || !seen(pixels, control, layer_of(k)));
    }
    lemma2_to64();
    lemma_low_bits_mask_values();
    lemma_flag_u16(control, 0x20, 5);
    if seen(pixels, control, front) {
        lemma_seen(pixels, control, front);
        lemma_next(pixels, control, 0, n);
        lemma_none(pixels, control, n + 1);
    } else {
        lemma_none(pixels, control, 0);
        lemma_field_u16(0, 6, 2);
        if r.bldcnt == 0 {
            super::screen_laws::law_the_colour_effect(
                r,
                5,
                LinePixel {
                    color: backdrop,
                    opaque: true,
                    priority: 3,
                    semi_transparent: false,
                    alpha_3d: 0,
                },
                5,
                backdrop,
                digit(control, 5),
            );
        }
    }
}

/// The display modes: off shows white and so does a forced blank; mode 2 of engine A shows one of four
/// banks as a picture of halfwords, row by row; and mode 3 of engine A shows black.
pub proof fn law_display_modes(
    r: Registers,
    line: u32,
    x: int,
    vram: Vram,
    palette: Seq<u8>,
    oam: Seq<u8>,
    three_d: Option<FrameState>,
)
    requires
        line < 192,
        0 <= x < 256,
    ensures
        ({
            let mode = r.dispcnt / 0x1_0000 % 4;
            let blank = r.dispcnt / 128 % 2 == 1;
            let shown = r.shown(line, x, vram, palette, oam, three_d);
            &&& mode == 0 || blank ==> shown == Rgba8::rgb(255, 255, 255)
            &&& mode == 2 && !blank && r.engine == Engine::A ==> shown == rgba_of(
                r.mastered(
                    vram.half(
                        VramSpace::Lcdc,
                        (0x2_0000 * (r.dispcnt / 0x4_0000 % 4) + 2 * (256 * line + x)) as u32,
                    ),
                ),
            )
            &&& mode == 3 && !blank && r.engine == Engine::A ==> shown == Rgba8::rgb(0, 0, 0)
        }),
{
    lemma2_to64();
    lemma_low_bits_mask_values();
    lemma_middle_fields(r.dispcnt);
    lemma_field_u32(r.dispcnt, 16, 2);
    lemma_field_u32(r.dispcnt, 18, 2);
    lemma_flag_u32(r.dispcnt, 0x80, 7);
}

/// From line to line a rotated layer's reference point moves by the second column of its matrix.
pub proof fn law_reference_points_move_down(r: Registers, block: int)
    requires
        0 <= block < 2,
        -0x7000_0000 <= r.bgx_internal[block] <= 0x7000_0000,
        -0x7000_0000 <= r.bgy_internal[block] <= 0x7000_0000,
    ensures
        r.after_line().bgx_internal[block] == r.bgx_internal[block] + r.bgp[block][1],
        r.after_line().bgy_internal[block] == r.bgy_internal[block] + r.bgp[block][3],
        r.after_line().bgx == r.bgx && r.after_line().bgy == r.bgy,
{
}

/// The `k`-th entry of this engine's half of the sprite table.
pub open spec fn sprite(r: Registers, oam: Seq<u8>, k: int) -> Option<Object> {
    object_of(oam, if r.engine == Engine::A { 0 } else { 0x400 }, k)
}

/// The `k`-th sprite gives a column a colour.
pub open spec fn covers(
    r: Registers,
    line: u32,
    x: int,
    vram: Vram,
    palette: Seq<u8>,
    oam: Seq<u8>,
    k: int,
) -> bool {
    match sprite(r, oam, k) {
        None => false,
        Some(o) => o.mode != 2 && r.object_at(o, line, x, vram, palette, oam) is Some,
    }
}

/// The `k`-th sprite marks a column as inside the object window.
pub open spec fn marks(
    r: Registers,
    line: u32,
    x: int,
    vram: Vram,
    palette: Seq<u8>,
    oam: Seq<u8>,
    k: int,
) -> bool {
    match sprite(r, oam, k) {
        None => false,
        Some(o) => o.mode == 2 && r.object_at(o, line, x, vram, palette, oam) is Some,
    }
}

/// One entry more, the one in front of those drawn so far.
proof fn lemma_one_more(
    r: Registers,
    line: u32,
    x: int,
    vram: Vram,
    palette: Seq<u8>,
    oam: Seq<u8>,
    n: nat,
)
    requires
        1 <= n <= 128,
    ensures
        ({
            let before = r.objects(line, x, vram, palette, oam, (n - 1) as nat);
            let after = r.objects(line, x, vram, palette, oam, n);
            &&& after.1 == (before.1 || marks(r, line, x, vram, palette, oam, 128 - n))
            &&& !covers(r, line, x, vram, palette, oam, 128 - n) ==> after.0 == before.0
            &&& covers(r, line, x, vram, palette, oam, 128 - n) ==> {
                let o = sprite(r, oam, 128 - n)->0;
                after.0.opaque && Some(after.0.color) == r.object_at(o, line, x, vram, palette, oam)
                    && after.0.priority == o.priority && after.0.semi_transparent == (o.mode == 1)
            }
        }),
{
    assert(object_of(oam, r.engine.block_offset() as int, 128 - n) == sprite(r, oam, 128 - n));
}

/// Among sprites the one with the lower number lies in front, whatever their priorities: the first of the
/// table that shows at a column gives it its colour and priority.
pub proof fn law_lower_sprites_lie_in_front(
    r: Registers,
    line: u32,
    x: int,
    vram: Vram,
    palette: Seq<u8>,
    oam: Seq<u8>,
    n: nat,
    k: int,
)
    requires
        n <= 128,
        128 - n <= k < 128,
        covers(r, line, x, vram, palette, oam, k),
        forall|j: int|
            128 - n <= j < k ==> !#[trigger] covers(r, line, x, vram, palette, oam, j),
    ensures
        ({
            let o = sprite(r, oam, k)->0;
            let p = r.objects(line, x, vram, palette, oam, n).0;
            &&& p.opaque
            &&& Some(p.color) == r.object_at(o, line, x, vram, palette, oam)
            &&& p.priority == o.priority
            &&& p.semi_transparent == (o.mode == 1)
        }),
    decreases n,
{
    lemma_one_more(r, line, x, vram, palette, oam, n);
    if k > 128 - n {
        assert(!covers(r, line, x, vram, palette, oam, 128 - n));
        law_lower_sprites_lie_in_front(r, line, x, vram, palette, oam, (n - 1) as nat, k);
    }
}

/// A column lies in the object window exactly if some window sprite shows there.
pub proof fn law_window_sprites_mark_the_window(
    r: Registers,
    line: u32,
    x: int,
    vram: Vram,
    palette: Seq<u8>,
    oam: Seq<u8>,
    n: nat,
)
    requires
        n <= 128,
    ensures
        r.objects(line, x, vram, palette, oam, n).1 == (exists|k: int|
            128 - n <= k < 128 && #[trigger] marks(r, line, x, vram, palette, oam, k)),
    decreases n,
{
    if n > 0 {
        law_window_sprites_mark_the_window(r, line, x, vram, palette, oam, (n - 1) as nat);
        lemma_one_more(r, line, x, vram, palette, oam, n);
        if marks(r, line, x, vram, palette, oam, 128 - n) {
            assert(128 - n <= 128 - n < 128);
        }
    }
}

} // verus!
