//! Background layers: text, affine, and the three extended types.
//!
//! Which kind each of the four layers is depends on the background mode *and* on two bits of
//! `BGxCNT` whose meaning changes with it. [`BackgroundKind::of`] holds the whole table.

use vstd::prelude::*;
use crate::nds::video::SCREEN_WIDTH;
use crate::nds::vram::Vram;
use super::{dispcnt, palette_color, read_palette, Engine, LinePixel, Registers, LAST_LINE};

verus! {

/// What a background layer currently is.
#[derive(Debug, Clone, Copy, PartialEq, Eq, Structural)]
pub enum BackgroundKind {
    /// Scrolling tilemap, 4 or 8 bits per pixel.
    Text,
    /// Rotated and scaled tilemap with 8-bit map entries and 8bpp tiles.
    Affine,
    /// Rotated and scaled tilemap with 16-bit map entries, so it keeps flips and palettes.
    ExtendedRotscale,
    /// A rotated and scaled 8-bit paletted bitmap.
    ExtendedBitmap,
    /// A rotated and scaled 15-bit direct-colour bitmap.
    ExtendedDirectBitmap,
    /// Engine A's mode 6 BG2, which is not drawn.
    LargeBitmap,
    /// Engine A's BG0 when `DISPCNT` bit 3 is set.
    ThreeD,
    /// This layer does not exist in this mode.
    Absent,
}

/// Which of the three extended types a layer is.
pub open spec fn extended_kind(bgcnt: u16) -> BackgroundKind {
    if bgcnt & 0x80 == 0 {
        BackgroundKind::ExtendedRotscale
    } else if bgcnt & 0x04 == 0 {
        BackgroundKind::ExtendedBitmap
    } else {
        BackgroundKind::ExtendedDirectBitmap
    }
}

/// The whole mode table.
pub open spec fn kind_of(
    engine: Engine,
    mode: u32,
    layer: int,
    dispcnt_value: u32,
    bgcnt: u16,
) -> BackgroundKind {
    if layer == 0 && engine == Engine::A && (dispcnt_value & dispcnt::BG0_IS_3D != 0 || mode == 6) {
        BackgroundKind::ThreeD
    } else if mode == 6 {
        if layer == 2 && engine == Engine::A {
            BackgroundKind::LargeBitmap
        } else {
            BackgroundKind::Absent
        }
    } else if layer <= 1 {
        BackgroundKind::Text
    } else if layer == 2 {
        if mode == 0 || mode == 1 || mode == 3 {
            BackgroundKind::Text
        } else if mode == 2 || mode == 4 {
            BackgroundKind::Affine
        } else {
            extended_kind(bgcnt)
        }
    } else {
        if mode == 0 {
            BackgroundKind::Text
        } else if mode == 1 || mode == 2 {
            BackgroundKind::Affine
        } else {
            extended_kind(bgcnt)
        }
    }
}

impl BackgroundKind {
    /// The whole mode table.
    ///
    /// `mode` is `DISPCNT`'s low three bits, `bgcnt` the layer's own control register.
    pub fn of(engine: Engine, mode: u32, layer: usize, dispcnt_value: u32, bgcnt: u16) -> (r: Self)
        ensures
            r == kind_of(engine, mode, layer as int, dispcnt_value, bgcnt),
    {
        // BG0 becomes the 3D layer whatever the mode says, and only on engine A.
        if layer == 0 && engine == Engine::A && dispcnt_value & dispcnt::BG0_IS_3D != 0 {
            return BackgroundKind::ThreeD;
        }
        if mode == 6 {
            return match (engine, layer) {
                (Engine::A, 0) => BackgroundKind::ThreeD,
                (Engine::A, 2) => BackgroundKind::LargeBitmap,
                _ => BackgroundKind::Absent,
            };
        }
        match layer {
            0 => BackgroundKind::Text,
            1 => BackgroundKind::Text,
            2 => match mode {
                0 => BackgroundKind::Text,
                1 => BackgroundKind::Text,
                3 => BackgroundKind::Text,
                2 => BackgroundKind::Affine,
                4 => BackgroundKind::Affine,
                _ => BackgroundKind::extended(bgcnt),
            },
            _ => match mode {
                0 => BackgroundKind::Text,
                1 => BackgroundKind::Affine,
                2 => BackgroundKind::Affine,
                _ => BackgroundKind::extended(bgcnt),
            },
        }
    }

    /// Which of the three extended types a layer is, from two bits of `BGxCNT` that mean
    /// something else entirely in every other mode.
    fn extended(bgcnt: u16) -> (r: Self)
        ensures
            r == extended_kind(bgcnt),
    {
        if bgcnt & 0x80 == 0 {
            BackgroundKind::ExtendedRotscale
        } else if bgcnt & 0x04 == 0 {
            BackgroundKind::ExtendedBitmap
        } else {
            BackgroundKind::ExtendedDirectBitmap
        }
    }
}

/// Byte offset of a tilemap cell in a text background, which is made of 32x32 blocks laid out
/// left to right and then top to bottom.
pub open spec fn cell_offset(map_w: int, tile_x: int, tile_y: int) -> int {
    (tile_x / 32 + tile_y / 32 * (map_w / 32)) * 0x800 + tile_y % 32 * 64 + tile_x % 32 * 2
}

/// Byte offset of a tilemap cell in a text background.
pub fn map_offset(map_w: u32, tile_x: u32, tile_y: u32) -> (r: u32)
    requires
        cell_offset(map_w as int, tile_x as int, tile_y as int) <= u32::MAX,
    ensures
        r == cell_offset(map_w as int, tile_x as int, tile_y as int),
{
    assert(0 <= tile_y as int / 32 * (map_w as int / 32)) by (nonlinear_arith);
    let block: u32 = tile_x / 32 + tile_y / 32 * (map_w / 32);
    block * 0x800 + tile_y % 32 * 64 + tile_x % 32 * 2
}

/// A coordinate folded into a map that wraps, or rejected by one that does not.
pub open spec fn folded(px: int, py: int, width: int, height: int, wrap: bool) -> Option<(int, int)> {
    if wrap {
        Some((px % width, py % height))
    } else if 0 <= px < width && 0 <= py < height {
        Some((px, py))
    } else {
        None
    }
}

/// The remainder of a signed word by a power of two.
fn wrap_coordinate(p: i32, size: u32) -> (r: u32)
    requires
        1 <= size <= 1024,
    ensures
        r == p as int % size as int,
        r < size,
{
    crate::arith::modulo(p as i64, size as i64) as u32
}

/// Fold a transformed coordinate into a map, or reject it when the map does not wrap.
fn fold_rect(px: i32, py: i32, width: u32, height: u32, wrap: bool) -> (r: Option<(u32, u32)>)
    requires
        1 <= width <= 1024,
        1 <= height <= 1024,
    ensures
        match r {
            None => folded(px as int, py as int, width as int, height as int, wrap) is None,
            Some((sx, sy)) => {
                &&& folded(px as int, py as int, width as int, height as int, wrap) == Some(
                    (sx as int, sy as int),
                )
                &&& sx < width
                &&& sy < height
            },
        },
{
    if wrap {
        Some((wrap_coordinate(px, width), wrap_coordinate(py, height)))
    } else if px < 0 || py < 0 || px as u32 >= width || py as u32 >= height {
        None
    } else {
        Some((px as u32, py as u32))
    }
}

impl Registers {
    /// Base of a layer's tile data, including engine A's `DISPCNT` offset.
    pub open spec fn char_base(self, layer: int) -> int {
        ((self.bgcnt[layer] >> 2) & 0x0F) * 0x4000 + match self.engine {
            Engine::A => ((self.dispcnt & dispcnt::CHAR_BASE) >> 24) * 0x1_0000,
            Engine::B => 0,
        }
    }

    /// Base of a layer's tilemap, including engine A's `DISPCNT` offset.
    pub open spec fn screen_base(self, layer: int) -> int {
        ((self.bgcnt[layer] >> 8) & 0x1F) * 0x800 + match self.engine {
            Engine::A => ((self.dispcnt & dispcnt::SCREEN_BASE) >> 27) * 0x1_0000,
            Engine::B => 0,
        }
    }

    /// The extended-palette slot a layer reads, or `None` when extended palettes are off.
    pub open spec fn ext_palette_slot(self, layer: int) -> Option<int> {
        if self.dispcnt & dispcnt::BG_EXT_PALETTE == 0 {
            None
        } else if layer <= 1 && self.bgcnt[layer] & 0x2000 != 0 {
            Some(layer + 2)
        } else {
            Some(layer)
        }
    }

    /// The colour of an 8bpp background pixel, from the extended palette or palette RAM.
    pub open spec fn color_8bpp(
        self,
        vram: Vram,
        palette: Seq<u8>,
        layer: int,
        entry_palette: int,
        index: int,
    ) -> u16 {
        match self.ext_palette_slot(layer) {
            Some(slot) => vram.half(
                self.engine.bg_ext_pal_space(),
                (slot * 0x2000 + (entry_palette * 256 + index) * 2) as u32,
            ),
            None => palette_color(palette, self.engine.block_offset() as int, index),
        }
    }

    /// The width in tiles of a text layer's map.
    pub open spec fn text_width(self, layer: int) -> int {
        let size = (self.bgcnt[layer] >> 14) & 3;
        if size == 1 || size == 3 { 64 } else { 32 }
    }

    /// The height in tiles of a text layer's map.
    pub open spec fn text_height(self, layer: int) -> int {
        let size = (self.bgcnt[layer] >> 14) & 3;
        if size == 2 || size == 3 { 64 } else { 32 }
    }

    /// What a text layer shows at a pixel: nothing where its tile has index zero.
    pub open spec fn text_color(
        self,
        layer: int,
        line: u32,
        x: int,
        vram: Vram,
        palette: Seq<u8>,
    ) -> Option<u16> {
        let space = self.engine.bg_space();
        let sx = (x + self.bghofs[layer]) % (self.text_width(layer) * 8);
        let sy = (line + self.bgvofs[layer]) % (self.text_height(layer) * 8);
        let entry = vram.half(
            space,
            (self.screen_base(layer) + cell_offset(self.text_width(layer), sx / 8, sy / 8)) as u32,
        );
        let row = if entry & 0x800 != 0 { 7 - sy % 8 } else { sy % 8 };
        let column = if entry & 0x400 != 0 { 7 - sx % 8 } else { sx % 8 };
        let tile = (entry & 0x3FF) as int;
        let entry_palette = (entry >> 12) as int;
        if self.bgcnt[layer] & 0x80 != 0 {
            let index = vram.byte(
                space,
                (self.char_base(layer) + tile * 64 + row * 8 + column) as u32,
            );
            if index == 0 {
                None
            } else {
                Some(self.color_8bpp(vram, palette, layer, entry_palette, index as int))
            }
        } else {
            let pair = vram.byte(
                space,
                (self.char_base(layer) + tile * 32 + row * 4 + column / 2) as u32,
            );
            let index = if column % 2 == 0 { pair & 0xF } else { pair >> 4 };
            if index == 0 {
                None
            } else {
                Some(
                    palette_color(
                        palette,
                        self.engine.block_offset() as int,
                        entry_palette * 16 + index,
                    ),
                )
            }
        }
    }

    /// Where in its map an affine layer's column `x` falls.
    pub open spec fn affine_point(self, block: int, x: int) -> (int, int) {
        (
            (self.bgx_internal[block].wrapping_add((self.bgp[block][0] * x) as i32) >> 8) as int,
            (self.bgy_internal[block].wrapping_add((self.bgp[block][2] * x) as i32) >> 8) as int,
        )
    }

    /// The side in tiles of an affine layer's map.
    pub open spec fn affine_tiles(self, layer: int) -> int {
        let size = (self.bgcnt[layer] >> 14) & 3;
        if size == 0 {
            16
        } else if size == 1 {
            32
        } else if size == 2 {
            64
        } else {
            128
        }
    }

    /// What an affine layer shows at a pixel. With wide entries the map holds flips and palettes.
    pub open spec fn affine_color(
        self,
        layer: int,
        x: int,
        vram: Vram,
        palette: Seq<u8>,
        wide: bool,
    ) -> Option<u16> {
        let space = self.engine.bg_space();
        let tiles = self.affine_tiles(layer);
        let (px, py) = self.affine_point(layer - 2, x);
        match folded(px, py, tiles * 8, tiles * 8, self.bgcnt[layer] & 0x2000 != 0) {
            None => None,
            Some((sx, sy)) => {
                let cell = sy / 8 * tiles + sx / 8;
                let entry = if wide {
                    vram.half(space, (self.screen_base(layer) + cell * 2) as u32)
                } else {
                    vram.byte(space, (self.screen_base(layer) + cell) as u32) as u16
                };
                let tile = if wide { (entry & 0x3FF) as int } else { entry as int };
                let row = if wide && entry & 0x800 != 0 { 7 - sy % 8 } else { sy % 8 };
                let column = if wide && entry & 0x400 != 0 { 7 - sx % 8 } else { sx % 8 };
                let entry_palette = if wide { (entry >> 12) as int } else { 0 };
                let index = vram.byte(
                    space,
                    (self.char_base(layer) + tile * 64 + row * 8 + column) as u32,
                );
                if index == 0 {
                    None
                } else {
                    Some(self.color_8bpp(vram, palette, layer, entry_palette, index as int))
                }
            },
        }
    }

    /// The width of a bitmap layer.
    pub open spec fn bitmap_width(self, layer: int) -> int {
        let size = (self.bgcnt[layer] >> 14) & 3;
        if size == 0 {
            128
        } else if size == 1 {
            256
        } else {
            512
        }
    }

    /// The height of a bitmap layer.
    pub open spec fn bitmap_height(self, layer: int) -> int {
        let size = (self.bgcnt[layer] >> 14) & 3;
        if size == 0 {
            128
        } else if size == 1 || size == 2 {
            256
        } else {
            512
        }
    }

    /// What a bitmap layer shows at a pixel. The bitmap lives at the screen base, in 16 KiB units.
    pub open spec fn bitmap_color(
        self,
        layer: int,
        x: int,
        vram: Vram,
        palette: Seq<u8>,
        direct: bool,
    ) -> Option<u16> {
        let space = self.engine.bg_space();
        let width = self.bitmap_width(layer);
        let base = ((self.bgcnt[layer] >> 8) & 0x1F) * 0x4000;
        let (px, py) = self.affine_point(layer - 2, x);
        match folded(
            px,
            py,
            width,
            self.bitmap_height(layer),
            self.bgcnt[layer] & 0x2000 != 0,
        ) {
            None => None,
            Some((sx, sy)) => {
                let offset = sy * width + sx;
                if direct {
                    // Bit 15 is the alpha bit.
                    let value = vram.half(space, (base + offset * 2) as u32);
                    if value & 0x8000 != 0 { Some(value & 0x7FFF) } else { None }
                } else {
                    let index = vram.byte(space, (base + offset) as u32);
                    if index == 0 {
                        None
                    } else {
                        Some(
                            palette_color(
                                palette,
                                self.engine.block_offset() as int,
                                index as int,
                            ),
                        )
                    }
                }
            },
        }
    }

    /// What a background layer shows at a pixel.
    pub open spec fn background_color(
        self,
        layer: int,
        line: u32,
        x: int,
        vram: Vram,
        palette: Seq<u8>,
    ) -> Option<u16> {
        match kind_of(
            self.engine,
            self.dispcnt & dispcnt::MODE,
            layer,
            self.dispcnt,
            self.bgcnt[layer],
        ) {
            BackgroundKind::Text => self.text_color(layer, line, x, vram, palette),
            BackgroundKind::Affine => self.affine_color(layer, x, vram, palette, false),
            BackgroundKind::ExtendedRotscale => self.affine_color(layer, x, vram, palette, true),
            BackgroundKind::ExtendedBitmap => self.bitmap_color(layer, x, vram, palette, false),
            BackgroundKind::ExtendedDirectBitmap => self.bitmap_color(
                layer,
                x,
                vram,
                palette,
                true,
            ),
            _ => None,
        }
    }

    fn tile_data_base(&self, layer: usize) -> (r: u32)
        requires
            layer < 4,
        ensures
            r == self.char_base(layer as int),
            r <= 0xB_0000,
    {
        broadcast use crate::bits::lemma_and_bound_u16;

        let block = ((self.bgcnt[layer] >> 2) & 0x0F) as u32 * 0x4000;
        let d = self.dispcnt;
        proof {
            crate::bits::lemma_middle_fields(d);
        }
        let offset: u32 = match self.engine {
            Engine::A => ((d & dispcnt::CHAR_BASE) >> 24) * 0x1_0000,
            Engine::B => 0,
        };
        block + offset
    }

    fn tilemap_base(&self, layer: usize) -> (r: u32)
        requires
            layer < 4,
        ensures
            r == self.screen_base(layer as int),
            r <= 0x8_0000,
    {
        broadcast use crate::bits::lemma_and_bound_u16;

        let block = ((self.bgcnt[layer] >> 8) & 0x1F) as u32 * 0x800;
        let d = self.dispcnt;
        proof {
            crate::bits::lemma_middle_fields(d);
        }
        let offset: u32 = match self.engine {
            Engine::A => ((d & dispcnt::SCREEN_BASE) >> 27) * 0x1_0000,
            Engine::B => 0,
        };
        block + offset
    }

    /// Look up a colour for an 8bpp background pixel, from either the extended palette or
    /// palette RAM.
    fn bg_color_8bpp(
        &self,
        vram: &Vram,
        palette: &[u8],
        layer: usize,
        entry_palette: u32,
        index: u8,
    ) -> (r: u16)
        requires
            layer < 4,
            entry_palette <= 15,
        ensures
            r == self.color_8bpp(
                *vram,
                palette@,
                layer as int,
                entry_palette as int,
                index as int,
            ),
    {
        if self.dispcnt & dispcnt::BG_EXT_PALETTE == 0 {
            // Without extended palettes an 8bpp background ignores the entry's palette field and
            // indexes the single 256-colour palette.
            return read_palette(palette, self.engine.block_offset(), index as usize);
        }
        let slot: u32 = if layer <= 1 && self.bgcnt[layer] & 0x2000 != 0 {
            layer as u32 + 2
        } else {
            layer as u32
        };
        vram.read16(
            self.engine.bg_ext_pal_space(),
            slot * 0x2000 + (entry_palette * 256 + index as u32) * 2,
        )
    }

    #[verifier::rlimit(30)]
    fn render_text(&self, layer: usize, line: u32, x: u32, vram: &Vram, palette: &[u8]) -> (r:
        Option<u16>)
        requires
            layer < 4,
            line <= LAST_LINE,
            x < 256,
        ensures
            r == self.text_color(layer as int, line, x as int, *vram, palette@),
    {
        broadcast use crate::bits::lemma_and_bound_u16;

        let bgcnt = self.bgcnt[layer];
        let size = (bgcnt >> 14) & 3;
        let map_w: u32 = if size == 1 || size == 3 { 64 } else { 32 };
        let map_h: u32 = if size == 2 || size == 3 { 64 } else { 32 };
        let char_base = self.tile_data_base(layer);
        let screen_base = self.tilemap_base(layer);
        let space = self.engine.bg_space();
        let sx: u32 = (x + self.bghofs[layer] as u32) % (map_w * 8);
        let sy: u32 = (line + self.bgvofs[layer] as u32) % (map_h * 8);
        assert(0 <= sy as int / 8 / 32 * (map_w as int / 32) <= 2) by (nonlinear_arith)
            requires
                sy < 512,
                map_w == 32 || map_w == 64,
        ;
        let entry = vram.read16(space, screen_base + map_offset(map_w, sx / 8, sy / 8));
        let row: u32 = if entry & 0x800 != 0 { 7 - sy % 8 } else { sy % 8 };
        let column: u32 = if entry & 0x400 != 0 { 7 - sx % 8 } else { sx % 8 };
        let tile = (entry & 0x3FF) as u32;
        proof {
            crate::bits::lemma_four_bits(entry, 0);
        }
        let entry_palette = (entry >> 12) as u32;
        if bgcnt & 0x80 != 0 {
            let index = vram.read8(space, char_base + tile * 64 + row * 8 + column);
            if index == 0 {
                return None;
            }
            Some(self.bg_color_8bpp(vram, palette, layer, entry_palette, index))
        } else {
            let pair = vram.read8(space, char_base + tile * 32 + row * 4 + column / 2);
            proof {
                crate::bits::lemma_four_bits(0, pair);
            }
            let index: u8 = if column % 2 == 0 { pair & 0xF } else { pair >> 4 };
            if index == 0 {
                return None;
            }
            Some(
                read_palette(
                    palette,
                    self.engine.block_offset(),
                    entry_palette as usize * 16 + index as usize,
                ),
            )
        }
    }

    /// Where in its map an affine layer's column falls.
    fn affine_position(&self, block: usize, x: u32) -> (r: (i32, i32))
        requires
            block < 2,
            x < 256,
        ensures
            r.0 == self.affine_point(block as int, x as int).0,
            r.1 == self.affine_point(block as int, x as int).1,
    {
        let pa = self.bgp[block][0];
        let pc = self.bgp[block][2];
        assert(-0x80_0000 <= pa * x <= 0x80_0000 && -0x80_0000 <= pc * x <= 0x80_0000)
            by (nonlinear_arith)
            requires
                -0x8000 <= pa <= 0x7fff,
                -0x8000 <= pc <= 0x7fff,
                0 <= x < 256,
        ;
        (
            self.bgx_internal[block].wrapping_add(pa as i32 * x as i32) >> 8,
            self.bgy_internal[block].wrapping_add(pc as i32 * x as i32) >> 8,
        )
    }

    /// Affine and extended-rotscale layers, which differ only in their map entry format.
    #[verifier::rlimit(30)]
    fn render_affine(&self, layer: usize, x: u32, vram: &Vram, palette: &[u8], wide: bool) -> (r:
        Option<u16>)
        requires
            2 <= layer < 4,
            x < 256,
        ensures
            r == self.affine_color(layer as int, x as int, *vram, palette@, wide),
    {
        broadcast use crate::bits::lemma_and_bound_u16;

        let bgcnt = self.bgcnt[layer];
        let size = (bgcnt >> 14) & 3;
        let tiles: u32 = if size == 0 {
            16
        } else if size == 1 {
            32
        } else if size == 2 {
            64
        } else {
            128
        };
        let char_base = self.tile_data_base(layer);
        let screen_base = self.tilemap_base(layer);
        let space = self.engine.bg_space();
        let (px, py) = self.affine_position(layer - 2, x);
        // Bit 13 wraps the map instead of leaving the outside transparent.
        let (sx, sy) = match fold_rect(px, py, tiles * 8, tiles * 8, bgcnt & 0x2000 != 0) {
            None => {
                return None;
            },
            Some(point) => point,
        };
        assert(0 <= sy / 8 * tiles <= 127 * 128) by (nonlinear_arith)
            requires
                sy / 8 <= 127,
                tiles <= 128,
        ;
        let cell: u32 = sy / 8 * tiles + sx / 8;
        let entry: u16 = if wide {
            vram.read16(space, screen_base + cell * 2)
        } else {
            vram.read8(space, screen_base + cell) as u16
        };
        proof {
            crate::bits::lemma_four_bits(entry, 0);
        }
        let tile: u32 = if wide { (entry & 0x3FF) as u32 } else { entry as u32 };
        let row: u32 = if wide && entry & 0x800 != 0 { 7 - sy % 8 } else { sy % 8 };
        let column: u32 = if wide && entry & 0x400 != 0 { 7 - sx % 8 } else { sx % 8 };
        let entry_palette: u32 = if wide { (entry >> 12) as u32 } else { 0 };
        let index = vram.read8(space, char_base + tile * 64 + row * 8 + column);
        if index == 0 {
            return None;
        }
        Some(self.bg_color_8bpp(vram, palette, layer, entry_palette, index))
    }

    /// The two extended bitmap types.
    fn render_bitmap(&self, layer: usize, x: u32, vram: &Vram, palette: &[u8], direct: bool) -> (r:
        Option<u16>)
        requires
            2 <= layer < 4,
            x < 256,
        ensures
            r == self.bitmap_color(layer as int, x as int, *vram, palette@, direct),
    {
        broadcast use crate::bits::lemma_and_bound_u16;

        let bgcnt = self.bgcnt[layer];
        let size = (bgcnt >> 14) & 3;
        let width: u32 = if size == 0 {
            128
        } else if size == 1 {
            256
        } else {
            512
        };
        let height: u32 = if size == 0 {
            128
        } else if size == 1 || size == 2 {
            256
        } else {
            512
        };
        let base = ((bgcnt >> 8) & 0x1F) as u32 * 0x4000;
        let space = self.engine.bg_space();
        let (px, py) = self.affine_position(layer - 2, x);
        let (sx, sy) = match fold_rect(px, py, width, height, bgcnt & 0x2000 != 0) {
            None => {
                return None;
            },
            Some(point) => point,
        };
        assert(0 <= sy * width <= 511 * 512) by (nonlinear_arith)
            requires
                sy <= 511,
                width <= 512,
        ;
        let offset: u32 = sy * width + sx;
        if direct {
            // Bit 15 is the alpha bit: a pixel with it clear is transparent, not black.
            let value = vram.read16(space, base + offset * 2);
            if value & 0x8000 != 0 {
                Some(value & 0x7FFF)
            } else {
                None
            }
        } else {
            let index = vram.read8(space, base + offset);
            if index == 0 {
                None
            } else {
                Some(read_palette(palette, self.engine.block_offset(), index as usize))
            }
        }
    }

    /// One pixel of a background layer.
    pub(crate) fn render_background(
        &self,
        layer: usize,
        line: u32,
        x: u32,
        vram: &Vram,
        palette: &[u8],
    ) -> (r: Option<u16>)
        requires
            layer < 4,
            line <= LAST_LINE,
            x < 256,
        ensures
            r == self.background_color(layer as int, line, x as int, *vram, palette@),
    {
        let kind = BackgroundKind::of(
            self.engine,
            self.dispcnt & dispcnt::MODE,
            layer,
            self.dispcnt,
            self.bgcnt[layer],
        );
        match kind {
            BackgroundKind::Text => self.render_text(layer, line, x, vram, palette),
            BackgroundKind::Affine => self.render_affine(layer, x, vram, palette, false),
            BackgroundKind::ExtendedRotscale => self.render_affine(layer, x, vram, palette, true),
            BackgroundKind::ExtendedBitmap => self.render_bitmap(layer, x, vram, palette, false),
            BackgroundKind::ExtendedDirectBitmap => self.render_bitmap(
                layer,
                x,
                vram,
                palette,
                true,
            ),
            // These leave the layer transparent, so the backdrop shows through.
            BackgroundKind::LargeBitmap => None,
            BackgroundKind::ThreeD => None,
            BackgroundKind::Absent => None,
        }
    }
}

/// Every cell of a text map has an entry of its own, and it lies inside the map.
#[verifier::rlimit(30)]
pub proof fn law_cells_are_separate(map_w: int, map_h: int, ax: int, ay: int, bx: int, by: int)
    requires
        map_w == 32 || map_w == 64,
        map_h == 32 || map_h == 64,
        0 <= ax < map_w,
        0 <= ay < map_h,
        0 <= bx < map_w,
        0 <= by < map_h,
    ensures
        0 <= cell_offset(map_w, ax, ay) <= map_w * map_h * 2 - 2,
        cell_offset(map_w, ax, ay) == cell_offset(map_w, bx, by) ==> ax == bx && ay == by,
{
    lemma_block_row(map_w, ay);
    lemma_block_row(map_w, by);
    let a_block = ax / 32 + ay / 32 * (map_w / 32);
    let b_block = bx / 32 + by / 32 * (map_w / 32);
    lemma_cell_parts(a_block, ay % 32, ax % 32);
    lemma_cell_parts(b_block, by % 32, bx % 32);
    assert(map_w * map_h == (if map_w == 64 { 64 * map_h } else { 32 * map_h }));
}

/// The cell whose entry is at an offset of a text map.
pub open spec fn cell_at(map_w: int, offset: int) -> (int, int) {
    let block = offset / 0x800;
    let across = if map_w == 64 { block % 2 } else { 0 };
    let down = if map_w == 64 { block / 2 } else { block };
    (across * 32 + offset % 64 / 2, down * 32 + offset % 0x800 / 64)
}

/// The entries fill the map: every even offset inside it is the entry of a cell, entries lie at even
/// offsets only, and each block of 32 by 32 cells is one run of 0x800 bytes.
#[verifier::spinoff_prover]
#[verifier::rlimit(60)]
pub proof fn law_cells_fill_the_map(map_w: int, map_h: int, offset: int)
    requires
        map_w == 32 || map_w == 64,
        map_h == 32 || map_h == 64,
        0 <= offset < 2 * map_w * map_h,
        offset % 2 == 0,
    ensures
        ({
            let (x, y) = cell_at(map_w, offset);
            &&& 0 <= x < map_w
            &&& 0 <= y < map_h
            &&& cell_offset(map_w, x, y) == offset
            &&& x / 32 + y / 32 * (map_w / 32) == offset / 0x800
        }),
        forall|x: int, y: int|
            0 <= x < map_w && 0 <= y < map_h ==> #[trigger] cell_offset(map_w, x, y) % 2 == 0,
{
    let (x, y) = cell_at(map_w, offset);
    assert(2 * map_w * map_h == (if map_w == 64 { 128 * map_h } else { 64 * map_h }));
    let block = offset / 0x800;
    let column = offset % 64 / 2;
    let row = offset % 0x800 / 64;
    assert(offset == block * 0x800 + row * 64 + column * 2);
    lemma_block_row(map_w, y);
    if map_w == 64 {
        assert(block < map_h / 16);
        assert(x == block % 2 * 32 + column && y == block / 2 * 32 + row);
        assert(x / 32 == block % 2 && y / 32 == block / 2);
    } else {
        assert(block < map_h / 32);
        assert(x == column && y == block * 32 + row);
        assert(x / 32 == 0 && y / 32 == block);
    }
    assert(x % 32 == column && y % 32 == row);
    assert(cell_offset(map_w, x, y) == offset);
    assert forall|x: int, y: int| 0 <= x < map_w && 0 <= y < map_h implies #[trigger] cell_offset(
        map_w,
        x,
        y,
    ) % 2 == 0 by {
        lemma_block_row(map_w, y);
    }
}

/// The block, the row and the column of a cell can be told from its offset.
proof fn lemma_cell_parts(block: int, row: int, column: int)
    requires
        0 <= block,
        0 <= row < 32,
        0 <= column < 32,
    ensures
        (block * 0x800 + row * 64 + column * 2) / 0x800 == block,
        (block * 0x800 + row * 64 + column * 2) % 0x800 / 64 == row,
        (block * 0x800 + row * 64 + column * 2) % 64 / 2 == column,
{
    let within = row * 64 + column * 2;
    assert((block * 0x800 + within) / 0x800 == block);
    assert((block * 0x800 + within) % 0x800 == within);
}

/// How many blocks lie before a row of cells.
proof fn lemma_block_row(map_w: int, y: int)
    requires
        map_w == 32 || map_w == 64,
    ensures
        y / 32 * (map_w / 32) == (if map_w == 64 { y / 32 * 2 } else { y / 32 }),
{
    let row = y / 32;
    assert(row * 2 == row + row && row * 1 == row);
    if map_w == 64 {
        assert(map_w / 32 == 2);
    } else {
        assert(map_w / 32 == 1);
    }
}

} // verus!
