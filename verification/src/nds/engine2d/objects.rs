//! Sprites.
//!
//! Each engine has 128 OAM entries of eight bytes, of which six describe a sprite and the
//! remaining two are shared out among 32 groups of affine parameters.
//!
//! The entries are walked from 127 down to 0, and each sprite overwrites what is there. So where
//! two sprites meet the lower entry wins, with its own priority attached.

use vstd::prelude::*;
use crate::nds::vram::Vram;
use super::{
    clear_pixel, dispcnt, get_half, half_or_zero, palette_color, read_palette, Engine, LinePixel,
    Registers, LAST_LINE,
};

verus! {

/// One decoded OAM entry.
#[derive(Clone, Copy, Debug, PartialEq, Eq, Structural)]
pub struct Object {
    pub x: i32,
    pub y: i32,
    pub width: u32,
    pub height: u32,
    /// The box the sprite occupies on screen, which is twice its size for a double-size affine
    /// sprite.
    pub box_width: u32,
    pub box_height: u32,
    pub tile: u32,
    pub palette: u8,
    pub priority: u8,
    /// 256 colours rather than sixteen.
    pub eight_bit: bool,
    pub flip_x: bool,
    pub flip_y: bool,
    pub affine: Option<usize>,
    pub mode: u8,
}

/// A sprite's width, by shape and size.
pub open spec fn object_width(shape: u16, size: u16) -> u32 {
    if shape == 0 {
        if size == 0 { 8 } else if size == 1 { 16 } else if size == 2 { 32 } else { 64 }
    } else if shape == 1 {
        if size == 0 { 16 } else if size == 1 { 32 } else if size == 2 { 32 } else { 64 }
    } else {
        if size == 0 { 8 } else if size == 1 { 8 } else if size == 2 { 16 } else { 32 }
    }
}

/// A sprite's height, by shape and size.
pub open spec fn object_height(shape: u16, size: u16) -> u32 {
    if shape == 0 {
        object_width(0, size)
    } else if shape == 1 {
        object_width(2, size)
    } else {
        object_width(1, size)
    }
}

/// What an OAM entry says, or `None` when it draws nothing.
pub open spec fn object_of(oam: Seq<u8>, base: int, index: int) -> Option<Object> {
    let attr0 = half_or_zero(oam, base + index * 8);
    let attr1 = half_or_zero(oam, base + index * 8 + 2);
    let attr2 = half_or_zero(oam, base + index * 8 + 4);
    let affine = attr0 & 0x100 != 0;
    let double = attr0 & 0x200 != 0;
    let shape = (attr0 >> 14) & 3;
    let size = (attr1 >> 14) & 3;
    if (!affine && double) || shape == 3 {
        None
    } else {
        let width = object_width(shape, size);
        let height = object_height(shape, size);
        Some(
            Object {
                x: ((attr1 & 0x1FF) as i32) << 23 >> 23,
                y: (attr0 & 0xFF) as i32,
                width,
                height,
                box_width: if double { (width * 2) as u32 } else { width },
                box_height: if double { (height * 2) as u32 } else { height },
                tile: (attr2 & 0x3FF) as u32,
                palette: (attr2 >> 12) as u8,
                priority: ((attr2 >> 10) & 3) as u8,
                eight_bit: attr0 & 0x2000 != 0,
                flip_x: !affine && attr1 & 0x1000 != 0,
                flip_y: !affine && attr1 & 0x2000 != 0,
                affine: if affine { Some(((attr1 >> 9) & 0x1F) as usize) } else { None },
                mode: ((attr0 >> 10) & 3) as u8,
            },
        )
    }
}

/// One of the four affine parameters of a group, which live in the unused halfword of four OAM
/// entries.
pub open spec fn parameter(oam: Seq<u8>, base: int, group: int, i: int) -> i16 {
    half_or_zero(oam, base + group * 32 + i * 8 + 6) as i16
}

/// The point of a sprite's own picture that lies `(dx, row)` into its box.
pub open spec fn source_point(o: Object, oam: Seq<u8>, base: int, dx: int, row: int) -> (int, int) {
    match o.affine {
        Some(group) => {
            // About the centre of the box, into the sprite's own space.
            let ox = dx - o.box_width as int / 2;
            let oy = row - o.box_height as int / 2;
            let tx = ((parameter(oam, base, group as int, 0) * ox + parameter(
                oam,
                base,
                group as int,
                1,
            ) * oy) as i32 >> 8) as int;
            let ty = ((parameter(oam, base, group as int, 2) * ox + parameter(
                oam,
                base,
                group as int,
                3,
            ) * oy) as i32 >> 8) as int;
            (tx + o.width as int / 2, ty + o.height as int / 2)
        },
        None => (
            if o.flip_x { o.width - 1 - dx } else { dx },
            if o.flip_y { o.height - 1 - row } else { row },
        ),
    }
}

impl Registers {
    /// Byte offset of a bitmap sprite's pixel, which has three different address formulas.
    pub open spec fn bitmap_offset(self, o: Object, sx: int, sy: int) -> int {
        if self.dispcnt & dispcnt::OBJ_BITMAP_1D != 0 {
            let boundary = if self.dispcnt & dispcnt::OBJ_BITMAP_1D_BOUNDARY != 0 {
                256int
            } else {
                128
            };
            o.tile * boundary + (sy * o.width + sx) * 2
        } else {
            // A sheet either 128 or 256 pixels wide.
            let sheet = if self.dispcnt & dispcnt::OBJ_BITMAP_WIDE != 0 { 256int } else { 128 };
            (o.tile & 0x1F) * 0x10 + (o.tile & 0x3E0) * sheet + (sy * sheet + sx) * 2
        }
    }

    /// Byte offset of the tile that a sprite's pixel lies in.
    pub open spec fn tile_offset(self, o: Object, sx: int, sy: int) -> int {
        let tile_size = if o.eight_bit { 64int } else { 32 };
        if self.dispcnt & dispcnt::OBJ_1D_MAPPING != 0 {
            // Consecutive tiles, and a tile number scaled by a boundary from `DISPCNT`.
            o.tile * (32u32 << ((self.dispcnt & dispcnt::OBJ_1D_BOUNDARY) >> 20)) + (sy / 8 * (
            o.width as int / 8) + sx / 8) * tile_size
        } else {
            // A window onto a sheet 32 tiles wide.
            o.tile * 32 + sy / 8 * 1024 + sx / 8 * tile_size
        }
    }

    /// What a sprite shows at a point of its own picture: nothing where it is transparent.
    pub open spec fn object_color(
        self,
        o: Object,
        vram: Vram,
        palette: Seq<u8>,
        sx: int,
        sy: int,
    ) -> Option<u16> {
        let space = self.engine.obj_space();
        let block = self.engine.block_offset() + 0x200;
        if o.mode == 3 {
            let value = vram.half(space, self.bitmap_offset(o, sx, sy) as u32);
            if value & 0x8000 != 0 { Some(value & 0x7FFF) } else { None }
        } else if o.eight_bit {
            let index = vram.byte(
                space,
                (self.tile_offset(o, sx, sy) + sy % 8 * 8 + sx % 8) as u32,
            );
            if index == 0 {
                None
            } else if self.dispcnt & dispcnt::OBJ_EXT_PALETTE == 0 {
                Some(palette_color(palette, block, index as int))
            } else {
                Some(
                    vram.half(
                        self.engine.obj_ext_pal_space(),
                        ((o.palette * 256 + index) * 2) as u32,
                    ),
                )
            }
        } else {
            let pair = vram.byte(
                space,
                (self.tile_offset(o, sx, sy) + sy % 8 * 4 + sx % 8 / 2) as u32,
            );
            let index = if sx % 2 == 0 { pair & 0xF } else { pair >> 4 };
            if index == 0 {
                None
            } else {
                Some(palette_color(palette, block, o.palette * 16 + index))
            }
        }
    }

    /// What a sprite shows at a column of the screen.
    pub open spec fn object_at(
        self,
        o: Object,
        line: u32,
        x: int,
        vram: Vram,
        palette: Seq<u8>,
        oam: Seq<u8>,
    ) -> Option<u16> {
        // A sprite's Y wraps at 256, so one placed near the bottom reappears at the top.
        let row = (line - o.y) % 256;
        let dx = x - o.x;
        if !(0 <= dx < o.box_width) || row >= o.box_height {
            None
        } else {
            let (sx, sy) = source_point(o, oam, self.engine.block_offset() as int, dx, row);
            if 0 <= sx < o.width && 0 <= sy < o.height {
                self.object_color(o, vram, palette, sx, sy)
            } else {
                None
            }
        }
    }

    /// The sprite layer at a column once the `n` highest OAM entries are drawn, and whether the
    /// column lies in the object window.
    pub open spec fn objects(
        self,
        line: u32,
        x: int,
        vram: Vram,
        palette: Seq<u8>,
        oam: Seq<u8>,
        n: nat,
    ) -> (LinePixel, bool)
        decreases n,
    {
        if n == 0 {
            (clear_pixel(), false)
        } else {
            let before = self.objects(line, x, vram, palette, oam, (n - 1) as nat);
            match object_of(oam, self.engine.block_offset() as int, 128 - n) {
                None => before,
                Some(o) => self.with_object(o, line, x, vram, palette, oam, before),
            }
        }
    }

    /// A column of the sprite layer after one sprite. An object-window sprite only marks.
    pub open spec fn with_object(
        self,
        o: Object,
        line: u32,
        x: int,
        vram: Vram,
        palette: Seq<u8>,
        oam: Seq<u8>,
        before: (LinePixel, bool),
    ) -> (LinePixel, bool) {
        match self.object_at(o, line, x, vram, palette, oam) {
            None => before,
            Some(color) => if o.mode == 2 {
                (before.0, true)
            } else {
                (
                    LinePixel {
                        color,
                        opaque: true,
                        priority: o.priority,
                        semi_transparent: o.mode == 1,
                        alpha_3d: 0,
                    },
                    before.1,
                )
            },
        }
    }
}

impl Object {
    /// What every decoded entry keeps to.
    pub open spec fn in_range(self) -> bool {
        &&& -256 <= self.x <= 255
        &&& 0 <= self.y <= 255
        &&& 8 <= self.width <= 64
        &&& 8 <= self.height <= 64
        &&& self.width <= self.box_width <= 128
        &&& self.height <= self.box_height <= 128
        &&& self.affine is None ==> self.box_width == self.width && self.box_height == self.height
        &&& self.tile <= 0x3FF
        &&& self.palette <= 15
        &&& self.priority <= 3
        &&& self.affine is Some ==> self.affine->0 <= 31
    }
}

/// Decode one OAM entry, or `None` when it draws nothing.
fn decode_object(oam: &[u8], base: usize, index: usize) -> (r: Option<Object>)
    requires
        base <= 0x400,
        index < 128,
    ensures
        r == object_of(oam@, base as int, index as int),
        r is Some ==> r->0.in_range(),
{
    broadcast use crate::bits::lemma_and_bound_u16;

    let entry: usize = base + index * 8;
    let attr0 = get_half(oam, entry);
    let attr1 = get_half(oam, entry + 2);
    let attr2 = get_half(oam, entry + 4);
    let affine = attr0 & 0x100 != 0;
    let double = attr0 & 0x200 != 0;
    // Bit 9 means two different things: "double the on-screen box" for an affine sprite and
    // "this entry is disabled" for a plain one.
    if !affine && double {
        return None;
    }
    let shape = (attr0 >> 14) & 3;
    if shape == 3 {
        return None;
    }
    let size = (attr1 >> 14) & 3;
    let width = width_of(shape, size);
    let height: u32 = if shape == 0 {
        width_of(0, size)
    } else if shape == 1 {
        width_of(2, size)
    } else {
        width_of(1, size)
    };
    let raw = (attr1 & 0x1FF) as i32;
    assert(-256 <= (raw << 23 >> 23) <= 255) by (bit_vector);
    proof {
        crate::bits::lemma_four_bits(attr2, 0);
    }
    Some(
        Object {
            // X is nine bits signed: a sprite can start off the left edge.
            x: raw << 23 >> 23,
            y: (attr0 & 0xFF) as i32,
            width,
            height,
            box_width: if double { width * 2 } else { width },
            box_height: if double { height * 2 } else { height },
            tile: (attr2 & 0x3FF) as u32,
            palette: (attr2 >> 12) as u8,
            priority: ((attr2 >> 10) & 3) as u8,
            eight_bit: attr0 & 0x2000 != 0,
            flip_x: !affine && attr1 & 0x1000 != 0,
            flip_y: !affine && attr1 & 0x2000 != 0,
            affine: if affine { Some(((attr1 >> 9) & 0x1F) as usize) } else { None },
            mode: ((attr0 >> 10) & 3) as u8,
        },
    )
}

fn width_of(shape: u16, size: u16) -> (r: u32)
    ensures
        r == object_width(shape, size),
        8 <= r <= 64,
{
    if shape == 0 {
        if size == 0 {
            8
        } else if size == 1 {
            16
        } else if size == 2 {
            32
        } else {
            64
        }
    } else if shape == 1 {
        if size == 0 {
            16
        } else if size == 1 {
            32
        } else if size == 2 {
            32
        } else {
            64
        }
    } else {
        if size == 0 {
            8
        } else if size == 1 {
            8
        } else if size == 2 {
            16
        } else {
            32
        }
    }
}

fn read_parameter(oam: &[u8], base: usize, group: usize, i: usize) -> (r: i16)
    requires
        base <= 0x400,
        group <= 31,
        i < 4,
    ensures
        r == parameter(oam@, base as int, group as int, i as int),
{
    get_half(oam, base + group * 32 + i * 8 + 6) as i16
}

/// A parameter times an offset from the centre of a box.
proof fn lemma_turned_bound(p: int, o: int)
    requires
        -0x8000 <= p <= 0x7fff,
        -128 <= o <= 128,
    ensures
        -0x40_0000 <= p * o <= 0x40_0000,
{
    assert(-0x40_0000 <= p * o <= 0x40_0000) by (nonlinear_arith)
        requires
            -0x8000 <= p <= 0x7fff,
            -128 <= o <= 128,
    ;
}

impl Object {
    /// The point of the sprite's own picture that lies `(dx, row)` into its box.
    fn source(&self, oam: &[u8], base: usize, dx: i32, row: i32) -> (r: (i32, i32))
        requires
            self.in_range(),
            base <= 0x400,
            0 <= dx < self.box_width,
            0 <= row < self.box_height,
        ensures
            r.0 == source_point(*self, oam@, base as int, dx as int, row as int).0,
            r.1 == source_point(*self, oam@, base as int, dx as int, row as int).1,
    {
        match self.affine {
            Some(group) => {
                let ox: i32 = dx - (self.box_width / 2) as i32;
                let oy: i32 = row - (self.box_height / 2) as i32;
                let pa = read_parameter(oam, base, group, 0);
                let pb = read_parameter(oam, base, group, 1);
                let pc = read_parameter(oam, base, group, 2);
                let pd = read_parameter(oam, base, group, 3);
                proof {
                    lemma_turned_bound(pa as int, ox as int);
                    lemma_turned_bound(pb as int, oy as int);
                    lemma_turned_bound(pc as int, ox as int);
                    lemma_turned_bound(pd as int, oy as int);
                }
                let a: i32 = pa as i32 * ox + pb as i32 * oy;
                let b: i32 = pc as i32 * ox + pd as i32 * oy;
                assert(-0x80_0000 <= a <= 0x80_0000 && -0x80_0000 <= b <= 0x80_0000 ==> -0x80_0000
                    <= a >> 8 <= 0x80_0000 && -0x80_0000 <= b >> 8 <= 0x80_0000) by (bit_vector);
                ((a >> 8) + (self.width / 2) as i32, (b >> 8) + (self.height / 2) as i32)
            },
            None => {
                let sx: i32 = if self.flip_x { self.width as i32 - 1 - dx } else { dx };
                let sy: i32 = if self.flip_y { self.height as i32 - 1 - row } else { row };
                (sx, sy)
            },
        }
    }
}

impl Registers {
    /// Byte offset of a bitmap sprite's pixel.
    fn bitmap_object_offset(&self, o: &Object, sx: u32, sy: u32) -> (r: u32)
        requires
            o.in_range(),
            sx < 64,
            sy < 64,
        ensures
            r == self.bitmap_offset(*o, sx as int, sy as int),
    {
        broadcast use crate::bits::lemma_and_bound_u32;

        if self.dispcnt & dispcnt::OBJ_BITMAP_1D != 0 {
            assert(0 <= sy * o.width <= 63 * 64) by (nonlinear_arith)
                requires
                    sy <= 63,
                    o.width <= 64,
            ;
            let inside: u32 = (sy * o.width + sx) * 2;
            if self.dispcnt & dispcnt::OBJ_BITMAP_1D_BOUNDARY != 0 {
                o.tile * 256 + inside
            } else {
                o.tile * 128 + inside
            }
        } else if self.dispcnt & dispcnt::OBJ_BITMAP_WIDE != 0 {
            (o.tile & 0x1F) * 0x10 + (o.tile & 0x3E0) * 256 + (sy * 256 + sx) * 2
        } else {
            (o.tile & 0x1F) * 0x10 + (o.tile & 0x3E0) * 128 + (sy * 128 + sx) * 2
        }
    }

    /// Byte offset of the tile that a sprite's pixel lies in.
    fn tile_object_offset(&self, o: &Object, sx: u32, sy: u32) -> (r: u32)
        requires
            o.in_range(),
            sx < 64,
            sy < 64,
        ensures
            r == self.tile_offset(*o, sx as int, sy as int),
            r <= 0x10_0000,
    {
        let tile_size: u32 = if o.eight_bit { 64 } else { 32 };
        if self.dispcnt & dispcnt::OBJ_1D_MAPPING != 0 {
            let d = self.dispcnt;
            proof {
                crate::bits::lemma_middle_fields(d);
            }
            let boundary: u32 = 32u32 << ((d & dispcnt::OBJ_1D_BOUNDARY) >> 20);
            assert(0 <= o.tile * boundary <= 0x3FF * 256) by (nonlinear_arith)
                requires
                    o.tile <= 0x3FF,
                    boundary <= 256,
            ;
            assert(0 <= sy / 8 * (o.width / 8) <= 7 * 8) by (nonlinear_arith)
                requires
                    sy <= 63,
                    o.width <= 64,
            ;
            let tile_number: u32 = sy / 8 * (o.width / 8) + sx / 8;
            assert(0 <= tile_number * tile_size <= 63 * 64) by (nonlinear_arith)
                requires
                    tile_number <= 63,
                    tile_size <= 64,
            ;
            o.tile * boundary + tile_number * tile_size
        } else {
            assert(0 <= sx / 8 * tile_size <= 7 * 64) by (nonlinear_arith)
                requires
                    sx <= 63,
                    tile_size <= 64,
            ;
            o.tile * 32 + sy / 8 * 1024 + sx / 8 * tile_size
        }
    }

    /// One pixel of a sprite, where it has one.
    fn object_pixel(&self, o: &Object, vram: &Vram, palette: &[u8], sx: u32, sy: u32) -> (r: Option<
        u16,
    >)
        requires
            o.in_range(),
            sx < 64,
            sy < 64,
        ensures
            r == self.object_color(*o, *vram, palette@, sx as int, sy as int),
    {
        let space = self.engine.obj_space();
        let block = self.engine.block_offset() + 0x200;
        if o.mode == 3 {
            let value = vram.read16(space, self.bitmap_object_offset(o, sx, sy));
            return if value & 0x8000 != 0 {
                Some(value & 0x7FFF)
            } else {
                None
            };
        }
        let offset = self.tile_object_offset(o, sx, sy);
        if o.eight_bit {
            let index = vram.read8(space, offset + sy % 8 * 8 + sx % 8);
            if index == 0 {
                None
            } else if self.dispcnt & dispcnt::OBJ_EXT_PALETTE == 0 {
                Some(read_palette(palette, block, index as usize))
            } else {
                Some(
                    vram.read16(
                        self.engine.obj_ext_pal_space(),
                        (o.palette as u32 * 256 + index as u32) * 2,
                    ),
                )
            }
        } else {
            let pair = vram.read8(space, offset + sy % 8 * 4 + sx % 8 / 2);
            proof {
                crate::bits::lemma_four_bits(0, pair);
            }
            let index: u8 = if sx % 2 == 0 { pair & 0xF } else { pair >> 4 };
            if index == 0 {
                None
            } else {
                Some(read_palette(palette, block, o.palette as usize * 16 + index as usize))
            }
        }
    }

    /// What a sprite shows at a column of the screen.
    fn object_column(
        &self,
        o: &Object,
        line: u32,
        x: u32,
        vram: &Vram,
        palette: &[u8],
        oam: &[u8],
    ) -> (r: Option<u16>)
        requires
            o.in_range(),
            line <= LAST_LINE,
            x < 256,
        ensures
            r == self.object_at(*o, line, x as int, *vram, palette@, oam@),
    {
        let row: i32 = crate::arith::modulo(line as i64 - o.y as i64, 256) as i32;
        if row >= o.box_height as i32 {
            return None;
        }
        let dx: i32 = x as i32 - o.x;
        if dx < 0 || dx >= o.box_width as i32 {
            return None;
        }
        let (sx, sy) = o.source(oam, self.engine.block_offset(), dx, row);
        if sx < 0 || sy < 0 || sx as u32 >= o.width || sy as u32 >= o.height {
            return None;
        }
        self.object_pixel(o, vram, palette, sx as u32, sy as u32)
    }

    /// Draw one sprite into a line of the sprite layer.
    fn render_object(
        &self,
        o: &Object,
        line: u32,
        vram: &Vram,
        palette: &[u8],
        oam: &[u8],
        layer: &mut Vec<LinePixel>,
        obj_window: &mut Vec<bool>,
    )
        requires
            o.in_range(),
            line <= LAST_LINE,
            old(layer)@.len() == 256,
            old(obj_window)@.len() == 256,
        ensures
            final(layer)@.len() == 256,
            final(obj_window)@.len() == 256,
            forall|x: int|
                0 <= x < 256 ==> (#[trigger] final(layer)@[x], final(obj_window)@[x])
                    == self.with_object(
                    *o,
                    line,
                    x,
                    *vram,
                    palette@,
                    oam@,
                    (old(layer)@[x], old(obj_window)@[x]),
                ),
    {
        for x in 0..256u32
            invariant
                o.in_range(),
                line <= LAST_LINE,
                layer@.len() == 256,
                obj_window@.len() == 256,
                forall|i: int|
                    0 <= i < x ==> (#[trigger] layer@[i], obj_window@[i]) == self.with_object(
                        *o,
                        line,
                        i,
                        *vram,
                        palette@,
                        oam@,
                        (old(layer)@[i], old(obj_window)@[i]),
                    ),
                forall|i: int| x <= i < 256 ==> #[trigger] layer@[i] == old(layer)@[i],
                forall|i: int| x <= i < 256 ==> #[trigger] obj_window@[i] == old(obj_window)@[i],
        {
            match self.object_column(o, line, x, vram, palette, oam) {
                None => {},
                Some(color) => {
                    if o.mode == 2 {
                        // Its opaque pixels are the window shape, and its own graphics are never
                        // drawn.
                        obj_window[x as usize] = true;
                    } else {
                        layer[x as usize] = LinePixel {
                            color,
                            opaque: true,
                            priority: o.priority,
                            semi_transparent: o.mode == 1,
                            alpha_3d: 0,
                        };
                    }
                },
            }
        }
    }

    /// Draw every sprite of a line.
    pub(crate) fn render_objects(
        &self,
        line: u32,
        vram: &Vram,
        palette: &[u8],
        oam: &[u8],
        layer: &mut Vec<LinePixel>,
        obj_window: &mut Vec<bool>,
    )
        requires
            line <= LAST_LINE,
            old(layer)@.len() == 256,
            old(obj_window)@.len() == 256,
            forall|x: int| 0 <= x < 256 ==> #[trigger] old(layer)@[x] == clear_pixel(),
            forall|x: int| 0 <= x < 256 ==> !(#[trigger] old(obj_window)@[x]),
        ensures
            final(layer)@.len() == 256,
            final(obj_window)@.len() == 256,
            forall|x: int|
                0 <= x < 256 ==> (#[trigger] final(layer)@[x], final(obj_window)@[x])
                    == self.objects(line, x, *vram, palette@, oam@, 128),
    {
        for n in 0..128usize
            invariant
                line <= LAST_LINE,
                layer@.len() == 256,
                obj_window@.len() == 256,
                forall|x: int|
                    0 <= x < 256 ==> (#[trigger] layer@[x], obj_window@[x]) == self.objects(
                        line,
                        x,
                        *vram,
                        palette@,
                        oam@,
                        n as nat,
                    ),
        {
            match decode_object(oam, self.engine.block_offset(), 127 - n) {
                None => {},
                Some(o) => {
                    self.render_object(&o, line, vram, palette, oam, layer, obj_window);
                },
            }
        }
    }
}

/// Whether an entry puts a visible sprite at a column.
pub open spec fn drawn_by(
    r: Registers,
    line: u32,
    x: int,
    vram: Vram,
    palette: Seq<u8>,
    oam: Seq<u8>,
    index: int,
) -> bool {
    match object_of(oam, r.engine.block_offset() as int, index) {
        None => false,
        Some(o) => o.mode != 2 && r.object_at(o, line, x, vram, palette, oam) is Some,
    }
}

/// Of the sprites at a column the one with the lowest OAM index shows, with its own priority.
pub proof fn law_the_lowest_entry_shows(
    r: Registers,
    line: u32,
    x: int,
    vram: Vram,
    palette: Seq<u8>,
    oam: Seq<u8>,
    index: int,
)
    requires
        0 <= index < 128,
        drawn_by(r, line, x, vram, palette, oam, index),
        forall|lower: int|
            0 <= lower < index ==> !#[trigger] drawn_by(r, line, x, vram, palette, oam, lower),
    ensures
        ({
            let o = object_of(oam, r.engine.block_offset() as int, index)->0;
            r.objects(line, x, vram, palette, oam, 128).0 == (LinePixel {
                color: r.object_at(o, line, x, vram, palette, oam)->0,
                opaque: true,
                priority: o.priority,
                semi_transparent: o.mode == 1,
                alpha_3d: 0,
            })
        }),
{
    lemma_lower_entries_leave_it(r, line, x, vram, palette, oam, index, 128);
}

/// Entries that draw nothing at a column leave what is there.
proof fn lemma_lower_entries_leave_it(
    r: Registers,
    line: u32,
    x: int,
    vram: Vram,
    palette: Seq<u8>,
    oam: Seq<u8>,
    index: int,
    n: nat,
)
    requires
        0 <= index < 128,
        128 - index <= n <= 128,
        forall|lower: int|
            0 <= lower < index ==> !#[trigger] drawn_by(r, line, x, vram, palette, oam, lower),
    ensures
        r.objects(line, x, vram, palette, oam, n).0 == r.objects(
            line,
            x,
            vram,
            palette,
            oam,
            (128 - index) as nat,
        ).0,
    decreases n,
{
    if n > 128 - index {
        lemma_lower_entries_leave_it(r, line, x, vram, palette, oam, index, (n - 1) as nat);
        assert(!drawn_by(r, line, x, vram, palette, oam, 128 - n));
    }
}

} // verus!
