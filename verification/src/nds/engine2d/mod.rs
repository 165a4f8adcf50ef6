//! The two 2D engines, A and B.
//!
//! Both run the same background modes, the same sprite hardware, the same window and blend units,
//! and the same master brightness. What differs is a property of [`Engine`]: which VRAM spaces
//! they read, and what A has that B does not (the 3D layer, mode 6, display modes 2 and 3, and the
//! base offsets in `DISPCNT`).
//!
//! Each layer is drawn to 15-bit colour plus an opacity flag, and the compositor blends colours.
//! Mosaic is not drawn, and neither is display mode 3.

pub mod background;
pub mod dispcnt;
pub mod layer_laws;
pub mod object_laws;
pub mod objects;
pub mod reg;
pub mod register_laws;
pub mod screen_laws;

use vstd::prelude::*;
use crate::arith::{larger, smaller};
use crate::bits::align2;
use crate::color::{bgr555_to_rgba, channel, channel_of, join, joined, rgba_of, Rgba8};
use crate::nds::gpu3d::render::{
    averaged, averaged_channel, blend, layered, FrameState, Framebuffer3d,
};
use crate::nds::video::SCREEN_WIDTH;
use crate::nds::vram::{Vram, VramSpace};
use crate::state;
use crate::state::{StateError, StateReader, StateWriter};

pub use self::background::BackgroundKind;

verus! {

/// The last line whose addresses in a framebuffer of the widest display still fit in 32 bits.
pub const LAST_LINE: u32 = 0x7F_FCFE;

/// Which of the two engines. Everything that differs between them is reachable from here.
#[derive(Debug, Clone, Copy, PartialEq, Eq, Structural)]
pub enum Engine {
    /// The main engine: 3D compositing, mode 6, the VRAM display modes, and a 512 KiB
    /// background window.
    A,
    /// The sub engine: everything else A has, over 128 KiB.
    B,
}

impl Engine {
    /// Base of this engine's register block.
    #[verifier::allow_in_spec]
    pub fn base(self) -> u32
        returns
            (match self {
                Engine::A => 0x0400_0000u32,
                Engine::B => 0x0400_1000u32,
            }),
    {
        match self {
            Engine::A => 0x0400_0000,
            Engine::B => 0x0400_1000,
        }
    }

    #[verifier::allow_in_spec]
    pub fn bg_space(self) -> VramSpace
        returns
            (match self {
                Engine::A => VramSpace::BgA,
                Engine::B => VramSpace::BgB,
            }),
    {
        match self {
            Engine::A => VramSpace::BgA,
            Engine::B => VramSpace::BgB,
        }
    }

    #[verifier::allow_in_spec]
    pub fn obj_space(self) -> VramSpace
        returns
            (match self {
                Engine::A => VramSpace::ObjA,
                Engine::B => VramSpace::ObjB,
            }),
    {
        match self {
            Engine::A => VramSpace::ObjA,
            Engine::B => VramSpace::ObjB,
        }
    }

    #[verifier::allow_in_spec]
    pub fn bg_ext_pal_space(self) -> VramSpace
        returns
            (match self {
                Engine::A => VramSpace::BgExtPalA,
                Engine::B => VramSpace::BgExtPalB,
            }),
    {
        match self {
            Engine::A => VramSpace::BgExtPalA,
            Engine::B => VramSpace::BgExtPalB,
        }
    }

    #[verifier::allow_in_spec]
    pub fn obj_ext_pal_space(self) -> VramSpace
        returns
            (match self {
                Engine::A => VramSpace::ObjExtPalA,
                Engine::B => VramSpace::ObjExtPalB,
            }),
    {
        match self {
            Engine::A => VramSpace::ObjExtPalA,
            Engine::B => VramSpace::ObjExtPalB,
        }
    }

    /// Byte offset of this engine's palettes within the 2 KiB palette RAM, and likewise its OAM.
    #[verifier::allow_in_spec]
    pub fn block_offset(self) -> usize
        returns
            (match self {
                Engine::A => 0usize,
                Engine::B => 0x400usize,
            }),
    {
        match self {
            Engine::A => 0,
            Engine::B => 0x400,
        }
    }
}

/// One pixel of one layer, before compositing.
#[derive(Debug, Clone, Copy, PartialEq, Eq, Structural)]
pub struct LinePixel {
    /// 15-bit BGR, which is what the blend unit works in.
    pub color: u16,
    pub opaque: bool,
    /// Lower is in front. Per pixel, because a sprite's priority comes from its OAM entry.
    pub priority: u8,
    /// Forces alpha blending on wherever it lands, whatever `BLDCNT` selects.
    pub semi_transparent: bool,
    /// How opaque the 3D core drew this pixel, out of 31. Zero on every pixel that it did not draw:
    /// those blend by `BLDALPHA`.
    pub alpha_3d: u8,
}

/// A pixel that a layer left alone.
pub open spec fn clear_pixel() -> LinePixel {
    LinePixel { color: 0, opaque: false, priority: 0, semi_transparent: false, alpha_3d: 0 }
}

impl Default for LinePixel {
    fn default() -> (r: Self)
        ensures
            r == clear_pixel(),
    {
        LinePixel { color: 0, opaque: false, priority: 0, semi_transparent: false, alpha_3d: 0 }
    }
}

/// Layer indices used by `BLDCNT`, `WININ`, and `WINOUT` alike.
pub const LAYER_OBJ: usize = 4;

pub const LAYER_BACKDROP: usize = 5;

pub const LAYERS: usize = 5;

/// The registers of one engine.
#[derive(Debug, Clone, Copy)]
pub struct Registers {
    pub engine: Engine,
    pub dispcnt: u32,
    pub bgcnt: [u16; 4],
    pub bghofs: [u16; 4],
    pub bgvofs: [u16; 4],
    /// Affine parameters for BG2 and BG3, indexed 0 and 1.
    pub bgp: [[i16; 4]; 2],
    pub bgx: [i32; 2],
    pub bgy: [i32; 2],
    /// The running reference point, reloaded from `bgx`/`bgy` at the top of each frame and
    /// advanced by one row of `pb`/`pd` per scanline.
    pub bgx_internal: [i32; 2],
    pub bgy_internal: [i32; 2],
    pub winh: [u16; 2],
    pub winv: [u16; 2],
    pub winin: u16,
    pub winout: u16,
    pub mosaic: u16,
    pub bldcnt: u16,
    pub bldalpha: u16,
    pub bldy: u16,
    pub master_bright: u16,
}

/// The byte at `i`, or zero past the end.
pub open spec fn byte_or_zero(bytes: Seq<u8>, i: int) -> u8 {
    if 0 <= i < bytes.len() { bytes[i] } else { 0 }
}

/// The little-endian halfword at `i`, with zeroes past the end.
pub open spec fn half_or_zero(bytes: Seq<u8>, i: int) -> u16 {
    (byte_or_zero(bytes, i) + 0x100 * byte_or_zero(bytes, i + 1)) as u16
}

/// One 15-bit colour from a palette block.
pub open spec fn palette_color(palette: Seq<u8>, base: int, index: int) -> u16 {
    half_or_zero(palette, base + index * 2)
}

/// The byte at `i`, or zero past the end.
pub(crate) fn get_byte(bytes: &[u8], i: usize) -> (r: u8)
    ensures
        r == byte_or_zero(bytes@, i as int),
{
    if i < bytes.len() {
        bytes[i]
    } else {
        0
    }
}

/// The little-endian halfword at `i`, with zeroes past the end.
pub(crate) fn get_half(bytes: &[u8], i: usize) -> (r: u16)
    requires
        i < 0x1_0000,
    ensures
        r == half_or_zero(bytes@, i as int),
{
    get_byte(bytes, i) as u16 + 0x100 * get_byte(bytes, i + 1) as u16
}

/// One 15-bit colour from a palette block.
pub(crate) fn read_palette(palette: &[u8], base: usize, index: usize) -> (r: u16)
    requires
        base <= 0x1000,
        index <= 0x1000,
    ensures
        r == palette_color(palette@, base as int, index as int),
{
    get_half(palette, base + index * 2)
}

/// One channel of the blend unit's mix, which saturates at full.
pub open spec fn blended_channel(a: int, b: int, eva: int, evb: int) -> int {
    smaller((a * eva + b * evb) / 16, 31)
}

/// A blend weight: sixteenths, and no more than sixteen of them.
pub open spec fn weight(field: u16) -> int {
    smaller((field & 0x1F) as int, 16)
}

/// The blend unit's alpha mix.
pub open spec fn alpha_blended(top: u16, bottom: u16, bldalpha: u16) -> u16 {
    let eva = weight(bldalpha);
    let evb = weight(bldalpha >> 8);
    joined(
        blended_channel(channel(top, 0) as int, channel(bottom, 0) as int, eva, evb),
        blended_channel(channel(top, 5) as int, channel(bottom, 5) as int, eva, evb),
        blended_channel(channel(top, 10) as int, channel(bottom, 10) as int, eva, evb),
    )
}

/// One channel moved toward white or black by sixteenths.
pub open spec fn brightened_channel(c: int, evy: int, up: bool) -> int {
    if up {
        c + (31 - c) * evy / 16
    } else {
        c - c * evy / 16
    }
}

/// Brightness increase or decrease, which is a blend against white or black.
pub open spec fn brightened(color: u16, evy: u16, up: bool) -> u16 {
    let evy = smaller(evy as int, 16);
    joined(
        brightened_channel(channel(color, 0) as int, evy, up),
        brightened_channel(channel(color, 5) as int, evy, up),
        brightened_channel(channel(color, 10) as int, evy, up),
    )
}

fn blend_channel(a: u32, b: u32, eva: u32, evb: u32) -> (r: u32)
    requires
        a <= 31,
        b <= 31,
        eva <= 16,
        evb <= 16,
    ensures
        r == blended_channel(a as int, b as int, eva as int, evb as int),
        r <= 31,
{
    assert(0 <= a * eva <= 31 * 16 && 0 <= b * evb <= 31 * 16) by (nonlinear_arith)
        requires
            0 <= a <= 31,
            0 <= b <= 31,
            0 <= eva <= 16,
            0 <= evb <= 16,
    ;
    let mixed: u32 = (a * eva + b * evb) / 16;
    if mixed < 31 {
        mixed
    } else {
        31
    }
}

fn weight_of(field: u16) -> (r: u32)
    ensures
        r == weight(field),
        r <= 16,
{
    let value = (field & 0x1F) as u32;
    if value < 16 {
        value
    } else {
        16
    }
}

/// The blend unit's alpha mix, per channel and saturating at 31.
fn alpha_blend(top: u16, bottom: u16, bldalpha: u16) -> (r: u16)
    ensures
        r == alpha_blended(top, bottom, bldalpha),
{
    let eva = weight_of(bldalpha);
    let evb = weight_of(bldalpha >> 8);
    join(
        blend_channel(channel_of(top, 0), channel_of(bottom, 0), eva, evb),
        blend_channel(channel_of(top, 5), channel_of(bottom, 5), eva, evb),
        blend_channel(channel_of(top, 10), channel_of(bottom, 10), eva, evb),
    )
}

fn brighten_channel(c: u32, evy: u32, up: bool) -> (r: u32)
    requires
        c <= 31,
        evy <= 16,
    ensures
        r == brightened_channel(c as int, evy as int, up),
        r <= 31,
{
    assert(0 <= (31 - c) * evy <= (31 - c) * 16 && 0 <= c * evy <= c * 16) by (nonlinear_arith)
        requires
            0 <= c <= 31,
            0 <= evy <= 16,
    ;
    if up {
        c + (31 - c) * evy / 16
    } else {
        c - c * evy / 16
    }
}

/// Brightness increase or decrease, which is a blend against white or black.
fn brightness(color: u16, evy: u16, up: bool) -> (r: u16)
    ensures
        r == brightened(color, evy, up),
{
    let evy: u32 = if evy < 16 { evy as u32 } else { 16 };
    join(
        brighten_channel(channel_of(color, 0), evy, up),
        brighten_channel(channel_of(color, 5), evy, up),
        brighten_channel(channel_of(color, 10), evy, up),
    )
}

/// The low or the high half of a word replaced.
pub open spec fn spliced(current: u32, high: bool, value: u16) -> u32 {
    if high {
        (current & 0xFFFF) | ((value as u32) << 16)
    } else {
        (current & 0xFFFF_0000) | value as u32
    }
}

fn splice(current: u32, high: bool, value: u16) -> (r: u32)
    ensures
        r == spliced(current, high, value),
{
    if high {
        (current & 0xFFFF) | ((value as u32) << 16)
    } else {
        (current & 0xFFFF_0000) | value as u32
    }
}

/// The low 28 bits as a signed number.
pub open spec fn extended_28(value: u32) -> i32 {
    ((value & 0x0FFF_FFFF) << 4) as i32 >> 4
}

/// The affine reference points are 28-bit signed with 8 fractional bits.
fn sign_extend_28(value: u32) -> (r: i32)
    ensures
        r == extended_28(value),
{
    ((value & 0x0FFF_FFFF) << 4) as i32 >> 4
}

/// A line lies in a range that may wrap around the bottom. A range whose ends meet is empty.
pub open spec fn spans(top: int, bottom: int, line: int) -> bool {
    if top <= bottom {
        top <= line < bottom
    } else {
        line >= top || line < bottom
    }
}

/// A column lies in a range that wraps around the screen edge if its right end is at or before its
/// left. A range whose ends meet goes all the way round.
pub open spec fn spans_seam(left: int, right: int, x: int) -> bool {
    if left < right {
        left <= x < right
    } else {
        x >= left || x < right
    }
}

impl Registers {
    /// A freshly reset engine.
    pub open spec fn initial(engine: Engine) -> Registers {
        Registers {
            engine,
            dispcnt: 0,
            bgcnt: [0, 0, 0, 0],
            bghofs: [0, 0, 0, 0],
            bgvofs: [0, 0, 0, 0],
            bgp: [[0, 0, 0, 0], [0, 0, 0, 0]],
            bgx: [0, 0],
            bgy: [0, 0],
            bgx_internal: [0, 0],
            bgy_internal: [0, 0],
            winh: [0, 0],
            winv: [0, 0],
            winin: 0,
            winout: 0,
            mosaic: 0,
            bldcnt: 0,
            bldalpha: 0,
            bldy: 0,
            master_bright: 0,
        }
    }

    /// The line lies in a window's vertical range.
    pub open spec fn row_inside(self, index: int, line: u32) -> bool {
        spans((self.winv[index] >> 8) as int, (self.winv[index] & 0xFF) as int, line as int)
    }

    /// The column lies in a window's horizontal range.
    pub open spec fn column_inside(self, index: int, x: int) -> bool {
        spans_seam((self.winh[index] >> 8) as int, (self.winh[index] & 0xFF) as int, x)
    }

    /// The six control bits that apply at a pixel: one per layer, and one for the colour effect.
    pub open spec fn window_control(self, line: u32, x: int, in_obj_window: bool) -> u16 {
        let d = self.dispcnt;
        if d & (dispcnt::WIN0_ENABLE | dispcnt::WIN1_ENABLE | dispcnt::OBJ_WINDOW_ENABLE) == 0 {
            0x3F
        } else if d & dispcnt::WIN0_ENABLE != 0 && self.row_inside(0, line) && self.column_inside(
            0,
            x,
        ) {
            self.winin & 0x3F
        } else if d & dispcnt::WIN1_ENABLE != 0 && self.row_inside(1, line) && self.column_inside(
            1,
            x,
        ) {
            (self.winin >> 8) & 0x3F
        } else if d & dispcnt::OBJ_WINDOW_ENABLE != 0 && in_obj_window {
            (self.winout >> 8) & 0x3F
        } else {
            self.winout & 0x3F
        }
    }

    /// The reference points moved by one row of their matrices.
    pub open spec fn after_line(self) -> Registers {
        Registers {
            bgx_internal: [
                self.bgx_internal[0].wrapping_add(self.bgp[0][1] as i32),
                self.bgx_internal[1].wrapping_add(self.bgp[1][1] as i32),
            ],
            bgy_internal: [
                self.bgy_internal[0].wrapping_add(self.bgp[0][3] as i32),
                self.bgy_internal[1].wrapping_add(self.bgp[1][3] as i32),
            ],
            ..self
        }
    }

    /// `MASTER_BRIGHT` scales the finished pixel toward white or black.
    pub open spec fn mastered(self, color: u16) -> u16 {
        let factor = smaller((self.master_bright & 0x1F) as int, 16) as u16;
        match (self.master_bright >> 14) & 3 {
            1 => brightened(color, factor, true),
            2 => brightened(color, factor, false),
            _ => color,
        }
    }

    /// A pixel over another colour. The 3D layer brings its own opacity, pixel by pixel; every other
    /// layer mixes by `BLDALPHA`.
    pub open spec fn laid_over(self, top: LinePixel, below: u16) -> u16 {
        if top.alpha_3d == 0 {
            alpha_blended(top.color, below, self.bldalpha)
        } else {
            layered(top.color, below, smaller(top.alpha_3d as int, 31) as u8)
        }
    }

    /// The colour of a pixel whose two front-most layers are known.
    pub open spec fn mixed(
        self,
        top_layer: int,
        top: LinePixel,
        below_layer: int,
        below: u16,
        effects: bool,
    ) -> u16 {
        let effect = (self.bldcnt >> 6) & 3;
        let first_target = self.bldcnt & (1u16 << (top_layer as u16)) != 0;
        let second_target = self.bldcnt & (1u16 << ((below_layer + 8) as u16)) != 0;
        if top.semi_transparent && second_target {
            self.laid_over(top, below)
        } else if !effects {
            top.color
        } else if effect == 1 && first_target && second_target {
            self.laid_over(top, below)
        } else if effect == 2 && first_target {
            brightened(top.color, self.bldy & 0x1F, true)
        } else if effect == 3 && first_target {
            brightened(top.color, self.bldy & 0x1F, false)
        } else {
            top.color
        }
    }

    /// The colour of one pixel, from the five layers there.
    pub open spec fn composed(self, pixels: Seq<LinePixel>, control: u16, backdrop: u16) -> u16 {
        let first = next_visible(pixels, control, 0);
        let second = match first {
            None => None,
            Some(n) => next_visible(pixels, control, n + 1),
        };
        let (top_layer, top) = match first {
            None => (
                LAYER_BACKDROP as int,
                LinePixel {
                    color: backdrop,
                    opaque: true,
                    priority: 3,
                    semi_transparent: false,
                    alpha_3d: 0,
                },
            ),
            Some(n) => (layer_of(n), pixels[layer_of(n)]),
        };
        let (below_layer, below) = match second {
            None => (LAYER_BACKDROP as int, backdrop),
            Some(n) => (layer_of(n), pixels[layer_of(n)].color),
        };
        self.mixed(top_layer, top, below_layer, below, control & 0x20 != 0)
    }
}

/// The layer that comes `n`-th from the front: priority by priority, and sprites before
/// backgrounds in each.
pub open spec fn layer_of(n: int) -> int {
    if n % 5 == 0 { LAYER_OBJ as int } else { n % 5 - 1 }
}

/// A layer shows in place `n`.
pub open spec fn shows(pixels: Seq<LinePixel>, control: u16, n: int) -> bool {
    let p = pixels[layer_of(n)];
    p.opaque && p.priority == n / 5 && control & (1u16 << (layer_of(n) as u16)) != 0
}

/// The first place from `n` on in which a layer shows.
pub open spec fn next_visible(pixels: Seq<LinePixel>, control: u16, n: int) -> Option<int>
    decreases 20 - n,
{
    if n >= 20 {
        None
    } else if shows(pixels, control, n) {
        Some(n)
    } else {
        next_visible(pixels, control, n + 1)
    }
}

impl Registers {
    /// A background layer is switched on.
    pub open spec fn layer_enabled(self, layer: int) -> bool {
        ((self.dispcnt & dispcnt::BG_ENABLE) >> 8) & (1u32 << (layer as u32)) != 0
    }

    /// BG0 is the 3D layer.
    pub open spec fn shows_3d(self) -> bool {
        self.engine == Engine::A && self.dispcnt & dispcnt::BG0_IS_3D != 0
    }

    /// A pixel of the 3D layer, which keeps its opacity. A translucent one forces the blend on.
    pub open spec fn pixel_3d(self, line: u32, x: int, frame: FrameState) -> LinePixel {
        let i = line * SCREEN_WIDTH + x;
        let alpha = frame.alpha[i];
        if alpha == 0 {
            clear_pixel()
        } else {
            LinePixel {
                color: frame.color[i],
                opaque: true,
                priority: (self.bgcnt[0] & 3) as u8,
                semi_transparent: alpha < 31,
                alpha_3d: alpha,
            }
        }
    }

    /// A pixel of one of the four backgrounds.
    pub open spec fn background_pixel(
        self,
        layer: int,
        line: u32,
        x: int,
        vram: Vram,
        palette: Seq<u8>,
        three_d: Option<FrameState>,
    ) -> LinePixel {
        if !self.layer_enabled(layer) {
            clear_pixel()
        } else if layer == 0 && self.shows_3d() {
            match three_d {
                None => clear_pixel(),
                Some(frame) => self.pixel_3d(line, x, frame),
            }
        } else {
            match self.background_color(layer, line, x, vram, palette) {
                None => clear_pixel(),
                Some(color) => LinePixel {
                    color,
                    opaque: true,
                    priority: (self.bgcnt[layer] & 3) as u8,
                    semi_transparent: false,
                    alpha_3d: 0,
                },
            }
        }
    }

    /// The sprite layer and the object window at a column.
    pub open spec fn object_column_of(
        self,
        line: u32,
        x: int,
        vram: Vram,
        palette: Seq<u8>,
        oam: Seq<u8>,
    ) -> (LinePixel, bool) {
        if self.dispcnt & dispcnt::OBJ_ENABLE != 0 {
            self.objects(line, x, vram, palette, oam, 128)
        } else {
            (clear_pixel(), false)
        }
    }

    /// The five layers at a column.
    pub open spec fn column(
        self,
        line: u32,
        x: int,
        vram: Vram,
        palette: Seq<u8>,
        oam: Seq<u8>,
        three_d: Option<FrameState>,
    ) -> Seq<LinePixel> {
        Seq::new(
            5,
            |layer: int|
                if layer == LAYER_OBJ {
                    self.object_column_of(line, x, vram, palette, oam).0
                } else {
                    self.background_pixel(layer, line, x, vram, palette, three_d)
                },
        )
    }

    /// What the screen shows at a column of a line.
    pub open spec fn shown(
        self,
        line: u32,
        x: int,
        vram: Vram,
        palette: Seq<u8>,
        oam: Seq<u8>,
        three_d: Option<FrameState>,
    ) -> Rgba8 {
        let display_mode = (self.dispcnt & dispcnt::DISPLAY_MODE) >> 16;
        if display_mode == 0 || self.dispcnt & dispcnt::FORCED_BLANK != 0 {
            // The display being off shows white rather than black.
            Rgba8::rgb(255, 255, 255)
        } else if display_mode == 2 && self.engine == Engine::A {
            // A raw framebuffer straight out of one 128 KiB bank.
            let block = (self.dispcnt & dispcnt::VRAM_BLOCK) >> 18;
            rgba_of(
                self.mastered(
                    vram.half(
                        VramSpace::Lcdc,
                        (block * 0x2_0000 + line * SCREEN_WIDTH * 2 + x * 2) as u32,
                    ),
                ),
            )
        } else if display_mode == 3 && self.engine == Engine::A {
            Rgba8::rgb(0, 0, 0)
        } else {
            let objects = self.object_column_of(line, x, vram, palette, oam);
            rgba_of(
                self.mastered(
                    self.composed(
                        self.column(line, x, vram, palette, oam, three_d),
                        self.window_control(line, x, objects.1),
                        palette_color(palette, self.engine.block_offset() as int, 0),
                    ),
                ),
            )
        }
    }

    /// The screen is filled whole, whatever its size, rather than drawn column by column.
    pub open spec fn filled(self) -> bool {
        let display_mode = (self.dispcnt & dispcnt::DISPLAY_MODE) >> 16;
        display_mode == 0 || self.dispcnt & dispcnt::FORCED_BLANK != 0 || (display_mode == 3
            && self.engine == Engine::A)
    }

    /// `MASTER_BRIGHT` scales the finished pixel toward white or black.
    fn apply_master_brightness(&self, color: u16) -> (r: u16)
        ensures
            r == self.mastered(color),
    {
        let field = self.master_bright & 0x1F;
        let factor: u16 = if field < 16 { field } else { 16 };
        match (self.master_bright >> 14) & 3 {
            1 => brightness(color, factor, true),
            2 => brightness(color, factor, false),
            _ => color,
        }
    }

    /// Blend a pixel over another colour, by its own opacity where it has one.
    fn lay_over(&self, top: LinePixel, below: u16) -> (r: u16)
        ensures
            r == self.laid_over(top, below),
    {
        if top.alpha_3d == 0 {
            alpha_blend(top.color, below, self.bldalpha)
        } else {
            blend(top.color, below, if top.alpha_3d < 31 { top.alpha_3d } else { 31 })
        }
    }

    /// Mix the two front-most layers as `BLDCNT` says.
    fn mix(
        &self,
        top_layer: usize,
        top: LinePixel,
        below_layer: usize,
        below: u16,
        effects: bool,
    ) -> (r: u16)
        requires
            top_layer <= 5,
            below_layer <= 5,
        ensures
            r == self.mixed(top_layer as int, top, below_layer as int, below, effects),
    {
        let effect = (self.bldcnt >> 6) & 3;
        let first_target = self.bldcnt & (1u16 << (top_layer as u16)) != 0;
        let second_target = self.bldcnt & (1u16 << ((below_layer + 8) as u16)) != 0;
        if top.semi_transparent && second_target {
            // A semi-transparent sprite blends whatever `BLDCNT` says, and does so even where the
            // colour effect is switched off by a window.
            self.lay_over(top, below)
        } else if !effects {
            top.color
        } else if effect == 1 && first_target && second_target {
            self.lay_over(top, below)
        } else if effect == 2 && first_target {
            brightness(top.color, self.bldy & 0x1F, true)
        } else if effect == 3 && first_target {
            brightness(top.color, self.bldy & 0x1F, false)
        } else {
            top.color
        }
    }
}

/// The first place from `start` on in which a layer shows.
fn find_visible(pixels: &[LinePixel; 5], control: u16, start: usize) -> (r: Option<usize>)
    requires
        start <= 20,
    ensures
        match r {
            None => next_visible(pixels@, control, start as int) is None,
            Some(n) => next_visible(pixels@, control, start as int) == Some(n as int) && n < 20,
        },
{
    let mut n = start;
    while n < 20
        invariant
            start <= n <= 20,
            next_visible(pixels@, control, start as int) == next_visible(
                pixels@,
                control,
                n as int,
            ),
        decreases 20 - n,
    {
        let layer = layer_at(n);
        let p = pixels[layer];
        if p.opaque && p.priority == (n / 5) as u8 && control & (1u16 << (layer as u16)) != 0 {
            return Some(n);
        }
        n = n + 1;
    }
    None
}

fn layer_at(n: usize) -> (r: usize)
    requires
        n < 20,
    ensures
        r == layer_of(n as int),
        r < 5,
{
    if n % 5 == 0 {
        LAYER_OBJ
    } else {
        n % 5 - 1
    }
}

/// A line lies in a range that may wrap around the bottom.
fn spans_over(top: u32, bottom: u32, line: u32) -> (r: bool)
    ensures
        r == spans(top as int, bottom as int, line as int),
{
    if top <= bottom {
        line >= top && line < bottom
    } else {
        line >= top || line < bottom
    }
}

/// One 2D engine.
#[derive(Debug)]
pub struct Engine2d {
    pub regs: Registers,
    /// Per-layer scanlines, reused every line.
    pub layers: [Vec<LinePixel>; 5],
    /// Which pixels the sprite pass marked as inside the object window.
    pub obj_window: Vec<bool>,
    /// Whether each window's vertical range covers the line being drawn.
    pub window_row: [bool; 2],
}

impl Engine2d {
    /// Every scanline buffer is one line wide.
    pub open spec fn wf(&self) -> bool {
        &&& forall|i: int| 0 <= i < 5 ==> (#[trigger] self.layers@[i])@.len() == 256
        &&& self.obj_window@.len() == 256
    }

    pub fn new(engine: Engine) -> (r: Self)
        ensures
            r.wf(),
            r.regs == Registers::initial(engine),
    {
        let r = Engine2d {
            regs: Registers {
                engine,
                dispcnt: 0,
                bgcnt: [0, 0, 0, 0],
                bghofs: [0, 0, 0, 0],
                bgvofs: [0, 0, 0, 0],
                bgp: [[0, 0, 0, 0], [0, 0, 0, 0]],
                bgx: [0, 0],
                bgy: [0, 0],
                bgx_internal: [0, 0],
                bgy_internal: [0, 0],
                winh: [0, 0],
                winv: [0, 0],
                winin: 0,
                winout: 0,
                mosaic: 0,
                bldcnt: 0,
                bldalpha: 0,
                bldy: 0,
                master_bright: 0,
            },
            layers: [blank_line(), blank_line(), blank_line(), blank_line(), blank_line()],
            obj_window: vec![false;256],
            window_row: [false, false],
        };
        r
    }

    pub fn engine(&self) -> (r: Engine)
        ensures
            r == self.regs.engine,
    {
        self.regs.engine
    }

    pub fn dispcnt(&self) -> (r: u32)
        ensures
            r == self.regs.dispcnt,
    {
        self.regs.dispcnt
    }

    /// Whether this address is one of this engine's registers.
    pub fn owns(&self, addr: u32) -> (r: bool)
        ensures
            r == (self.regs.engine.base() <= addr < self.regs.engine.base() + reg::END),
    {
        let base = self.regs.engine.base();
        base <= addr && addr < base + reg::END
    }

    /// Reload the affine reference points, which hardware does once per frame.
    pub fn on_frame_start(&mut self)
        requires
            old(self).wf(),
        ensures
            final(self).wf(),
            final(self).regs == (Registers {
                bgx_internal: old(self).regs.bgx,
                bgy_internal: old(self).regs.bgy,
                ..old(self).regs
            }),
    {
        self.regs.bgx_internal = self.regs.bgx;
        self.regs.bgy_internal = self.regs.bgy;
    }

    /// Advance the affine reference points by one scanline.
    ///
    /// Called after each visible line is drawn, not before, so line 0 uses the reference point
    /// exactly as written.
    pub fn on_line_end(&mut self)
        requires
            old(self).wf(),
        ensures
            final(self).wf(),
            final(self).regs == old(self).regs.after_line(),
    {
        let r = self.regs;
        self.regs.bgx_internal =
        [
            r.bgx_internal[0].wrapping_add(r.bgp[0][1] as i32),
            r.bgx_internal[1].wrapping_add(r.bgp[1][1] as i32),
        ];
        self.regs.bgy_internal =
        [
            r.bgy_internal[0].wrapping_add(r.bgp[0][3] as i32),
            r.bgy_internal[1].wrapping_add(r.bgp[1][3] as i32),
        ];
    }

    /// Draw one visible scanline into `out`, which is `SCREEN_WIDTH * 4` bytes of RGBA.
    pub fn render_line(
        &mut self,
        line: u32,
        vram: &Vram,
        palette: &[u8],
        oam: &[u8],
        out: &mut [u8],
    )
        requires
            old(self).wf(),
            line <= LAST_LINE,
            old(out)@.len() >= 1024,
        ensures
            final(self).wf(),
            final(self).regs == old(self).regs,
            line_shown(
                old(self).regs,
                line,
                *vram,
                palette@,
                oam@,
                None,
                old(out)@,
                final(out)@,
            ),
    {
        self.render_line_with_3d(line, vram, palette, oam, None, out)
    }

    /// The same, with the 3D core's output available for BG0.
    ///
    /// When `three_d` is `None`, BG0 draws nothing where it is the 3D layer.
    pub fn render_line_with_3d(
        &mut self,
        line: u32,
        vram: &Vram,
        palette: &[u8],
        oam: &[u8],
        three_d: Option<&Framebuffer3d>,
        out: &mut [u8],
    )
        requires
            old(self).wf(),
            line <= LAST_LINE,
            old(out)@.len() >= 1024,
            three_d matches Some(frame) ==> frame@.whole() && line < 192,
        ensures
            final(self).wf(),
            final(self).regs == old(self).regs,
            line_shown(
                old(self).regs,
                line,
                *vram,
                palette@,
                oam@,
                match three_d {
                    None => None,
                    Some(frame) => Some(frame@),
                },
                old(out)@,
                final(out)@,
            ),
    {
        let dispcnt = self.regs.dispcnt;
        let display_mode = (dispcnt & dispcnt::DISPLAY_MODE) >> 16;
        // Display mode 0 is the display being off, which shows white rather than black.
        if display_mode == 0 || dispcnt & dispcnt::FORCED_BLANK != 0 {
            fill(out, Rgba8::rgb(255, 255, 255));
            return;
        }
        if self.regs.engine == Engine::A {
            if display_mode == 2 {
                self.render_vram_display(line, vram, out);
                return;
            }
            if display_mode == 3 {
                // Main-memory display needs the capture unit. Left blank.
                fill(out, Rgba8::rgb(0, 0, 0));
                return;
            }
        }
        self.obj_window = vec![false;256];
        self.set_window_rows(line);
        let mut objects = blank_line();
        if dispcnt & dispcnt::OBJ_ENABLE != 0 {
            self.regs.render_objects(
                line,
                vram,
                palette,
                oam,
                &mut objects,
                &mut self.obj_window,
            );
        }
        self.layers[4] = objects;
        self.layers[0] = self.regs.background_line(0, line, vram, palette, three_d);
        self.layers[1] = self.regs.background_line(1, line, vram, palette, three_d);
        self.layers[2] = self.regs.background_line(2, line, vram, palette, three_d);
        self.layers[3] = self.regs.background_line(3, line, vram, palette, three_d);
        let ghost frame = match three_d {
            None => None,
            Some(frame) => Some(frame@),
        };
        assert forall|x: int| 0 <= x < 256 implies #[trigger] self.pixels_at(x) == self.regs.column(
            line,
            x,
            *vram,
            palette@,
            oam@,
            frame,
        ) && self.obj_window@[x] == self.regs.object_column_of(
            line,
            x,
            *vram,
            palette@,
            oam@,
        ).1 by {
            assert(self.layers@[4]@[x] == objects@[x]);
            assert(self.pixels_at(x) =~= self.regs.column(line, x, *vram, palette@, oam@, frame));
        }
        self.composite(line, palette, out);
        assert forall|x: int| 0 <= x < 256 implies pixel_written(
            final(out)@,
            x,
            #[trigger] self.regs.shown(line, x, *vram, palette@, oam@, frame),
        ) by {
            assert(self.pixels_at(x) == self.regs.column(line, x, *vram, palette@, oam@, frame));
        }
    }

    /// The five layer buffers at a column.
    pub open spec fn pixels_at(&self, x: int) -> Seq<LinePixel> {
        Seq::new(5, |layer: int| self.layers@[layer]@[x])
    }

    /// A raw 15-bit framebuffer read straight out of one 128 KiB VRAM bank, bypassing every layer.
    fn render_vram_display(&self, line: u32, vram: &Vram, out: &mut [u8])
        requires
            line <= LAST_LINE,
            old(out)@.len() >= 1024,
        ensures
            final(out)@.len() == old(out)@.len(),
            forall|i: int| 1024 <= i < old(out)@.len() ==> final(out)@[i] == old(out)@[i],
            forall|x: int|
                0 <= x < 256 ==> pixel_written(
                    final(out)@,
                    x,
                    rgba_of(
                        #[trigger] self.regs.mastered(
                            vram.half(
                                VramSpace::Lcdc,
                                (((self.regs.dispcnt & dispcnt::VRAM_BLOCK) >> 18) * 0x2_0000 + line
                                    * SCREEN_WIDTH * 2 + x * 2) as u32,
                            ),
                        ),
                    ),
                ),
    {
        let d = self.regs.dispcnt;
        proof {
            crate::bits::lemma_middle_fields(d);
        }
        let block = (d & dispcnt::VRAM_BLOCK) >> 18;
        // The banks are addressed through the LCDC window, where A-D sit at 128 KiB intervals.
        let base: u32 = block * 0x2_0000 + line * SCREEN_WIDTH * 2;
        for x in 0..256u32
            invariant
                base == block * 0x2_0000 + line * SCREEN_WIDTH * 2,
                block <= 3,
                line <= LAST_LINE,
                out@.len() == old(out)@.len(),
                out@.len() >= 1024,
                forall|i: int| 4 * x <= i < out@.len() ==> #[trigger] out@[i] == old(out)@[i],
                forall|i: int|
                    0 <= i < x ==> pixel_written(
                        out@,
                        i,
                        rgba_of(
                            #[trigger] self.regs.mastered(
                                vram.half(
                                    VramSpace::Lcdc,
                                    (block * 0x2_0000 + line * SCREEN_WIDTH * 2 + i * 2) as u32,
                                ),
                            ),
                        ),
                    ),
        {
            let color = vram.read16(VramSpace::Lcdc, base + x * 2);
            write_pixel(out, x as usize, self.regs.apply_master_brightness(color));
        }
    }

    /// Resolve every pixel of the line from the layer buffers.
    fn composite(&self, line: u32, palette: &[u8], out: &mut [u8])
        requires
            self.wf(),
            self.window_row@ == seq![
                self.regs.row_inside(0, line),
                self.regs.row_inside(1, line),
            ],
            old(out)@.len() >= 1024,
        ensures
            final(out)@.len() == old(out)@.len(),
            forall|i: int| 1024 <= i < old(out)@.len() ==> final(out)@[i] == old(out)@[i],
            forall|x: int|
                0 <= x < 256 ==> pixel_written(
                    final(out)@,
                    x,
                    rgba_of(
                        self.regs.mastered(
                            self.regs.composed(
                                #[trigger] self.pixels_at(x),
                                self.regs.window_control(line, x, self.obj_window@[x]),
                                palette_color(
                                    palette@,
                                    self.regs.engine.block_offset() as int,
                                    0,
                                ),
                            ),
                        ),
                    ),
                ),
    {
        let backdrop = read_palette(palette, self.regs.engine.block_offset(), 0);
        for x in 0..256usize
            invariant
                self.wf(),
                self.window_row@ == seq![
                    self.regs.row_inside(0, line),
                    self.regs.row_inside(1, line),
                ],
                backdrop == palette_color(palette@, self.regs.engine.block_offset() as int, 0),
                out@.len() == old(out)@.len(),
                out@.len() >= 1024,
                forall|i: int| 4 * x <= i < out@.len() ==> #[trigger] out@[i] == old(out)@[i],
                forall|i: int|
                    0 <= i < x ==> pixel_written(
                        out@,
                        i,
                        rgba_of(
                            self.regs.mastered(
                                self.regs.composed(
                                    #[trigger] self.pixels_at(i),
                                    self.regs.window_control(line, i, self.obj_window@[i]),
                                    backdrop,
                                ),
                            ),
                        ),
                    ),
        {
            let color = self.compose(line, x, backdrop);
            write_pixel(out, x, self.regs.apply_master_brightness(color));
        }
    }

    /// The colour of one pixel, from the layer buffers there.
    fn compose(&self, line: u32, x: usize, backdrop: u16) -> (r: u16)
        requires
            self.wf(),
            x < 256,
            self.window_row@ == seq![
                self.regs.row_inside(0, line),
                self.regs.row_inside(1, line),
            ],
        ensures
            r == self.regs.composed(
                self.pixels_at(x as int),
                self.regs.window_control(line, x as int, self.obj_window@[x as int]),
                backdrop,
            ),
    {
        let control = self.window_at(line, x);
        let pixels = [
            self.layers[0][x],
            self.layers[1][x],
            self.layers[2][x],
            self.layers[3][x],
            self.layers[4][x],
        ];
        assert(pixels@ =~= self.pixels_at(x as int));
        // Front-most and second-most opaque layers, by priority then by the fixed layer order.
        // Sprites beat a background of equal priority.
        let first = find_visible(&pixels, control, 0);
        let (top_layer, top, second) = match first {
            None => (
                LAYER_BACKDROP,
                LinePixel {
                    color: backdrop,
                    opaque: true,
                    priority: 3,
                    semi_transparent: false,
                    alpha_3d: 0,
                },
                None,
            ),
            Some(n) => (
                layer_at(n),
                pixels[layer_at(n)],
                find_visible(&pixels, control, n + 1),
            ),
        };
        let (below_layer, below) = match second {
            None => (LAYER_BACKDROP, backdrop),
            Some(n) => (layer_at(n), pixels[layer_at(n)].color),
        };
        self.regs.mix(top_layer, top, below_layer, below, control & 0x20 != 0)
    }

    /// Which layers may draw at this pixel, and whether the colour effect applies there.
    fn window_at(&self, line: u32, x: usize) -> (r: u16)
        requires
            self.wf(),
            x < 256,
            self.window_row@ == seq![
                self.regs.row_inside(0, line),
                self.regs.row_inside(1, line),
            ],
        ensures
            r == self.regs.window_control(line, x as int, self.obj_window@[x as int]),
    {
        let d = self.regs.dispcnt;
        if d & (dispcnt::WIN0_ENABLE | dispcnt::WIN1_ENABLE | dispcnt::OBJ_WINDOW_ENABLE) == 0 {
            return 0x3F;
        }
        if d & dispcnt::WIN0_ENABLE != 0 && self.in_window(line, 0, x) {
            self.regs.winin & 0x3F
        } else if d & dispcnt::WIN1_ENABLE != 0 && self.in_window(line, 1, x) {
            (self.regs.winin >> 8) & 0x3F
        } else if d & dispcnt::OBJ_WINDOW_ENABLE != 0 && self.obj_window[x] {
            (self.regs.winout >> 8) & 0x3F
        } else {
            self.regs.winout & 0x3F
        }
    }

    /// Whether this x is inside window 0 or 1, given the current line's vertical test.
    fn in_window(&self, line: u32, index: usize, x: usize) -> (r: bool)
        requires
            index < 2,
            x < 256,
            self.window_row@ == seq![
                self.regs.row_inside(0, line),
                self.regs.row_inside(1, line),
            ],
        ensures
            r == (self.regs.row_inside(index as int, line) && self.regs.column_inside(
                index as int,
                x as int,
            )),
    {
        if !self.window_row[index] {
            return false;
        }
        let left = (self.regs.winh[index] >> 8) as u32;
        let right = (self.regs.winh[index] & 0xFF) as u32;
        // A window whose right edge is at or before its left wraps around the screen edge, which is
        // how software makes one that spans the seam.
        if left < right {
            x as u32 >= left && (x as u32) < right
        } else {
            x as u32 >= left || (x as u32) < right
        }
    }

    /// Decide, once per line, whether each window's vertical range contains it.
    pub fn set_window_rows(&mut self, line: u32)
        requires
            old(self).wf(),
        ensures
            final(self).wf(),
            final(self).regs == old(self).regs,
            final(self).layers == old(self).layers,
            final(self).obj_window == old(self).obj_window,
            final(self).window_row@ == seq![
                old(self).regs.row_inside(0, line),
                old(self).regs.row_inside(1, line),
            ],
    {
        let winv = self.regs.winv;
        self.window_row =
        [
            spans_over((winv[0] >> 8) as u32, (winv[0] & 0xFF) as u32, line),
            spans_over((winv[1] >> 8) as u32, (winv[1] & 0xFF) as u32, line),
        ];
        assert(self.window_row@ =~= seq![
            self.regs.row_inside(0, line),
            self.regs.row_inside(1, line),
        ]);
    }
}

impl Registers {
    /// One line of one background.
    fn background_line(
        &self,
        layer: usize,
        line: u32,
        vram: &Vram,
        palette: &[u8],
        three_d: Option<&Framebuffer3d>,
    ) -> (r: Vec<LinePixel>)
        requires
            layer < 4,
            line <= LAST_LINE,
            three_d matches Some(frame) ==> frame@.whole() && line < 192,
        ensures
            r@.len() == 256,
            forall|x: int|
                0 <= x < 256 ==> #[trigger] r@[x] == self.background_pixel(
                    layer as int,
                    line,
                    x,
                    *vram,
                    palette@,
                    match three_d {
                        None => None,
                        Some(frame) => Some(frame@),
                    },
                ),
    {
        let mut out = blank_line();
        let enabled = (self.dispcnt & dispcnt::BG_ENABLE) >> 8;
        if enabled & (1u32 << (layer as u32)) == 0 {
            return out;
        }
        if layer == 0 && self.engine == Engine::A && self.dispcnt & dispcnt::BG0_IS_3D != 0 {
            if let Some(frame) = three_d {
                self.render_3d_layer(line, frame, &mut out);
            }
            return out;
        }
        let priority = (self.bgcnt[layer] & 3) as u8;
        for x in 0..256u32
            invariant
                layer < 4,
                line <= LAST_LINE,
                priority == (self.bgcnt[layer as int] & 3) as u8,
                out@.len() == 256,
                self.layer_enabled(layer as int),
                !(layer == 0 && self.shows_3d()),
                forall|i: int|
                    0 <= i < x ==> #[trigger] out@[i] == self.background_pixel(
                        layer as int,
                        line,
                        i,
                        *vram,
                        palette@,
                        match three_d {
                            None => None,
                            Some(frame) => Some(frame@),
                        },
                    ),
                forall|i: int| x <= i < 256 ==> #[trigger] out@[i] == clear_pixel(),
        {
            match self.render_background(layer, line, x, vram, palette) {
                None => {},
                Some(color) => {
                    out[x as usize] = LinePixel {
                        color,
                        opaque: true,
                        priority,
                        semi_transparent: false,
                        alpha_3d: 0,
                    };
                },
            }
        }
        out
    }

    /// Copy one line of the 3D core's output.
    fn render_3d_layer(&self, line: u32, frame: &Framebuffer3d, out: &mut Vec<LinePixel>)
        requires
            frame@.whole(),
            line < 192,
            old(out)@.len() == 256,
            forall|i: int| 0 <= i < 256 ==> #[trigger] old(out)@[i] == clear_pixel(),
        ensures
            final(out)@.len() == 256,
            forall|x: int|
                0 <= x < 256 ==> #[trigger] final(out)@[x] == self.pixel_3d(line, x, frame@),
    {
        let priority = (self.bgcnt[0] & 3) as u8;
        for x in 0..256u32
            invariant
                frame@.whole(),
                line < 192,
                priority == (self.bgcnt[0] & 3) as u8,
                out@.len() == 256,
                forall|i: int| 0 <= i < x ==> #[trigger] out@[i] == self.pixel_3d(line, i, frame@),
                forall|i: int| x <= i < 256 ==> #[trigger] out@[i] == clear_pixel(),
        {
            let alpha = frame.alpha_at(x, line);
            if alpha != 0 {
                out[x as usize] = LinePixel {
                    color: frame.color_at(x, line),
                    opaque: true,
                    priority,
                    // A translucent 3D pixel forces the blend on, the same way a semi-transparent
                    // sprite does.
                    semi_transparent: alpha < 31,
                    alpha_3d: alpha,
                };
            }
        }
    }
}

/// One line with nothing on it.
fn blank_line() -> (r: Vec<LinePixel>)
    ensures
        r@.len() == 256,
        forall|i: int| 0 <= i < 256 ==> #[trigger] r@[i] == clear_pixel(),
{
    vec![LinePixel { color: 0, opaque: false, priority: 0, semi_transparent: false, alpha_3d: 0 };256]
}

/// The four bytes of pixel `x` hold a colour.
pub open spec fn pixel_written(out: Seq<u8>, x: int, color: Rgba8) -> bool {
    &&& out[4 * x] == color.r
    &&& out[4 * x + 1] == color.g
    &&& out[4 * x + 2] == color.b
    &&& out[4 * x + 3] == color.a
}

/// What drawing a line does to the bytes of a screen line. A buffer longer than a line is only
/// touched past the line where the screen is filled whole.
pub open spec fn line_shown(
    regs: Registers,
    line: u32,
    vram: Vram,
    palette: Seq<u8>,
    oam: Seq<u8>,
    three_d: Option<FrameState>,
    before: Seq<u8>,
    after: Seq<u8>,
) -> bool {
    &&& after.len() == before.len()
    &&& forall|x: int|
        0 <= x < 256 ==> pixel_written(
            after,
            x,
            #[trigger] regs.shown(line, x, vram, palette, oam, three_d),
        )
    &&& if regs.filled() {
        forall|i: int|
            1024 <= i < after.len() / 4 * 4 ==> #[trigger] after[i] == after[i % 4]
    } else {
        forall|i: int| 1024 <= i < after.len() ==> #[trigger] after[i] == before[i]
    }
}

/// Fill a whole buffer with one colour.
fn fill(out: &mut [u8], color: Rgba8)
    ensures
        final(out)@.len() == old(out)@.len(),
        forall|x: int|
            0 <= x < old(out)@.len() / 4 ==> #[trigger] pixel_written(final(out)@, x, color),
        forall|i: int|
            0 <= i < old(out)@.len() / 4 * 4 ==> #[trigger] final(out)@[i] == final(out)@[i % 4],
{
    let length = out.len();
    let count = length / 4;
    for x in 0..count
        invariant
            length == old(out)@.len(),
            count == length / 4,
            out@.len() == old(out)@.len(),
            forall|j: int| 0 <= j < x ==> #[trigger] pixel_written(out@, j, color),
    {
        let ghost before = out@;
        out[4 * x] = color.r;
        out[4 * x + 1] = color.g;
        out[4 * x + 2] = color.b;
        out[4 * x + 3] = color.a;
        assert forall|j: int| 0 <= j < x + 1 implies #[trigger] pixel_written(out@, j, color) by {
            if j < x {
                assert(pixel_written(before, j, color));
            }
        }
    }
    assert forall|i: int| 0 <= i < count * 4 implies #[trigger] out@[i] == out@[i % 4] by {
        assert(pixel_written(out@, i / 4, color));
        assert(pixel_written(out@, 0, color));
        assert(i == 4 * (i / 4) + i % 4);
    }
}

fn write_pixel(out: &mut [u8], x: usize, color: u16)
    requires
        x < 256,
        old(out)@.len() >= 1024,
    ensures
        final(out)@.len() == old(out)@.len(),
        pixel_written(final(out)@, x as int, rgba_of(color)),
        forall|i: int|
            0 <= i < old(out)@.len() && !(4 * x <= i < 4 * x + 4) ==> #[trigger] final(out)@[i]
                == old(out)@[i],
{
    let rgba = bgr555_to_rgba(color);
    let base: usize = x * 4;
    out[base] = rgba.r;
    out[base + 1] = rgba.g;
    out[base + 2] = rgba.b;
    out[base + 3] = rgba.a;
}

impl Registers {
    /// The halfword at an offset into the register block. Write-only registers read as zero.
    pub open spec fn half(self, offset: u32) -> u16 {
        if offset == 0x000 {
            self.dispcnt as u16
        } else if offset == 0x002 {
            (self.dispcnt >> 16) as u16
        } else if 0x008 <= offset <= 0x00E {
            self.bgcnt[(offset - reg::BGCNT) / 2]
        } else if offset == 0x048 {
            self.winin
        } else if offset == 0x04A {
            self.winout
        } else if offset == 0x04C {
            self.mosaic
        } else if offset == 0x050 {
            self.bldcnt
        } else if offset == 0x052 {
            self.bldalpha
        } else if offset == 0x06C {
            self.master_bright
        } else {
            0
        }
    }

    /// The address is one of this engine's registers.
    pub open spec fn owned(self, addr: u32) -> bool {
        self.engine.base() <= addr < self.engine.base() + reg::END
    }

    /// The halfword at an address, where there is one.
    pub open spec fn half_at(self, addr: u32) -> Option<u16> {
        if self.owned(addr) {
            Some(self.half(align2((addr - self.engine.base()) as u32)))
        } else {
            None
        }
    }

    /// What `DISPCNT` becomes: engine B has no base offsets, no 3D layer, and one bit of display
    /// mode.
    pub open spec fn masked_dispcnt(self, value: u32) -> u32 {
        match self.engine {
            Engine::A => value,
            Engine::B => value & !(dispcnt::CHAR_BASE | dispcnt::SCREEN_BASE | dispcnt::BG0_IS_3D)
                & !0x2_0000u32,
        }
    }

    /// A halfword written to the affine block of BG2 or BG3. A written reference point takes
    /// effect at once.
    pub open spec fn with_affine(self, offset: u32, value: u16) -> Registers {
        let block: int = if offset < reg::BG3PA { 0 } else { 1 };
        let within = offset - (if offset < reg::BG3PA { reg::BG2PA } else { reg::BG3PA });
        if within < 8 {
            let p = self.bgp[block];
            let v = value as i16;
            let q = if within == 0 {
                [v, p[1], p[2], p[3]]
            } else if within == 2 {
                [p[0], v, p[2], p[3]]
            } else if within == 4 {
                [p[0], p[1], v, p[3]]
            } else {
                [p[0], p[1], p[2], v]
            };
            Registers { bgp: with_block(self.bgp, block, q), ..self }
        } else if within < 12 {
            let x = extended_28(spliced(self.bgx[block] as u32, within == 10, value));
            Registers {
                bgx: with_word(self.bgx, block, x),
                bgx_internal: with_word(self.bgx_internal, block, x),
                ..self
            }
        } else {
            let y = extended_28(spliced(self.bgy[block] as u32, within == 14, value));
            Registers {
                bgy: with_word(self.bgy, block, y),
                bgy_internal: with_word(self.bgy_internal, block, y),
                ..self
            }
        }
    }

    /// A halfword written to an offset into the register block.
    pub open spec fn with_half(self, offset: u32, value: u16) -> Registers {
        if offset == 0x000 {
            Registers {
                dispcnt: self.masked_dispcnt((self.dispcnt & 0xFFFF_0000) | value as u32),
                ..self
            }
        } else if offset == 0x002 {
            Registers {
                dispcnt: self.masked_dispcnt((self.dispcnt & 0xFFFF) | ((value as u32) << 16)),
                ..self
            }
        } else if 0x008 <= offset <= 0x00E {
            Registers {
                bgcnt: with_entry(self.bgcnt, (offset - reg::BGCNT) / 2, value),
                ..self
            }
        } else if 0x010 <= offset <= 0x01F {
            let index = (offset - reg::BGOFS) / 4;
            if offset % 4 < 2 {
                Registers { bghofs: with_entry(self.bghofs, index, value & 0x1FF), ..self }
            } else {
                Registers { bgvofs: with_entry(self.bgvofs, index, value & 0x1FF), ..self }
            }
        } else if 0x020 <= offset <= 0x03F {
            self.with_affine(offset, value)
        } else if offset == 0x040 {
            Registers { winh: [value, self.winh[1]], ..self }
        } else if offset == 0x042 {
            Registers { winh: [self.winh[0], value], ..self }
        } else if offset == 0x044 {
            Registers { winv: [value, self.winv[1]], ..self }
        } else if offset == 0x046 {
            Registers { winv: [self.winv[0], value], ..self }
        } else if offset == 0x048 {
            Registers { winin: value & 0x3F3F, ..self }
        } else if offset == 0x04A {
            Registers { winout: value & 0x3F3F, ..self }
        } else if offset == 0x04C {
            Registers { mosaic: value, ..self }
        } else if offset == 0x050 {
            Registers { bldcnt: value & 0x3FFF, ..self }
        } else if offset == 0x052 {
            Registers { bldalpha: value & 0x1F1F, ..self }
        } else if offset == 0x054 {
            Registers { bldy: value & 0x1F, ..self }
        } else if offset == 0x06C {
            Registers { master_bright: value & 0xC01F, ..self }
        } else {
            self
        }
    }

    /// A halfword written to an address.
    pub open spec fn written(self, addr: u32, value: u16) -> Registers {
        if self.owned(addr) {
            self.with_half(align2((addr - self.engine.base()) as u32), value)
        } else {
            self
        }
    }
}

/// Four entries with one replaced.
pub open spec fn with_entry(a: [u16; 4], i: int, value: u16) -> [u16; 4] {
    if i == 0 {
        [value, a[1], a[2], a[3]]
    } else if i == 1 {
        [a[0], value, a[2], a[3]]
    } else if i == 2 {
        [a[0], a[1], value, a[3]]
    } else {
        [a[0], a[1], a[2], value]
    }
}

/// Two words with one replaced.
pub open spec fn with_word(a: [i32; 2], i: int, value: i32) -> [i32; 2] {
    if i == 0 { [value, a[1]] } else { [a[0], value] }
}

/// Two parameter blocks with one replaced.
pub open spec fn with_block(a: [[i16; 4]; 2], i: int, value: [i16; 4]) -> [[i16; 4]; 2] {
    if i == 0 { [value, a[1]] } else { [a[0], value] }
}

/// The byte of a halfword that an address selects.
pub open spec fn byte_of(value: u16, addr: u32) -> u8 {
    if addr % 2 == 0 { value as u8 } else { (value >> 8) as u8 }
}

/// A halfword with the byte that an address selects replaced.
pub open spec fn with_byte(current: u16, addr: u32, value: u8) -> u16 {
    if addr % 2 == 0 {
        (current & 0xFF00) | value as u16
    } else {
        (current & 0x00FF) | ((value as u16) << 8)
    }
}

fn set_entry(a: [u16; 4], i: usize, value: u16) -> (r: [u16; 4])
    requires
        i < 4,
    ensures
        r == with_entry(a, i as int, value),
{
    let mut b = a;
    b[i] = value;
    assert(b =~= with_entry(a, i as int, value));
    b
}

impl Engine2d {
    pub fn read16(&self, addr: u32) -> (r: Option<u16>)
        ensures
            r == self.regs.half_at(addr),
    {
        broadcast use crate::bits::lemma_and_bound_u32;

        if !self.owns(addr) {
            return None;
        }
        let offset = align2(addr - self.regs.engine.base());
        let r = &self.regs;
        Some(
            if offset == 0x000 {
                r.dispcnt as u16
            } else if offset == 0x002 {
                (r.dispcnt >> 16) as u16
            } else if 0x008 <= offset && offset <= 0x00E {
                r.bgcnt[((offset - reg::BGCNT) / 2) as usize]
            } else if offset == 0x048 {
                r.winin
            } else if offset == 0x04A {
                r.winout
            } else if offset == 0x04C {
                r.mosaic
            } else if offset == 0x050 {
                r.bldcnt
            } else if offset == 0x052 {
                r.bldalpha
            } else if offset == 0x06C {
                r.master_bright
            } else {
                // Scroll registers and the affine parameters are write-only, and read as zero.
                0
            },
        )
    }

    pub fn read32(&self, addr: u32) -> (r: Option<u32>)
        ensures
            r == (match (self.regs.half_at(addr), self.regs.half_at((addr + 2) as u32)) {
                (Some(low), Some(high)) => Some(low as u32 | ((high as u32) << 16)),
                _ => None::<u32>,
            }),
    {
        match self.read16(addr) {
            None => None,
            Some(low) => match self.read16(addr + 2) {
                None => None,
                Some(high) => Some(low as u32 | ((high as u32) << 16)),
            },
        }
    }

    pub fn read8(&self, addr: u32) -> (r: Option<u8>)
        ensures
            r == (match self.regs.half_at(align2(addr)) {
                None => None::<u8>,
                Some(value) => Some(byte_of(value, addr)),
            }),
    {
        match self.read16(align2(addr)) {
            None => None,
            Some(value) => Some(
                if addr % 2 == 0 {
                    value as u8
                } else {
                    (value >> 8) as u8
                },
            ),
        }
    }

    pub fn write16(&mut self, addr: u32, value: u16) -> (r: bool)
        requires
            old(self).wf(),
        ensures
            final(self).wf(),
            final(self).regs == old(self).regs.written(addr, value),
            r == old(self).regs.owned(addr),
    {
        if !self.owns(addr) {
            return false;
        }
        let offset = align2(addr - self.regs.engine.base());
        let ghost before = self.regs;
        if offset == 0x000 {
            self.set_dispcnt((self.regs.dispcnt & 0xFFFF_0000) | value as u32);
        } else if offset == 0x002 {
            self.set_dispcnt((self.regs.dispcnt & 0xFFFF) | ((value as u32) << 16));
        } else if 0x008 <= offset && offset <= 0x00E {
            self.regs.bgcnt =
            set_entry(self.regs.bgcnt, ((offset - reg::BGCNT) / 2) as usize, value);
        } else if 0x010 <= offset && offset <= 0x01F {
            let index = ((offset - reg::BGOFS) / 4) as usize;
            if offset % 4 < 2 {
                self.regs.bghofs = set_entry(self.regs.bghofs, index, value & 0x1FF);
            } else {
                self.regs.bgvofs = set_entry(self.regs.bgvofs, index, value & 0x1FF);
            }
        } else if 0x020 <= offset && offset <= 0x03F {
            self.write_affine(offset, value);
        } else if offset == 0x040 {
            self.regs.winh = [value, self.regs.winh[1]];
        } else if offset == 0x042 {
            self.regs.winh = [self.regs.winh[0], value];
        } else if offset == 0x044 {
            self.regs.winv = [value, self.regs.winv[1]];
        } else if offset == 0x046 {
            self.regs.winv = [self.regs.winv[0], value];
        } else if offset == 0x048 {
            self.regs.winin = value & 0x3F3F;
        } else if offset == 0x04A {
            self.regs.winout = value & 0x3F3F;
        } else if offset == 0x04C {
            self.regs.mosaic = value;
        } else if offset == 0x050 {
            self.regs.bldcnt = value & 0x3FFF;
        } else if offset == 0x052 {
            self.regs.bldalpha = value & 0x1F1F;
        } else if offset == 0x054 {
            self.regs.bldy = value & 0x1F;
        } else if offset == 0x06C {
            self.regs.master_bright = value & 0xC01F;
        }
        // Anything else is accepted and ignored.
        true
    }

    fn write_affine(&mut self, offset: u32, value: u16)
        requires
            old(self).wf(),
            0x020 <= offset <= 0x03F,
            offset % 2 == 0,
        ensures
            final(self).wf(),
            final(self).regs == old(self).regs.with_affine(offset, value),
    {
        let block: usize = if offset < reg::BG3PA { 0 } else { 1 };
        let within: u32 = offset - (if block == 0 { reg::BG2PA } else { reg::BG3PA });
        if within < 8 {
            let p = self.regs.bgp[block];
            let v = value as i16;
            let q = if within == 0 {
                [v, p[1], p[2], p[3]]
            } else if within == 2 {
                [p[0], v, p[2], p[3]]
            } else if within == 4 {
                [p[0], p[1], v, p[3]]
            } else {
                [p[0], p[1], p[2], v]
            };
            self.regs.bgp =
            if block == 0 {
                [q, self.regs.bgp[1]]
            } else {
                [self.regs.bgp[0], q]
            };
        } else if within < 12 {
            let x = sign_extend_28(splice(self.regs.bgx[block] as u32, within == 10, value));
            self.regs.bgx = set_word(self.regs.bgx, block, x);
            self.regs.bgx_internal = set_word(self.regs.bgx_internal, block, x);
        } else {
            let y = sign_extend_28(splice(self.regs.bgy[block] as u32, within == 14, value));
            self.regs.bgy = set_word(self.regs.bgy, block, y);
            self.regs.bgy_internal = set_word(self.regs.bgy_internal, block, y);
        }
    }

    fn set_dispcnt(&mut self, value: u32)
        requires
            old(self).wf(),
        ensures
            final(self).wf(),
            final(self).regs == (Registers {
                dispcnt: old(self).regs.masked_dispcnt(value),
                ..old(self).regs
            }),
    {
        self.regs.dispcnt =
        match self.regs.engine {
            Engine::A => value,
            Engine::B => value & !(dispcnt::CHAR_BASE | dispcnt::SCREEN_BASE | dispcnt::BG0_IS_3D)
                & !0x2_0000u32,
        };
    }

    pub fn write32(&mut self, addr: u32, value: u32) -> (r: bool)
        requires
            old(self).wf(),
        ensures
            final(self).wf(),
            final(self).regs == (if old(self).regs.owned(addr) {
                old(self).regs.written(addr, value as u16).written(
                    (addr + 2) as u32,
                    (value >> 16) as u16,
                )
            } else {
                old(self).regs
            }),
            r == (old(self).regs.owned(addr) && old(self).regs.owned((addr + 2) as u32)),
    {
        if !self.write16(addr, value as u16) {
            return false;
        }
        self.write16(addr + 2, (value >> 16) as u16)
    }

    pub fn write8(&mut self, addr: u32, value: u8) -> (r: bool)
        requires
            old(self).wf(),
        ensures
            final(self).wf(),
            r == old(self).regs.owned(align2(addr)),
            final(self).regs == (match old(self).regs.half_at(align2(addr)) {
                None => old(self).regs,
                Some(current) => old(self).regs.written(
                    align2(addr),
                    with_byte(current, addr, value),
                ),
            }),
    {
        let current = match self.read16(align2(addr)) {
            None => {
                return false;
            },
            Some(current) => current,
        };
        let spliced = if addr % 2 == 0 {
            (current & 0xFF00) | value as u16
        } else {
            (current & 0x00FF) | ((value as u16) << 8)
        };
        self.write16(align2(addr), spliced)
    }
}

fn set_word(a: [i32; 2], i: usize, value: i32) -> (r: [i32; 2])
    requires
        i < 2,
    ensures
        r == with_word(a, i as int, value),
{
    if i == 0 {
        [value, a[1]]
    } else {
        [a[0], value]
    }
}

/// How many bytes a saved engine takes.
pub open spec fn saved_size() -> int {
    98
}

/// The four halfwords at `at`, each only as far as the stream reaches.
pub open spec fn halves4_or(d: Seq<u8>, limit: int, at: int, a: [u16; 4]) -> [u16; 4] {
    [
        state::or16(d, limit, at, a[0]),
        state::or16(d, limit, at + 2, a[1]),
        state::or16(d, limit, at + 4, a[2]),
        state::or16(d, limit, at + 6, a[3]),
    ]
}

/// The four signed halfwords at `at`, each only as far as the stream reaches.
pub open spec fn signed4_or(d: Seq<u8>, limit: int, at: int, a: [i16; 4]) -> [i16; 4] {
    [
        state::or_i16(d, limit, at, a[0]),
        state::or_i16(d, limit, at + 2, a[1]),
        state::or_i16(d, limit, at + 4, a[2]),
        state::or_i16(d, limit, at + 6, a[3]),
    ]
}

/// The two words at `at` and sixteen bytes on, each only as far as the stream reaches.
pub open spec fn pair_or(d: Seq<u8>, limit: int, at: int, a: [i32; 2]) -> [i32; 2] {
    [state::or_i32(d, limit, at, a[0]), state::or_i32(d, limit, at + 16, a[1])]
}

impl Registers {
    /// The registers after reading the stream at `at` as far as `limit` lets it be read.
    pub open spec fn restored(self, d: Seq<u8>, limit: int, at: int) -> Registers {
        Registers {
            engine: self.engine,
            dispcnt: state::or32(d, limit, at, self.dispcnt),
            bgcnt: halves4_or(d, limit, at + 4, self.bgcnt),
            bghofs: halves4_or(d, limit, at + 12, self.bghofs),
            bgvofs: halves4_or(d, limit, at + 20, self.bgvofs),
            bgp: [
                signed4_or(d, limit, at + 28, self.bgp[0]),
                signed4_or(d, limit, at + 36, self.bgp[1]),
            ],
            bgx: pair_or(d, limit, at + 44, self.bgx),
            bgy: pair_or(d, limit, at + 48, self.bgy),
            bgx_internal: pair_or(d, limit, at + 52, self.bgx_internal),
            bgy_internal: pair_or(d, limit, at + 56, self.bgy_internal),
            winh: [
                state::or16(d, limit, at + 76, self.winh[0]),
                state::or16(d, limit, at + 78, self.winh[1]),
            ],
            winv: [
                state::or16(d, limit, at + 80, self.winv[0]),
                state::or16(d, limit, at + 82, self.winv[1]),
            ],
            winin: state::or16(d, limit, at + 84, self.winin),
            winout: state::or16(d, limit, at + 86, self.winout),
            mosaic: state::or16(d, limit, at + 88, self.mosaic),
            bldcnt: state::or16(d, limit, at + 90, self.bldcnt),
            bldalpha: state::or16(d, limit, at + 92, self.bldalpha),
            bldy: state::or16(d, limit, at + 94, self.bldy),
            master_bright: state::or16(d, limit, at + 96, self.master_bright),
        }
    }

    /// The stream holds these registers at `at`.
    pub open spec fn encoded_at(self, d: Seq<u8>, at: int) -> bool {
        &&& at + saved_size() <= d.len()
        &&& self.restored(d, d.len() as int, at) == self
    }
}

fn load4(a: [u16; 4], r: &mut StateReader) -> (b: [u16; 4])
    ensures
        state::advanced(*old(r), *final(r), 8),
        b == halves4_or(old(r).data(), old(r).limit(), old(r).pos() as int, a),
{
    let b0 = r.u16_or(a[0]);
    let b1 = r.u16_or(a[1]);
    let b2 = r.u16_or(a[2]);
    let b3 = r.u16_or(a[3]);
    [b0, b1, b2, b3]
}

fn load4_signed(a: [i16; 4], r: &mut StateReader) -> (b: [i16; 4])
    ensures
        state::advanced(*old(r), *final(r), 8),
        b == signed4_or(old(r).data(), old(r).limit(), old(r).pos() as int, a),
{
    let b0 = r.i16_or(a[0]);
    let b1 = r.i16_or(a[1]);
    let b2 = r.i16_or(a[2]);
    let b3 = r.i16_or(a[3]);
    [b0, b1, b2, b3]
}

fn save4(a: &[u16; 4], w: &mut StateWriter)
    ensures
        state::continues(old(w)@, final(w)@),
        final(w)@.len() == old(w)@.len() + 8,
        state::le16(final(w)@, old(w)@.len() as int) == a[0],
        state::le16(final(w)@, old(w)@.len() as int + 2) == a[1],
        state::le16(final(w)@, old(w)@.len() as int + 4) == a[2],
        state::le16(final(w)@, old(w)@.len() as int + 6) == a[3],
{
    w.write_u16(a[0]);
    w.write_u16(a[1]);
    w.write_u16(a[2]);
    w.write_u16(a[3]);
}

fn save4_signed(a: &[i16; 4], w: &mut StateWriter)
    ensures
        state::continues(old(w)@, final(w)@),
        final(w)@.len() == old(w)@.len() + 8,
        state::le16(final(w)@, old(w)@.len() as int) as i16 == a[0],
        state::le16(final(w)@, old(w)@.len() as int + 2) as i16 == a[1],
        state::le16(final(w)@, old(w)@.len() as int + 4) as i16 == a[2],
        state::le16(final(w)@, old(w)@.len() as int + 6) as i16 == a[3],
{
    w.write_i16(a[0]);
    w.write_i16(a[1]);
    w.write_i16(a[2]);
    w.write_i16(a[3]);
}

impl Engine2d {
    pub fn save(&self, w: &mut StateWriter)
        ensures
            state::continues(old(w)@, final(w)@),
            final(w)@.len() == old(w)@.len() + saved_size(),
            self.regs.encoded_at(final(w)@, old(w)@.len() as int),
    {
        let ghost at = w@.len() as int;
        let r = &self.regs;
        w.write_u32(r.dispcnt);
        save4(&r.bgcnt, w);
        save4(&r.bghofs, w);
        save4(&r.bgvofs, w);
        save4_signed(&r.bgp[0], w);
        save4_signed(&r.bgp[1], w);
        w.write_i32(r.bgx[0]);
        w.write_i32(r.bgy[0]);
        w.write_i32(r.bgx_internal[0]);
        w.write_i32(r.bgy_internal[0]);
        w.write_i32(r.bgx[1]);
        w.write_i32(r.bgy[1]);
        w.write_i32(r.bgx_internal[1]);
        w.write_i32(r.bgy_internal[1]);
        w.write_u16(r.winh[0]);
        w.write_u16(r.winh[1]);
        w.write_u16(r.winv[0]);
        w.write_u16(r.winv[1]);
        w.write_u16(r.winin);
        w.write_u16(r.winout);
        w.write_u16(r.mosaic);
        w.write_u16(r.bldcnt);
        w.write_u16(r.bldalpha);
        w.write_u16(r.bldy);
        w.write_u16(r.master_bright);
        let ghost read = r.restored(w@, w@.len() as int, at);
        assert(read.bgcnt =~= r.bgcnt);
        assert(read.bghofs =~= r.bghofs);
        assert(read.bgvofs =~= r.bgvofs);
        assert(read.bgp[0] =~= r.bgp[0]);
        assert(read.bgp[1] =~= r.bgp[1]);
        assert(read.bgp =~= r.bgp);
        assert(read.bgx =~= r.bgx);
        assert(read.bgy =~= r.bgy);
        assert(read.bgx_internal =~= r.bgx_internal);
        assert(read.bgy_internal =~= r.bgy_internal);
        assert(read.winh =~= r.winh);
        assert(read.winv =~= r.winv);
    }

    #[verifier::rlimit(30)]
    pub fn load(&mut self, r: &mut StateReader) -> (result: Result<(), StateError>)
        requires
            old(self).wf(),
        ensures
            final(self).wf(),
            final(self).regs == old(self).regs.restored(
                old(r).data(),
                old(r).limit(),
                old(r).pos() as int,
            ),
            state::advanced(*old(r), *final(r), saved_size()),
            result == state::verdict(*final(r)),
    {
        let b = self.regs;
        let dispcnt = r.u32_or(b.dispcnt);
        let bgcnt = load4(b.bgcnt, r);
        let bghofs = load4(b.bghofs, r);
        let bgvofs = load4(b.bgvofs, r);
        let p0 = load4_signed(b.bgp[0], r);
        let p1 = load4_signed(b.bgp[1], r);
        let x0 = r.i32_or(b.bgx[0]);
        let y0 = r.i32_or(b.bgy[0]);
        let xi0 = r.i32_or(b.bgx_internal[0]);
        let yi0 = r.i32_or(b.bgy_internal[0]);
        let x1 = r.i32_or(b.bgx[1]);
        let y1 = r.i32_or(b.bgy[1]);
        let xi1 = r.i32_or(b.bgx_internal[1]);
        let yi1 = r.i32_or(b.bgy_internal[1]);
        let h0 = r.u16_or(b.winh[0]);
        let h1 = r.u16_or(b.winh[1]);
        let v0 = r.u16_or(b.winv[0]);
        let v1 = r.u16_or(b.winv[1]);
        let winin = r.u16_or(b.winin);
        let winout = r.u16_or(b.winout);
        let mosaic = r.u16_or(b.mosaic);
        let bldcnt = r.u16_or(b.bldcnt);
        let bldalpha = r.u16_or(b.bldalpha);
        let bldy = r.u16_or(b.bldy);
        let master_bright = r.u16_or(b.master_bright);
        self.regs =
        Registers {
            engine: b.engine,
            dispcnt,
            bgcnt,
            bghofs,
            bgvofs,
            bgp: [p0, p1],
            bgx: [x0, x1],
            bgy: [y0, y1],
            bgx_internal: [xi0, xi1],
            bgy_internal: [yi0, yi1],
            winh: [h0, h1],
            winv: [v0, v1],
            winin,
            winout,
            mosaic,
            bldcnt,
            bldalpha,
            bldy,
            master_bright,
        };
        r.status()
    }
}

/// Loading saved registers gives them back, whatever was there before. Which engine it is does
/// not change.
pub proof fn law_save_then_load(saved: Registers, before: Registers, d: Seq<u8>, at: int)
    requires
        saved.encoded_at(d, at),
        saved.engine == before.engine,
    ensures
        before.restored(d, d.len() as int, at) == saved,
{
    let a = before.restored(d, d.len() as int, at);
    let b = saved.restored(d, d.len() as int, at);
    assert(a.bgcnt =~= b.bgcnt);
    assert(a.bghofs =~= b.bghofs);
    assert(a.bgvofs =~= b.bgvofs);
    assert(a.bgp[0] =~= b.bgp[0]);
    assert(a.bgp[1] =~= b.bgp[1]);
    assert(a.bgp =~= b.bgp);
    assert(a.bgx =~= b.bgx);
    assert(a.bgy =~= b.bgy);
    assert(a.bgx_internal =~= b.bgx_internal);
    assert(a.bgy_internal =~= b.bgy_internal);
    assert(a.winh =~= b.winh);
    assert(a.winv =~= b.winv);
}

/// With no window switched on, every layer may draw everywhere and the colour effect applies.
pub proof fn law_no_window_lets_everything_through(r: Registers, line: u32, x: int, inside: bool)
    requires
        r.dispcnt & (dispcnt::WIN0_ENABLE | dispcnt::WIN1_ENABLE | dispcnt::OBJ_WINDOW_ENABLE)
            == 0,
    ensures
        r.window_control(line, x, inside) == 0x3F,
{
}

/// A display that is off shows white, whatever is behind it.
pub proof fn law_display_off_is_white(
    r: Registers,
    line: u32,
    x: int,
    vram: Vram,
    palette: Seq<u8>,
    oam: Seq<u8>,
    three_d: Option<FrameState>,
)
    requires
        (r.dispcnt & dispcnt::DISPLAY_MODE) >> 16 == 0,
    ensures
        r.shown(line, x, vram, palette, oam, three_d) == (Rgba8 { r: 255, g: 255, b: 255, a: 255 }),
{
}

/// Whatever is written to it, engine B never shows the 3D layer.
pub proof fn law_engine_b_has_no_3d(r: Registers, addr: u32, value: u16)
    requires
        r.engine == Engine::B,
    ensures
        r.written(addr, value).engine == Engine::B,
        !r.written(addr, value).shows_3d(),
{
}

/// Where two layers show at equal priority the sprite is in front, and otherwise the lower
/// priority number is.
pub proof fn law_front_order(pixels: Seq<LinePixel>, control: u16, m: int, n: int)
    requires
        0 <= m < n < 20,
        shows(pixels, control, m),
        shows(pixels, control, n),
    ensures
        pixels[layer_of(m)].priority <= pixels[layer_of(n)].priority,
        pixels[layer_of(m)].priority == pixels[layer_of(n)].priority ==> layer_of(n) != LAYER_OBJ,
        next_visible(pixels, control, 0) matches Some(k) && k <= m,
{
    lemma_next_visible(pixels, control, 0, m);
}

/// The search does not pass a layer that shows.
proof fn lemma_next_visible(pixels: Seq<LinePixel>, control: u16, start: int, m: int)
    requires
        0 <= start <= m < 20,
        shows(pixels, control, m),
    ensures
        next_visible(pixels, control, start) matches Some(k) && start <= k <= m && shows(
            pixels,
            control,
            k,
        ),
    decreases m - start,
{
    if start < m && !shows(pixels, control, start) {
        lemma_next_visible(pixels, control, start + 1, m);
    }
}

/// All sixteen sixteenths of brightness make white or black of any colour.
pub proof fn law_full_brightness_is_white_or_black(color: u16)
    ensures
        brightened(color, 16, true) == 0x7FFF,
        brightened(color, 16, false) == 0,
{
}

/// All of the top layer and none of the one below is the top layer.
pub proof fn law_full_weight_keeps_the_top(top: u16, bottom: u16, bldalpha: u16)
    requires
        weight(bldalpha) == 16,
        weight(bldalpha >> 8) == 0,
    ensures
        alpha_blended(top, bottom, bldalpha) == joined(
            channel(top, 0) as int,
            channel(top, 5) as int,
            channel(top, 10) as int,
        ),
{
    crate::color::law_channels_are_digits(top);
}

/// A pixel of the 3D layer blends by its own opacity: what `BLDALPHA` holds makes no difference to
/// it, and a translucent one over a second target is mixed whatever effect `BLDCNT` selects and
/// whether or not a window lets effects through.
pub proof fn law_3d_pixels_blend_by_their_own_opacity(
    r: Registers,
    bldalpha: u16,
    line: u32,
    x: int,
    frame: FrameState,
    below_layer: int,
    below: u16,
    effects: bool,
)
    requires
        frame.alpha[line * SCREEN_WIDTH + x] > 0,
        0 <= below_layer <= 5,
    ensures
        ({
            let top = r.pixel_3d(line, x, frame);
            let alpha = frame.alpha[line * SCREEN_WIDTH + x];
            &&& Registers { bldalpha, ..r }.mixed(0, top, below_layer, below, effects) == r.mixed(
                0,
                top,
                below_layer,
                below,
                effects,
            )
            &&& alpha < 31 && r.bldcnt & (1u16 << ((below_layer + 8) as u16)) != 0 ==> r.mixed(
                0,
                top,
                below_layer,
                below,
                effects,
            ) == layered(frame.color[line * SCREEN_WIDTH + x], below, alpha)
        }),
{
}

/// An opaque pixel of the 3D layer hides what is under it, also where alpha blending is selected
/// for the layer.
pub proof fn law_opaque_3d_pixels_hide_what_is_below(
    r: Registers,
    line: u32,
    x: int,
    frame: FrameState,
    below: u16,
)
    requires
        frame.alpha[line * SCREEN_WIDTH + x] >= 31,
    ensures
        ({
            let color = frame.color[line * SCREEN_WIDTH + x];
            r.laid_over(r.pixel_3d(line, x, frame), below) == joined(
                channel(color, 0) as int,
                channel(color, 5) as int,
                channel(color, 10) as int,
            )
        }),
{
    broadcast use crate::bits::lemma_and_bound_u16;

    let color = frame.color[line * SCREEN_WIDTH + x];
    assert(r.laid_over(r.pixel_3d(line, x, frame), below) == averaged(color, below, 32, 0));
    assert forall|c: u16, b: u16| c <= 31 implies #[trigger] averaged_channel(c, b, 32, 0) == c by {
        assert(b * 0 == 0);
    }
    assert(channel(color, 0) <= 31 && channel(color, 5) <= 31 && channel(color, 10) <= 31);
}

/// Scroll and affine registers read as zero, whatever was written.
pub proof fn law_write_only_registers_read_zero(r: Registers, offset: u32)
    requires
        0x010 <= offset < 0x048,
    ensures
        r.half(offset) == 0,
{
}

/// A register that reads back reads what was last written.
pub proof fn law_control_registers_read_back(r: Registers, layer: int, value: u16)
    requires
        0 <= layer < 4,
    ensures
        r.with_half((reg::BGCNT + 2 * layer) as u32, value).half((reg::BGCNT + 2 * layer) as u32)
            == value,
{
}

/// The registers after `n` lines were drawn.
pub open spec fn after_lines(r: Registers, n: nat) -> Registers
    decreases n,
{
    if n == 0 { r } else { after_lines(r, (n - 1) as nat).after_line() }
}

/// Each line moves the reference points by one row of the matrix and nothing else; after `n` of them
/// they have moved by `n` rows, as far as 32 bits tell.
pub proof fn law_lines_move_the_reference_points(r: Registers, n: nat, block: int)
    requires
        0 <= block < 2,
    ensures
        ({
            let later = after_lines(r, n);
            &&& (later.bgx_internal[block] - r.bgx_internal[block] - n * r.bgp[block][1])
                % 0x1_0000_0000 == 0
            &&& (later.bgy_internal[block] - r.bgy_internal[block] - n * r.bgp[block][3])
                % 0x1_0000_0000 == 0
            &&& later.bgp == r.bgp
            &&& later.bgx == r.bgx
            &&& later.bgy == r.bgy
        }),
    decreases n,
{
    if n > 0 {
        law_lines_move_the_reference_points(r, (n - 1) as nat, block);
        let before = after_lines(r, (n - 1) as nat);
        let b = r.bgp[block][1] as int;
        let d = r.bgp[block][3] as int;
        assert(n * b == (n - 1) * b + b) by (nonlinear_arith);
        assert(n * d == (n - 1) * d + d) by (nonlinear_arith);
        assert(before.bgp[block] == r.bgp[block]);
    }
}

} // verus!
