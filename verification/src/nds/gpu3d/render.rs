//! The software rasteriser: scan conversion, the depth buffer, and texture sampling.
//!
//! Every interpolation is exact integer arithmetic that rounds toward zero, so a frame is the same
//! on every machine. Attributes are interpolated as `attribute / w` alongside `1 / w`, and divided
//! at each pixel.
//!
//! Fog, edge marking, anti-aliasing and shadow polygons are not drawn, and the toon and highlight
//! modes fall back to modulation.

use vstd::prelude::*;
use crate::arith;
use crate::arith::{clamped, larger, quotient, smaller};
use crate::color::{channel, channel_of, join, joined};
use crate::nds::video::{SCREEN_HEIGHT, SCREEN_WIDTH};
use crate::nds::vram::{Vram, VramSpace};
use crate::state;
use crate::state::{StateError, StateReader, StateWriter};
use super::geometry::{DisplayList, ListState, Polygon, PolygonState, ScreenVertex};

verus! {

pub const PIXELS: usize = 49152;

/// What the depth buffer holds where nothing is nearer.
pub const FARTHEST: u32 = 0x00FF_FFFF;

/// One pixel of 3D output.
#[derive(Clone, Copy, Debug, PartialEq, Eq, Structural)]
pub struct Pixel {
    /// 15-bit BGR.
    pub color: u16,
    /// 0-31; zero is a pixel the 3D engine did not draw.
    pub alpha: u8,
    pub depth: u32,
    pub polygon_id: u8,
}

/// One frame of 3D output, as engine A composites it.
#[derive(Debug)]
pub struct Framebuffer3d {
    /// 15-bit BGR per pixel.
    pub color: Vec<u16>,
    /// 0-31 per pixel; zero is a pixel the 3D engine did not draw.
    pub alpha: Vec<u8>,
    pub depth: Vec<u32>,
    pub polygon_id: Vec<u8>,
}

/// The pixels of a frame, row by row.
#[verifier::ext_equal]
pub struct FrameState {
    pub color: Seq<u16>,
    pub alpha: Seq<u8>,
    pub depth: Seq<u32>,
    pub polygon_id: Seq<u8>,
}

impl View for Framebuffer3d {
    type V = FrameState;

    open spec fn view(&self) -> FrameState {
        FrameState {
            color: self.color@,
            alpha: self.alpha@,
            depth: self.depth@,
            polygon_id: self.polygon_id@,
        }
    }
}

/// How many bytes a saved frame takes.
pub open spec fn frame_size() -> int {
    8 * PIXELS
}

impl FrameState {
    pub open spec fn whole(self) -> bool {
        &&& self.color.len() == PIXELS
        &&& self.alpha.len() == PIXELS
        &&& self.depth.len() == PIXELS
        &&& self.polygon_id.len() == PIXELS
    }

    /// Every pixel the same.
    pub open spec fn uniform(p: Pixel) -> FrameState {
        FrameState {
            color: Seq::new(PIXELS as nat, |i: int| p.color),
            alpha: Seq::new(PIXELS as nat, |i: int| p.alpha),
            depth: Seq::new(PIXELS as nat, |i: int| p.depth),
            polygon_id: Seq::new(PIXELS as nat, |i: int| p.polygon_id),
        }
    }

    /// The pixel in row `i / 256` and column `i % 256`.
    pub open spec fn pixel(self, i: int) -> Pixel {
        Pixel {
            color: self.color[i],
            alpha: self.alpha[i],
            depth: self.depth[i],
            polygon_id: self.polygon_id[i],
        }
    }

    /// The frame after reading the stream at `at` as far as `limit` lets it be read.
    pub open spec fn restored(self, d: Seq<u8>, limit: int, at: int) -> FrameState {
        FrameState {
            color: state::halves_or(d, limit, at, self.color),
            alpha: state::bytes_or(d, limit, at + 2 * PIXELS, self.alpha),
            depth: state::words_or(d, limit, at + 3 * PIXELS, self.depth),
            polygon_id: state::bytes_or(d, limit, at + 7 * PIXELS, self.polygon_id),
        }
    }

    /// The stream holds this frame at `at`.
    pub open spec fn encoded_at(self, d: Seq<u8>, at: int) -> bool {
        &&& at + frame_size() <= d.len()
        &&& self.restored(d, d.len() as int, at) == self
    }
}

/// The pixel that a frame starts from: the clear colour, and the clear depth expanded with its
/// low bits set.
pub open spec fn clear_pixel(clear_color: u32, clear_depth: u32) -> Pixel {
    Pixel {
        color: (clear_color & 0x7FFF) as u16,
        alpha: ((clear_color >> 16) & 0x1F) as u8,
        depth: ((clear_depth & 0x7FFF) * 0x200 + 0x1FF) as u32,
        polygon_id: ((clear_color >> 24) & 0x3F) as u8,
    }
}

impl Default for Framebuffer3d {
    fn default() -> (r: Self)
        ensures
            r@.whole(),
            r@ == FrameState::uniform(
                Pixel { color: 0, alpha: 0, depth: FARTHEST, polygon_id: 0 },
            ),
    {
        Framebuffer3d::new()
    }
}

impl Framebuffer3d {
    pub fn new() -> (r: Self)
        ensures
            r@.whole(),
            r@ == FrameState::uniform(
                Pixel { color: 0, alpha: 0, depth: FARTHEST, polygon_id: 0 },
            ),
    {
        let r = Framebuffer3d {
            color: vec![0u16;PIXELS],
            alpha: vec![0u8;PIXELS],
            depth: vec![FARTHEST;PIXELS],
            polygon_id: vec![0u8;PIXELS],
        };
        assert(r@ =~= FrameState::uniform(
            Pixel { color: 0, alpha: 0, depth: FARTHEST, polygon_id: 0 },
        ));
        r
    }

    pub fn color_at(&self, x: u32, y: u32) -> (r: u16)
        requires
            self@.whole(),
            y * SCREEN_WIDTH + x < PIXELS,
        ensures
            r == self@.pixel(y * SCREEN_WIDTH + x).color,
    {
        self.color[(y * SCREEN_WIDTH + x) as usize]
    }

    pub fn alpha_at(&self, x: u32, y: u32) -> (r: u8)
        requires
            self@.whole(),
            y * SCREEN_WIDTH + x < PIXELS,
        ensures
            r == self@.pixel(y * SCREEN_WIDTH + x).alpha,
    {
        self.alpha[(y * SCREEN_WIDTH + x) as usize]
    }

    /// Reset to the clear colour and depth, which is what a frame starts from.
    pub fn clear(&mut self, clear_color: u32, clear_depth: u32)
        ensures
            final(self)@.whole(),
            final(self)@ == FrameState::uniform(clear_pixel(clear_color, clear_depth)),
    {
        broadcast use crate::bits::lemma_and_bound_u32;

        let color = (clear_color & 0x7FFF) as u16;
        let alpha = ((clear_color >> 16) & 0x1F) as u8;
        let id = ((clear_color >> 24) & 0x3F) as u8;
        let depth: u32 = (clear_depth & 0x7FFF) * 0x200 + 0x1FF;
        self.color = vec![color;PIXELS];
        self.alpha = vec![alpha;PIXELS];
        self.depth = vec![depth;PIXELS];
        self.polygon_id = vec![id;PIXELS];
        assert(self@ =~= FrameState::uniform(clear_pixel(clear_color, clear_depth)));
    }

    fn pixel(&self, i: usize) -> (r: Pixel)
        requires
            self@.whole(),
            i < PIXELS,
        ensures
            r == self@.pixel(i as int),
    {
        Pixel {
            color: self.color[i],
            alpha: self.alpha[i],
            depth: self.depth[i],
            polygon_id: self.polygon_id[i],
        }
    }

    fn set_pixel(&mut self, i: usize, p: Pixel)
        requires
            old(self)@.whole(),
            i < PIXELS,
        ensures
            final(self)@.whole(),
            final(self)@.pixel(i as int) == p,
            forall|j: int|
                0 <= j < PIXELS && j != i ==> #[trigger] final(self)@.pixel(j) == old(
                    self,
                )@.pixel(j),
    {
        self.color[i] = p.color;
        self.alpha[i] = p.alpha;
        self.depth[i] = p.depth;
        self.polygon_id[i] = p.polygon_id;
    }

    pub fn save(&self, w: &mut StateWriter)
        requires
            self@.whole(),
        ensures
            state::continues(old(w)@, final(w)@),
            final(w)@.len() == old(w)@.len() + frame_size(),
            self@.encoded_at(final(w)@, old(w)@.len() as int),
    {
        let ghost at = w@.len() as int;
        w.write_halves(self.color.as_slice());
        let ghost w1 = w@;
        w.write_bytes(self.alpha.as_slice());
        let ghost w2 = w@;
        w.write_words(self.depth.as_slice());
        let ghost w3 = w@;
        w.write_bytes(self.polygon_id.as_slice());
        proof {
            state::lemma_halves_kept(w1, w@, at, self.color@);
            state::lemma_bytes_kept(w2, w@, at + 2 * PIXELS, self.alpha@);
            state::lemma_words_kept(w3, w@, at + 3 * PIXELS, self.depth@);
        }
    }

    pub fn load(&mut self, r: &mut StateReader) -> (result: Result<(), StateError>)
        requires
            old(self)@.whole(),
        ensures
            final(self)@.whole(),
            final(self)@ == old(self)@.restored(
                old(r).data(),
                old(r).limit(),
                old(r).pos() as int,
            ),
            state::advanced(*old(r), *final(r), frame_size()),
            result == state::verdict(*final(r)),
    {
        r.read_halves(self.color.as_mut_slice());
        r.read_bytes(self.alpha.as_mut_slice());
        r.read_words(self.depth.as_mut_slice());
        r.read_bytes(self.polygon_id.as_mut_slice());
        r.status()
    }
}

/// Loading a saved frame gives back the frame, whatever was there before.
pub proof fn law_save_then_load(saved: FrameState, before: FrameState, d: Seq<u8>, at: int)
    requires
        saved.whole(),
        before.whole(),
        saved.encoded_at(d, at),
    ensures
        before.restored(d, d.len() as int, at) == saved,
{
    law_decided(saved, before, d, at);
}

/// A stream that holds a whole frame decides the frame alone.
pub proof fn law_decided(saved: FrameState, before: FrameState, d: Seq<u8>, at: int)
    requires
        saved.whole(),
        before.whole(),
        at + frame_size() <= d.len(),
    ensures
        before.restored(d, d.len() as int, at) == saved.restored(d, d.len() as int, at),
{
    state::lemma_halves_decided(d, at, saved.color, before.color);
    state::lemma_bytes_decided(d, at + 2 * PIXELS, saved.alpha, before.alpha);
    state::lemma_words_decided(d, at + 3 * PIXELS, saved.depth, before.depth);
    state::lemma_bytes_decided(d, at + 7 * PIXELS, saved.polygon_id, before.polygon_id);
}

/// Everything interpolated across a polygon, premultiplied by `1/w` where perspective demands it.
#[derive(Debug, Clone, Copy)]
pub struct Attributes {
    pub depth: i64,
    pub inv_w: i64,
    /// Colour and texture coordinates, each already divided by `w`.
    pub color: [i64; 3],
    pub texcoord: [i64; 2],
}

/// What a vertex contributes. `1/w` has 22 fraction bits.
pub open spec fn attributes_of(v: ScreenVertex) -> Attributes {
    let inv_w = (0x40_0000int / larger(v.w as int, 1)) as i64;
    Attributes {
        depth: v.depth as i64,
        inv_w,
        color: [
            (v.color[0] * inv_w) as i64,
            (v.color[1] * inv_w) as i64,
            (v.color[2] * inv_w) as i64,
        ],
        texcoord: [(v.texcoord[0] * inv_w) as i64, (v.texcoord[1] * inv_w) as i64],
    }
}

/// The value `num / den` of the way from `a` to `b`.
pub open spec fn mixed(a: i64, b: i64, num: int, den: int) -> i64 {
    (a + quotient((b - a) * num, den)) as i64
}

/// Every attribute `num / den` of the way from `a` to `b`.
pub open spec fn blended(a: Attributes, b: Attributes, num: int, den: int) -> Attributes {
    Attributes {
        depth: mixed(a.depth, b.depth, num, den),
        inv_w: mixed(a.inv_w, b.inv_w, num, den),
        color: [
            mixed(a.color[0], b.color[0], num, den),
            mixed(a.color[1], b.color[1], num, den),
            mixed(a.color[2], b.color[2], num, den),
        ],
        texcoord: [
            mixed(a.texcoord[0], b.texcoord[0], num, den),
            mixed(a.texcoord[1], b.texcoord[1], num, den),
        ],
    }
}

/// The colour once the `1/w` premultiplication is undone.
pub open spec fn resolved_color(a: Attributes) -> [u8; 3] {
    let w = larger(a.inv_w as int, 1);
    [
        clamped(quotient(a.color[0] as int, w), 0, 63) as u8,
        clamped(quotient(a.color[1] as int, w), 0, 63) as u8,
        clamped(quotient(a.color[2] as int, w), 0, 63) as u8,
    ]
}

/// The texture coordinates once the `1/w` premultiplication is undone.
pub open spec fn resolved_texcoord(a: Attributes) -> [i32; 2] {
    let w = larger(a.inv_w as int, 1);
    [quotient(a.texcoord[0] as int, w) as i32, quotient(a.texcoord[1] as int, w) as i32]
}

/// A bound on everything that is interpolated.
pub const BOUND: i64 = 0x40_0000_0000_0000;

pub open spec fn within(x: i64) -> bool {
    -BOUND <= x <= BOUND
}

impl Attributes {
    /// Every part is far from the limits of its type.
    pub open spec fn bounded(self) -> bool {
        &&& within(self.depth)
        &&& within(self.inv_w)
        &&& within(self.color[0])
        &&& within(self.color[1])
        &&& within(self.color[2])
        &&& within(self.texcoord[0])
        &&& within(self.texcoord[1])
    }

    fn of(v: &ScreenVertex) -> (r: Self)
        ensures
            r == attributes_of(*v),
            r.bounded(),
    {
        let w: i64 = if v.w > 1 { v.w as i64 } else { 1 };
        let inv_w: i64 = 0x40_0000 / w;
        assert(0 <= 0x40_0000int / w as int <= 0x40_0000) by (nonlinear_arith)
            requires
                w >= 1,
        ;
        let r = Attributes {
            depth: v.depth as i64,
            inv_w,
            color: [
                premultiply(v.color[0] as i32, inv_w),
                premultiply(v.color[1] as i32, inv_w),
                premultiply(v.color[2] as i32, inv_w),
            ],
            texcoord: [premultiply(v.texcoord[0], inv_w), premultiply(v.texcoord[1], inv_w)],
        };
        r
    }

    /// Linear blend, with `num/den` as the position between `self` and `other`.
    fn lerp(&self, other: &Self, num: i64, den: i64) -> (r: Self)
        requires
            self.bounded(),
            other.bounded(),
            0 <= num <= den,
            0 < den <= 0x1_0000_0000,
        ensures
            r == blended(*self, *other, num as int, den as int),
            r.bounded(),
    {
        Attributes {
            depth: mix(self.depth, other.depth, num, den),
            inv_w: mix(self.inv_w, other.inv_w, num, den),
            color: [
                mix(self.color[0], other.color[0], num, den),
                mix(self.color[1], other.color[1], num, den),
                mix(self.color[2], other.color[2], num, den),
            ],
            texcoord: [
                mix(self.texcoord[0], other.texcoord[0], num, den),
                mix(self.texcoord[1], other.texcoord[1], num, den),
            ],
        }
    }

    /// Undo the `1/w` premultiplication.
    fn resolve(&self) -> (r: ([u8; 3], [i32; 2]))
        ensures
            r.0 == resolved_color(*self),
            r.1 == resolved_texcoord(*self),
    {
        let w: i128 = if self.inv_w > 1 { self.inv_w as i128 } else { 1 };
        (
            [
                arith::clamp_wide(arith::divide(self.color[0] as i128, w), 0, 63) as u8,
                arith::clamp_wide(arith::divide(self.color[1] as i128, w), 0, 63) as u8,
                arith::clamp_wide(arith::divide(self.color[2] as i128, w), 0, 63) as u8,
            ],
            [
                arith::divide(self.texcoord[0] as i128, w) as i32,
                arith::divide(self.texcoord[1] as i128, w) as i32,
            ],
        )
    }
}

fn premultiply(value: i32, inv_w: i64) -> (r: i64)
    requires
        0 <= inv_w <= 0x40_0000,
    ensures
        r == value * inv_w,
        within(r),
{
    assert(-BOUND <= value * inv_w <= BOUND) by (nonlinear_arith)
        requires
            -0x8000_0000 <= value <= 0x7fff_ffff,
            0 <= inv_w <= 0x40_0000,
            BOUND == 0x40_0000_0000_0000,
    ;
    value as i64 * inv_w
}

/// A step between two values does not leave the stretch between them.
pub(crate) proof fn lemma_mix_between(a: int, b: int, num: int, den: int)
    requires
        0 <= num <= den,
        0 < den,
    ensures
        smaller(a, b) <= a + quotient((b - a) * num, den) <= larger(a, b),
{
    let span = if b >= a { b - a } else { a - b };
    assert(0 <= (span * num) / den <= span) by (nonlinear_arith)
        requires
            span >= 0,
            0 <= num <= den,
            0 < den,
    ;
    assert(0 <= span * num) by (nonlinear_arith)
        requires
            span >= 0,
            0 <= num,
    ;
    if b < a {
        assert((b - a) * num == -(span * num)) by (nonlinear_arith)
            requires
                span == a - b,
        ;
    }
}

fn mix(a: i64, b: i64, num: i64, den: i64) -> (r: i64)
    requires
        within(a),
        within(b),
        0 <= num <= den,
        0 < den <= 0x1_0000_0000,
    ensures
        r == mixed(a, b, num as int, den as int),
        r == a + quotient((b - a) * num, den as int),
        within(r),
        smaller(a as int, b as int) <= r <= larger(a as int, b as int),
{
    proof {
        lemma_mix_between(a as int, b as int, num as int, den as int);
        assert(-0x80_0000_0000_0000 * 0x1_0000_0000 <= (b - a) * num <= 0x80_0000_0000_0000
            * 0x1_0000_0000) by (nonlinear_arith)
            requires
                -0x80_0000_0000_0000 <= b - a <= 0x80_0000_0000_0000,
                0 <= num <= 0x1_0000_0000,
        ;
    }
    let step: i128 = arith::divide((b as i128 - a as i128) * num as i128, den as i128);
    (a as i128 + step) as i64
}

/// A six-bit colour as 15 bits.
pub open spec fn packed(color: [u8; 3]) -> u16 {
    joined(
        ((color[0] as u16 >> 1u16) & 0x1F) as int,
        ((color[1] as u16 >> 1u16) & 0x1F) as int,
        ((color[2] as u16 >> 1u16) & 0x1F) as int,
    )
}

fn pack(color: [u8; 3]) -> (r: u16)
    ensures
        r == packed(color),
{
    broadcast use crate::bits::lemma_and_bound_u16;

    join(
        ((color[0] as u16 >> 1u16) & 0x1F) as u32,
        ((color[1] as u16 >> 1u16) & 0x1F) as u32,
        ((color[2] as u16 >> 1u16) & 0x1F) as u32,
    )
}

/// One channel of a texel times a six-bit vertex colour.
pub open spec fn modulated_channel(texel: u16, vertex: u8) -> int {
    smaller(texel * (vertex + 1) / 64, 31)
}

/// A texel times a vertex colour, channel by channel.
pub open spec fn modulated(texel: u16, vertex: [u8; 3]) -> u16 {
    joined(
        modulated_channel(channel(texel, 0), vertex[0]),
        modulated_channel(channel(texel, 5), vertex[1]),
        modulated_channel(channel(texel, 10), vertex[2]),
    )
}

fn modulate_channel(texel: u32, vertex: u8) -> (r: u32)
    requires
        texel <= 31,
    ensures
        r == modulated_channel(texel as u16, vertex),
        r <= 31,
{
    assert(0 <= texel * (vertex + 1) <= 31 * 256) by (nonlinear_arith)
        requires
            0 <= texel <= 31,
            0 <= vertex <= 255,
    ;
    let value: u32 = texel * (vertex as u32 + 1) / 64;
    if value < 31 {
        value
    } else {
        31
    }
}

/// Multiply a texel by a 6-bit vertex colour, which is what texture mode 0 does.
fn modulate(texel: u16, vertex: [u8; 3]) -> (r: u16)
    ensures
        r == modulated(texel, vertex),
{
    join(
        modulate_channel(channel_of(texel, 0), vertex[0]),
        modulate_channel(channel_of(texel, 5), vertex[1]),
        modulate_channel(channel_of(texel, 10), vertex[2]),
    )
}

/// One channel of a weighted blend.
pub open spec fn averaged_channel(a: u16, b: u16, wa: int, wb: int) -> int {
    smaller((a * wa + b * wb) / (wa + wb), 31)
}

/// A weighted blend of two 15-bit colours, per channel.
pub open spec fn averaged(a: u16, b: u16, wa: int, wb: int) -> u16 {
    joined(
        averaged_channel(channel(a, 0), channel(b, 0), wa, wb),
        averaged_channel(channel(a, 5), channel(b, 5), wa, wb),
        averaged_channel(channel(a, 10), channel(b, 10), wa, wb),
    )
}

fn average_channel(a: u32, b: u32, wa: u32, wb: u32) -> (r: u32)
    requires
        a <= 31,
        b <= 31,
        wa <= 32,
        wb <= 32,
        wa + wb > 0,
    ensures
        r == averaged_channel(a as u16, b as u16, wa as int, wb as int),
        r <= 31,
{
    assert(0 <= a * wa <= 31 * 32 && 0 <= b * wb <= 31 * 32) by (nonlinear_arith)
        requires
            0 <= a <= 31,
            0 <= b <= 31,
            0 <= wa <= 32,
            0 <= wb <= 32,
    ;
    let value: u32 = (a * wa + b * wb) / (wa + wb);
    if value < 31 {
        value
    } else {
        31
    }
}

/// A weighted blend of two 15-bit colours, per channel.
fn average(a: u16, b: u16, wa: u32, wb: u32) -> (r: u16)
    requires
        wa <= 32,
        wb <= 32,
        wa + wb > 0,
    ensures
        r == averaged(a, b, wa as int, wb as int),
{
    join(
        average_channel(channel_of(a, 0), channel_of(b, 0), wa, wb),
        average_channel(channel_of(a, 5), channel_of(b, 5), wa, wb),
        average_channel(channel_of(a, 10), channel_of(b, 10), wa, wb),
    )
}

/// A fragment of opacity `alpha` over what is already there.
pub open spec fn layered(top: u16, bottom: u16, alpha: u8) -> u16 {
    averaged(top, bottom, alpha + 1, 31 - alpha)
}

/// Blend a translucent fragment over what is already there.
pub(crate) fn blend(top: u16, bottom: u16, alpha: u8) -> (r: u16)
    requires
        alpha <= 31,
    ensures
        r == layered(top, bottom, alpha),
{
    average(top, bottom, alpha as u32 + 1, 31 - alpha as u32)
}

/// Opaque, or not there at all.
pub open spec fn opaque_unless_of(transparent: bool) -> u8 {
    if transparent { 0 } else { 31 }
}

fn opaque_unless(transparent: bool) -> (r: u8)
    ensures
        r == opaque_unless_of(transparent),
{
    if transparent {
        0
    } else {
        31
    }
}

/// One texture coordinate after repeating, mirroring or clamping it into `0 .. size`.
pub open spec fn wrapped(value: int, size: int, repeat: bool, flip: bool) -> int {
    if !repeat {
        clamped(value, 0, size - 1)
    } else {
        let period = if flip { size * 2 } else { size };
        let folded = value % period;
        if flip && folded >= size {
            period - 1 - folded
        } else {
            folded
        }
    }
}

/// Repeat, flip, or clamp one texture coordinate.
fn wrap(value: i32, size: u32, repeat: bool, flip: bool) -> (r: u32)
    requires
        1 <= size <= 1024,
    ensures
        r == wrapped(value as int, size as int, repeat, flip),
        r < size,
{
    if !repeat {
        return arith::clamp(value as i64, 0, size as i64 - 1) as u32;
    }
    let period: i64 = if flip { size as i64 * 2 } else { size as i64 };
    let folded: i64 = arith::modulo(value as i64, period);
    if flip && folded >= size as i64 {
        (period - 1 - folded) as u32
    } else {
        folded as u32
    }
}

/// A texture side, from its three-bit field.
pub open spec fn side_of(field: u32) -> u32 {
    8u32 << field
}

fn side(field: u32) -> (r: u32)
    requires
        field <= 7,
    ensures
        r == side_of(field),
        8 <= r <= 1024,
{
    assert(field <= 7 ==> 8 <= (8u32 << field) <= 1024) by (bit_vector);
    8u32 << field
}

/// A colour and an opacity.
#[derive(Clone, Copy, Debug, PartialEq, Eq, Structural)]
pub struct Texel {
    pub color: u16,
    pub alpha: u8,
}

/// A palette entry of a texture.
pub open spec fn palette_entry(vram: Vram, palette_base: u32, entry: u32) -> u16 {
    vram.half(VramSpace::TexturePalette, palette_base.wrapping_add((entry * 2) as u32))
}

/// One texel of a 4x4-block compressed texture.
///
/// The block's two-bit indices follow the texture's base address; its palette pointer lives in the
/// upper half of the same 128 KiB slot, half as far into it.
pub open spec fn compressed_texel_of(
    base: u32,
    s: u32,
    t: u32,
    width: u32,
    palette_base: u32,
    vram: Vram,
) -> Texel {
    let block = t / 4 * (width / 4) + s / 4;
    let data = vram.word(VramSpace::Texture, (base + block * 4) as u32);
    let entry = (data >> (((t % 4 * 4 + s % 4) * 2) as u32)) & 3;
    let pointers = base - base % 0x2_0000 + 0x1_0000;
    let pointer = vram.half(
        VramSpace::Texture,
        (pointers + base % 0x2_0000 / 2 + block * 2) as u32,
    );
    let mode = (pointer as u32 >> 14) & 3;
    let palette = palette_base.wrapping_add(((pointer as u32 & 0x3FFF) * 4) as u32);
    let color = |i: u32| palette_entry(vram, palette, i);
    if entry == 0 || entry == 1 {
        Texel { color: color(entry), alpha: 31 }
    } else if entry == 2 {
        if mode == 0 || mode == 2 {
            Texel { color: color(2), alpha: 31 }
        } else if mode == 1 {
            Texel { color: averaged(color(0), color(1), 1, 1), alpha: 31 }
        } else {
            Texel { color: averaged(color(0), color(1), 5, 3), alpha: 31 }
        }
    } else if mode == 0 || mode == 1 {
        Texel { color: 0, alpha: 0 }
    } else if mode == 2 {
        Texel { color: color(3), alpha: 31 }
    } else {
        Texel { color: averaged(color(0), color(1), 3, 5), alpha: 31 }
    }
}

/// One texel, honouring repeat, flip, and the seven texture formats.
pub open spec fn sampled(
    tex_param: u32,
    palette_field: u32,
    texcoord: [i32; 2],
    vram: Vram,
) -> Texel {
    let base = (tex_param & 0xFFFF) << 3;
    let width = side_of((tex_param >> 20) & 7);
    let height = side_of((tex_param >> 23) & 7);
    let format = (tex_param >> 26) & 7;
    let color0_transparent = tex_param & (1u32 << 29) != 0;
    let s = wrapped(
        (texcoord[0] >> 4) as int,
        width as int,
        tex_param & (1u32 << 16) != 0,
        tex_param & (1u32 << 18) != 0,
    );
    let t = wrapped(
        (texcoord[1] >> 4) as int,
        height as int,
        tex_param & (1u32 << 17) != 0,
        tex_param & (1u32 << 19) != 0,
    );
    let index = t * width + s;
    let palette_base = if format == 2 { palette_field << 3 } else { palette_field << 4 };
    let byte = |offset: int| vram.byte(VramSpace::Texture, (base + offset) as u32) as u32;
    if format == 1 {
        // Five index bits and three of alpha.
        let v = byte(index);
        let a = (v >> 5) & 7;
        Texel {
            color: palette_entry(vram, palette_base, v & 0x1F),
            alpha: (a * 4 + a / 2) as u8,
        }
    } else if format == 2 {
        // Four colours, two bits per texel.
        let entry = (byte(index / 4) >> ((index % 4 * 2) as u32)) & 3;
        Texel {
            color: palette_entry(vram, palette_base, entry),
            alpha: opaque_unless_of(entry == 0 && color0_transparent),
        }
    } else if format == 3 {
        // Sixteen colours, four bits per texel.
        let v = byte(index / 2);
        let entry = if index % 2 == 0 { v & 0xF } else { v >> 4 };
        Texel {
            color: palette_entry(vram, palette_base, entry),
            alpha: opaque_unless_of(entry == 0 && color0_transparent),
        }
    } else if format == 4 {
        let entry = byte(index);
        Texel {
            color: palette_entry(vram, palette_base, entry),
            alpha: opaque_unless_of(entry == 0 && color0_transparent),
        }
    } else if format == 5 {
        compressed_texel_of(base, s as u32, t as u32, width, palette_base, vram)
    } else if format == 6 {
        // Three index bits and five of alpha.
        let v = byte(index);
        Texel {
            color: palette_entry(vram, palette_base, v & 7),
            alpha: ((v >> 3) & 0x1F) as u8,
        }
    } else {
        // Direct colour.
        let value = vram.half(VramSpace::Texture, (base + index * 2) as u32);
        Texel { color: value & 0x7FFF, alpha: opaque_unless_of(value & 0x8000 == 0) }
    }
}

fn palette_color(vram: &Vram, palette_base: u32, entry: u32) -> (r: u16)
    requires
        entry <= 0xFFFF,
    ensures
        r == palette_entry(*vram, palette_base, entry),
{
    vram.read16(VramSpace::TexturePalette, palette_base.wrapping_add(entry * 2))
}

/// One texel of a 4x4-block compressed texture.
fn compressed_texel(
    base: u32,
    s: u32,
    t: u32,
    width: u32,
    palette_base: u32,
    vram: &Vram,
) -> (r: Texel)
    requires
        base <= 0x7_FFF8,
        8 <= width <= 1024,
        s < 1024,
        t < 1024,
    ensures
        r == compressed_texel_of(base, s, t, width, palette_base, *vram),
{
    broadcast use crate::bits::lemma_and_bound_u32;

    assert(0 <= t / 4 * (width / 4) <= 255 * 256) by (nonlinear_arith)
        requires
            t < 1024,
            width <= 1024,
    ;
    let block: u32 = t / 4 * (width / 4) + s / 4;
    let data = vram.read32(VramSpace::Texture, base + block * 4);
    let shift: u32 = (t % 4 * 4 + s % 4) * 2;
    let entry = (data >> shift) & 3;
    // The pointer table sits in the upper half of whichever 128 KiB slot the data is in.
    let pointers: u32 = base - base % 0x2_0000 + 0x1_0000;
    let pointer =
        vram.read16(VramSpace::Texture, pointers + base % 0x2_0000 / 2 + block * 2) as u32;
    let mode = (pointer >> 14) & 3;
    let palette = palette_base.wrapping_add((pointer & 0x3FFF) * 4);
    let first = palette_color(vram, palette, 0);
    let second = palette_color(vram, palette, 1);
    if entry == 0 {
        Texel { color: first, alpha: 31 }
    } else if entry == 1 {
        Texel { color: second, alpha: 31 }
    } else if entry == 2 {
        if mode == 0 || mode == 2 {
            Texel { color: palette_color(vram, palette, 2), alpha: 31 }
        } else if mode == 1 {
            Texel { color: average(first, second, 1, 1), alpha: 31 }
        } else {
            Texel { color: average(first, second, 5, 3), alpha: 31 }
        }
    } else if mode == 0 || mode == 1 {
        Texel { color: 0, alpha: 0 }
    } else if mode == 2 {
        Texel { color: palette_color(vram, palette, 3), alpha: 31 }
    } else {
        Texel { color: average(first, second, 3, 5), alpha: 31 }
    }
}

/// Fetch one texel, honouring repeat, flip, and the seven texture formats.
fn sample_texture(tex_param: u32, palette_field: u32, texcoord: [i32; 2], vram: &Vram) -> (r: Texel)
    ensures
        r == sampled(tex_param, palette_field, texcoord, *vram),
        r.alpha <= 31,
{
    broadcast use crate::bits::lemma_and_bound_u32;

    assert(((tex_param & 0xFFFF) << 3) <= 0x7_FFF8) by (bit_vector);
    let base: u32 = (tex_param & 0xFFFF) << 3;
    let width = side((tex_param >> 20) & 7);
    let height = side((tex_param >> 23) & 7);
    let format = (tex_param >> 26) & 7;
    let color0_transparent = tex_param & (1u32 << 29) != 0;
    let s = wrap(
        texcoord[0] >> 4,
        width,
        tex_param & (1u32 << 16) != 0,
        tex_param & (1u32 << 18) != 0,
    );
    let t = wrap(
        texcoord[1] >> 4,
        height,
        tex_param & (1u32 << 17) != 0,
        tex_param & (1u32 << 19) != 0,
    );
    assert(0 <= t * width <= 1023 * 1024) by (nonlinear_arith)
        requires
            t <= 1023,
            width <= 1024,
    ;
    let index: u32 = t * width + s;
    let palette_base: u32 = if format == 2 { palette_field << 3 } else { palette_field << 4 };
    match format {
        1 => {
            let v = vram.read8(VramSpace::Texture, base + index) as u32;
            let a = (v >> 5) & 7;
            Texel {
                color: palette_color(vram, palette_base, v & 0x1F),
                alpha: (a * 4 + a / 2) as u8,
            }
        },
        2 => {
            let v = vram.read8(VramSpace::Texture, base + index / 4) as u32;
            let shift: u32 = index % 4 * 2;
            let entry = (v >> shift) & 3;
            Texel {
                color: palette_color(vram, palette_base, entry),
                alpha: opaque_unless(entry == 0 && color0_transparent),
            }
        },
        3 => {
            let v = vram.read8(VramSpace::Texture, base + index / 2);
            proof {
                crate::bits::lemma_four_bits(0, v);
            }
            let entry: u32 = if index % 2 == 0 { v as u32 & 0xF } else { v as u32 >> 4 };
            Texel {
                color: palette_color(vram, palette_base, entry),
                alpha: opaque_unless(entry == 0 && color0_transparent),
            }
        },
        4 => {
            let entry = vram.read8(VramSpace::Texture, base + index) as u32;
            Texel {
                color: palette_color(vram, palette_base, entry),
                alpha: opaque_unless(entry == 0 && color0_transparent),
            }
        },
        5 => compressed_texel(base, s, t, width, palette_base, vram),
        6 => {
            let v = vram.read8(VramSpace::Texture, base + index) as u32;
            Texel {
                color: palette_color(vram, palette_base, v & 7),
                alpha: ((v >> 3) & 0x1F) as u8,
            }
        },
        _ => {
            let value = vram.read16(VramSpace::Texture, base + index * 2);
            Texel { color: value & 0x7FFF, alpha: opaque_unless(value & 0x8000 == 0) }
        },
    }
}

/// What a polygon says of every one of its pixels.
#[derive(Clone, Copy, Debug, PartialEq, Eq, Structural)]
pub struct Surface {
    pub attr: u32,
    pub tex_param: u32,
    pub palette_base: u32,
}

impl Surface {
    /// Opacity 0 means fully opaque, not fully transparent.
    pub open spec fn opacity(self) -> u8 {
        let alpha = ((self.attr >> 16) & 0x1F) as u8;
        if alpha == 0 { 31 } else { alpha }
    }

    pub open spec fn mode(self) -> u8 {
        ((self.attr >> 4) & 3) as u8
    }

    pub open spec fn polygon_id(self) -> u8 {
        ((self.attr >> 24) & 0x3F) as u8
    }

    pub open spec fn writes_depth_translucent(self) -> bool {
        self.attr & (1u32 << 11) != 0
    }

    pub open spec fn depth_equal(self) -> bool {
        self.attr & (1u32 << 14) != 0
    }

    /// The vertex colour combined with the texture, if there is one. Decal mode shows the texture
    /// in place of the vertex colour; every other mode multiplies the two.
    pub open spec fn shaded(self, vertex_color: [u8; 3], texcoord: [i32; 2], vram: Vram) -> Texel {
        if (self.tex_param >> 26) & 7 == 0 {
            Texel { color: packed(vertex_color), alpha: self.opacity() }
        } else {
            let texel = sampled(self.tex_param, self.palette_base, texcoord, vram);
            if self.mode() == 1 {
                Texel {
                    color: if texel.alpha == 0 { packed(vertex_color) } else { texel.color },
                    alpha: self.opacity(),
                }
            } else {
                Texel {
                    color: modulated(texel.color, vertex_color),
                    alpha: (texel.alpha * self.opacity() / 31) as u8,
                }
            }
        }
    }

    /// A fragment that passed the depth test, over what was there.
    pub open spec fn drawn(self, texel: Texel, depth: u32, before: Pixel) -> Pixel {
        if texel.alpha == 0 {
            before
        } else if texel.alpha >= 31 {
            Pixel { color: texel.color, alpha: 31, depth, polygon_id: self.polygon_id() }
        } else if before.polygon_id == self.polygon_id() && before.alpha < 31 {
            // A translucent polygon does not draw over a fragment of the same polygon ID.
            before
        } else {
            Pixel {
                color: layered(texel.color, before.color, texel.alpha),
                alpha: larger(before.alpha as int, texel.alpha as int) as u8,
                depth: if self.opacity() >= 31 || self.writes_depth_translucent() {
                    depth
                } else {
                    before.depth
                },
                polygon_id: self.polygon_id(),
            }
        }
    }

    /// A pixel once a fragment with these attributes has been put to it.
    pub open spec fn fragment(self, a: Attributes, vram: Vram, before: Pixel) -> Pixel {
        let depth = clamped(a.depth as int, 0, FARTHEST as int) as u32;
        let passes = if self.depth_equal() {
            -0x200 <= depth - before.depth <= 0x200
        } else {
            depth < before.depth
        };
        if passes {
            self.drawn(
                self.shaded(resolved_color(a), resolved_texcoord(a), vram),
                depth,
                before,
            )
        } else {
            before
        }
    }

    fn opacity_of(&self) -> (r: u8)
        ensures
            r == self.opacity(),
            1 <= r <= 31,
    {
        broadcast use crate::bits::lemma_and_bound_u32;

        let alpha = ((self.attr >> 16) & 0x1F) as u8;
        if alpha == 0 {
            31
        } else {
            alpha
        }
    }

    /// Combine the vertex colour with the texture, if any.
    fn shade(&self, vertex_color: [u8; 3], texcoord: [i32; 2], vram: &Vram) -> (r: Texel)
        ensures
            r == self.shaded(vertex_color, texcoord, *vram),
            r.alpha <= 31,
    {
        let opacity = self.opacity_of();
        if (self.tex_param >> 26) & 7 == 0 {
            return Texel { color: pack(vertex_color), alpha: opacity };
        }
        let texel = sample_texture(self.tex_param, self.palette_base, texcoord, vram);
        if ((self.attr >> 4) & 3) as u8 == 1 {
            let color = if texel.alpha == 0 {
                pack(vertex_color)
            } else {
                texel.color
            };
            Texel { color, alpha: opacity }
        } else {
            assert(0 <= texel.alpha * opacity <= 31 * 31) by (nonlinear_arith)
                requires
                    0 <= texel.alpha <= 31,
                    0 <= opacity <= 31,
            ;
            Texel {
                color: modulate(texel.color, vertex_color),
                alpha: (texel.alpha as u32 * opacity as u32 / 31) as u8,
            }
        }
    }

    /// Put one fragment to a pixel.
    fn plot(&self, a: &Attributes, vram: &Vram, before: Pixel) -> (r: Pixel)
        ensures
            r == self.fragment(*a, *vram, before),
    {
        let depth: u32 = arith::clamp(a.depth, 0, FARTHEST as i64) as u32;
        let passes = if self.attr & (1u32 << 14) != 0 {
            if depth >= before.depth {
                depth - before.depth <= 0x200
            } else {
                before.depth - depth <= 0x200
            }
        } else {
            depth < before.depth
        };
        if !passes {
            return before;
        }
        let (vertex_color, texcoord) = a.resolve();
        let texel = self.shade(vertex_color, texcoord, vram);
        let id = ((self.attr >> 24) & 0x3F) as u8;
        if texel.alpha == 0 {
            before
        } else if texel.alpha >= 31 {
            Pixel { color: texel.color, alpha: 31, depth, polygon_id: id }
        } else if before.polygon_id == id && before.alpha < 31 {
            before
        } else {
            Pixel {
                color: blend(texel.color, before.color, texel.alpha),
                alpha: if before.alpha >= texel.alpha { before.alpha } else { texel.alpha },
                depth: if self.opacity_of() >= 31 || self.attr & (1u32 << 11) != 0 {
                    depth
                } else {
                    before.depth
                },
                polygon_id: id,
            }
        }
    }
}

/// Where one polygon edge crosses a scanline.
#[derive(Debug, Clone, Copy)]
pub struct Crossing {
    pub x: i32,
    pub attributes: Attributes,
}

/// Where the edge from `upper` to `lower` stands on line `y`.
pub open spec fn crossing_between(upper: ScreenVertex, lower: ScreenVertex, y: int) -> Crossing {
    let den = lower.y - upper.y;
    let num = y - upper.y;
    Crossing {
        x: mixed(upper.x as i64, lower.x as i64, num, den) as i32,
        attributes: blended(attributes_of(upper), attributes_of(lower), num, den),
    }
}

/// Where the edge `a`-`b` crosses line `y`. The lower end of an edge is not on it, and a
/// horizontal edge crosses nothing.
pub open spec fn edge_crossing(a: ScreenVertex, b: ScreenVertex, y: int) -> Option<Crossing> {
    if a.y <= y < b.y {
        Some(crossing_between(a, b, y))
    } else if b.y <= y < a.y {
        Some(crossing_between(b, a, y))
    } else {
        None
    }
}

/// The crossings of the first `n` edges with line `y`, in edge order.
pub open spec fn crossings(corners: Seq<ScreenVertex>, y: int, n: nat) -> Seq<Crossing>
    decreases n,
{
    if n == 0 {
        Seq::empty()
    } else {
        let before = crossings(corners, y, (n - 1) as nat);
        let a = corners[n - 1];
        let b = corners[n as int % corners.len() as int];
        match edge_crossing(a, b, y) {
            None => before,
            Some(c) => before.push(c),
        }
    }
}

/// The leftmost crossing, the first of them where several share the place.
pub open spec fn leftmost(cs: Seq<Crossing>) -> Crossing
    decreases cs.len(),
{
    if cs.len() <= 1 {
        cs[0]
    } else {
        let before = leftmost(cs.drop_last());
        if cs.last().x < before.x {
            cs.last()
        } else {
            before
        }
    }
}

/// The rightmost crossing, the last of them where several share the place.
pub open spec fn rightmost(cs: Seq<Crossing>) -> Crossing
    decreases cs.len(),
{
    if cs.len() <= 1 {
        cs[0]
    } else {
        let before = rightmost(cs.drop_last());
        if cs.last().x >= before.x {
            cs.last()
        } else {
            before
        }
    }
}

/// The attributes at column `x` between two crossings.
pub open spec fn across(left: Crossing, right: Crossing, x: int) -> Attributes {
    if right.x == left.x {
        left.attributes
    } else {
        blended(left.attributes, right.attributes, x - left.x, right.x - left.x)
    }
}

/// The corners that a polygon names. An index past the end of the list names none.
pub open spec fn corners_of(
    indices: Seq<usize>,
    vertices: Seq<ScreenVertex>,
) -> Seq<ScreenVertex>
    decreases indices.len(),
{
    if indices.len() == 0 {
        Seq::empty()
    } else {
        let before = corners_of(indices.drop_last(), vertices);
        if indices.last() < vertices.len() {
            before.push(vertices[indices.last() as int])
        } else {
            before
        }
    }
}

/// One pixel after a polygon with these corners was drawn.
pub open spec fn covered(
    surface: Surface,
    corners: Seq<ScreenVertex>,
    vram: Vram,
    x: int,
    y: int,
    before: Pixel,
) -> Pixel {
    let cs = crossings(corners, y, corners.len());
    if corners.len() < 3 || cs.len() < 2 {
        before
    } else {
        let left = leftmost(cs);
        let right = rightmost(cs);
        if left.x <= x <= right.x {
            surface.fragment(across(left, right, x), vram, before)
        } else {
            before
        }
    }
}

/// What a polygon says of its pixels.
pub open spec fn surface_of(p: PolygonState) -> Surface {
    Surface { attr: p.attr, tex_param: p.tex_param, palette_base: p.palette_base }
}

/// One pixel of a frame after the first `n` polygons of a list.
pub open spec fn rendered(
    list: ListState,
    vram: Vram,
    clear: Pixel,
    x: int,
    y: int,
    n: nat,
) -> Pixel
    decreases n,
{
    if n == 0 {
        clear
    } else {
        let p = list.polygons[n - 1];
        covered(
            surface_of(p),
            corners_of(p.vertices, list.vertices),
            vram,
            x,
            y,
            rendered(list, vram, clear, x, y, (n - 1) as nat),
        )
    }
}

/// A bound on every crossing.
pub open spec fn all_bounded(cs: Seq<Crossing>) -> bool {
    forall|i: int| 0 <= i < cs.len() ==> (#[trigger] cs[i]).attributes.bounded()
}

/// The extreme crossings are among the crossings, and in order.
proof fn lemma_extremes(cs: Seq<Crossing>)
    requires
        cs.len() >= 1,
        all_bounded(cs),
    ensures
        leftmost(cs).attributes.bounded(),
        rightmost(cs).attributes.bounded(),
        forall|i: int| 0 <= i < cs.len() ==> leftmost(cs).x <= (#[trigger] cs[i]).x,
        forall|i: int| 0 <= i < cs.len() ==> (#[trigger] cs[i]).x <= rightmost(cs).x,
    decreases cs.len(),
{
    if cs.len() > 1 {
        let init = cs.drop_last();
        assert(all_bounded(init)) by {
            assert forall|i: int| 0 <= i < init.len() implies (
            #[trigger] init[i]).attributes.bounded() by {
                assert(init[i] == cs[i]);
            }
        }
        lemma_extremes(init);
        assert forall|i: int| 0 <= i < cs.len() implies leftmost(cs).x <= (#[trigger] cs[i]).x
            && cs[i].x <= rightmost(cs).x by {
            if i < cs.len() - 1 {
                assert(cs[i] == init[i]);
            }
        }
        assert(cs[cs.len() - 1].attributes.bounded());
    } else {
        assert(cs[0].attributes.bounded());
    }
}

/// Where an edge crosses a line, if it does.
fn cross(a: &ScreenVertex, b: &ScreenVertex, y: i32) -> (r: Option<Crossing>)
    ensures
        r == edge_crossing(*a, *b, y as int),
        r is Some ==> r->0.attributes.bounded(),
{
    // A horizontal edge contributes no crossing; its endpoints are already produced by the two
    // edges either side of it.
    let (upper, lower) = if a.y <= y && y < b.y {
        (a, b)
    } else if b.y <= y && y < a.y {
        (b, a)
    } else {
        return None;
    };
    let den: i64 = lower.y as i64 - upper.y as i64;
    let num: i64 = y as i64 - upper.y as i64;
    let x: i64 = mix(upper.x as i64, lower.x as i64, num, den);
    Some(
        Crossing {
            x: x as i32,
            attributes: Attributes::of(upper).lerp(&Attributes::of(lower), num, den),
        },
    )
}

/// The vertices that a polygon names.
fn gather(indices: &Vec<usize>, vertices: &Vec<ScreenVertex>) -> (r: Vec<ScreenVertex>)
    ensures
        r@ == corners_of(indices@, vertices@),
{
    let mut out: Vec<ScreenVertex> = Vec::new();
    assert(indices@.take(0) =~= Seq::empty());
    for i in 0..indices.len()
        invariant
            out@ == corners_of(indices@.take(i as int), vertices@),
    {
        assert(indices@.take(i + 1).drop_last() =~= indices@.take(i as int));
        let index = indices[i];
        if index < vertices.len() {
            out.push(vertices[index]);
        }
    }
    assert(indices@.take(indices@.len() as int) =~= indices@);
    out
}

/// Render a display list.
pub fn render(
    list: &DisplayList,
    vram: &Vram,
    clear_color: u32,
    clear_depth: u32,
    out: &mut Framebuffer3d,
)
    ensures
        final(out)@.whole(),
        forall|i: int|
            0 <= i < PIXELS ==> #[trigger] final(out)@.pixel(i) == rendered(
                list@,
                *vram,
                clear_pixel(clear_color, clear_depth),
                i % 256,
                i / 256,
                list@.polygons.len(),
            ),
{
    out.clear(clear_color, clear_depth);
    let ghost clear = clear_pixel(clear_color, clear_depth);
    for n in 0..list.polygons.len()
        invariant
            out@.whole(),
            forall|i: int|
                0 <= i < PIXELS ==> #[trigger] out@.pixel(i) == rendered(
                    list@,
                    *vram,
                    clear,
                    i % 256,
                    i / 256,
                    n as nat,
                ),
    {
        assert(list@.polygons[n as int] == list.polygons@[n as int]@);
        render_polygon(&list.polygons[n], list, vram, out);
    }
}

fn render_polygon(polygon: &Polygon, list: &DisplayList, vram: &Vram, out: &mut Framebuffer3d)
    requires
        old(out)@.whole(),
    ensures
        final(out)@.whole(),
        forall|i: int|
            0 <= i < PIXELS ==> #[trigger] final(out)@.pixel(i) == covered(
                surface_of(polygon@),
                corners_of(polygon.vertices@, list.vertices@),
                *vram,
                i % 256,
                i / 256,
                old(out)@.pixel(i),
            ),
{
    let corners = gather(&polygon.vertices, &list.vertices);
    if corners.len() < 3 {
        return;
    }
    let surface = Surface {
        attr: polygon.attr,
        tex_param: polygon.tex_param,
        palette_base: polygon.palette_base,
    };
    for y in 0..192usize
        invariant
            corners@.len() >= 3,
            out@.whole(),
            forall|i: int|
                0 <= i < 256 * y ==> #[trigger] out@.pixel(i) == covered(
                    surface,
                    corners@,
                    *vram,
                    i % 256,
                    i / 256,
                    old(out)@.pixel(i),
                ),
            forall|i: int| 256 * y <= i < PIXELS ==> #[trigger] out@.pixel(i) == old(out)@.pixel(i),
    {
        let ghost before = out@;
        render_line(&surface, &corners, y, vram, out);
        assert forall|i: int| 0 <= i < 256 * (y + 1) implies #[trigger] out@.pixel(i) == covered(
            surface,
            corners@,
            *vram,
            i % 256,
            i / 256,
            old(out)@.pixel(i),
        ) by {
            if i < 256 * y {
                assert(out@.pixel(i) == before.pixel(i));
            } else {
                assert(i / 256 == y);
                assert(before.pixel(i) == old(out)@.pixel(i));
            }
        }
        assert forall|i: int| 256 * (y + 1) <= i < PIXELS implies #[trigger] out@.pixel(i) == old(
            out,
        )@.pixel(i) by {
            assert(out@.pixel(i) == before.pixel(i));
        }
    }
}

/// Draw what a polygon covers of one line.
fn render_line(
    surface: &Surface,
    corners: &Vec<ScreenVertex>,
    y: usize,
    vram: &Vram,
    out: &mut Framebuffer3d,
)
    requires
        old(out)@.whole(),
        corners@.len() >= 3,
        y < 192,
    ensures
        final(out)@.whole(),
        forall|i: int|
            0 <= i < PIXELS && i / 256 != y ==> #[trigger] final(out)@.pixel(i) == old(
                out,
            )@.pixel(i),
        forall|i: int|
            0 <= i < PIXELS && i / 256 == y ==> #[trigger] final(out)@.pixel(i) == covered(
                *surface,
                corners@,
                *vram,
                i % 256,
                y as int,
                old(out)@.pixel(i),
            ),
{
    let mut cs: Vec<Crossing> = Vec::new();
    let count = corners.len();
    for i in 0..count
        invariant
            count == corners@.len(),
            count >= 3,
            y < 192,
            cs@ == crossings(corners@, y as int, i as nat),
            all_bounded(cs@),
    {
        let next: usize = if i + 1 < count { i + 1 } else { 0 };
        assert(next as int == (i + 1) % (count as int)) by {
            if i + 1 == count {
                assert((count as int) % (count as int) == 0) by (nonlinear_arith)
                    requires
                        count > 0,
                ;
            } else {
                vstd::arithmetic::div_mod::lemma_small_mod((i + 1) as nat, count as nat);
            }
        }
        match cross(&corners[i], &corners[next], y as i32) {
            None => {},
            Some(c) => {
                cs.push(c);
            },
        }
    }
    if cs.len() < 2 {
        return;
    }
    let mut left = cs[0];
    let mut right = cs[0];
    assert(cs@.take(1) =~= seq![cs@[0]]);
    for i in 1..cs.len()
        invariant
            cs@.len() >= 2,
            left == leftmost(cs@.take(i as int)),
            right == rightmost(cs@.take(i as int)),
    {
        assert(cs@.take(i + 1).drop_last() =~= cs@.take(i as int));
        let c = cs[i];
        if c.x < left.x {
            left = c;
        }
        if c.x >= right.x {
            right = c;
        }
    }
    assert(cs@.take(cs@.len() as int) =~= cs@);
    proof {
        lemma_extremes(cs@);
        assert(left.x <= cs@[0].x <= right.x);
    }
    draw_span(surface, &left, &right, y, vram, out);
}

/// Draw the pixels between two crossings.
fn draw_span(
    surface: &Surface,
    left: &Crossing,
    right: &Crossing,
    y: usize,
    vram: &Vram,
    out: &mut Framebuffer3d,
)
    requires
        old(out)@.whole(),
        left.attributes.bounded(),
        right.attributes.bounded(),
        left.x <= right.x,
        y < 192,
    ensures
        final(out)@.whole(),
        forall|i: int|
            0 <= i < PIXELS && (i / 256 != y || !(left.x <= i % 256 <= right.x))
                ==> #[trigger] final(out)@.pixel(i) == old(out)@.pixel(i),
        forall|i: int|
            0 <= i < PIXELS && i / 256 == y && left.x <= i % 256 <= right.x
                ==> #[trigger] final(out)@.pixel(i) == surface.fragment(
                across(*left, *right, i % 256),
                *vram,
                old(out)@.pixel(i),
            ),
{
    let start: i64 = if left.x > 0 { left.x as i64 } else { 0 };
    let end: i64 = if right.x < 255 { right.x as i64 } else { 255 };
    if start > end {
        return;
    }
    let span: i64 = right.x as i64 - left.x as i64;
    let mut x: i64 = start;
    while x <= end
        invariant
            y < 192,
            0 <= start <= x <= end + 1,
            end <= 255,
            left.attributes.bounded(),
            right.attributes.bounded(),
            span == right.x - left.x,
            span >= 0,
            start == (if left.x > 0 { left.x as int } else { 0 }),
            end == (if right.x < 255 { right.x as int } else { 255 }),
            out@.whole(),
            forall|i: int|
                0 <= i < PIXELS && !(256 * y + start <= i < 256 * y + x)
                    ==> #[trigger] out@.pixel(i) == old(out)@.pixel(i),
            forall|i: int|
                256 * y + start <= i < 256 * y + x ==> #[trigger] out@.pixel(i)
                    == surface.fragment(
                    across(*left, *right, i % 256),
                    *vram,
                    old(out)@.pixel(i),
                ),
        decreases end + 1 - x,
    {
        let attributes = if span == 0 {
            left.attributes
        } else {
            left.attributes.lerp(&right.attributes, x - left.x as i64, span)
        };
        let index: usize = y * 256 + x as usize;
        assert(index as int % 256 == x);
        let pixel = surface.plot(&attributes, vram, out.pixel(index));
        let ghost before = out@;
        out.set_pixel(index, pixel);
        assert forall|i: int| 256 * y + start <= i < 256 * y + x + 1 implies #[trigger] out@.pixel(
            i,
        ) == surface.fragment(across(*left, *right, i % 256), *vram, old(out)@.pixel(i)) by {
            if i != index {
                assert(out@.pixel(i) == before.pixel(i));
            }
        }
        x = x + 1;
    }
}

/// A frame of an empty list is the clear colour everywhere.
pub proof fn law_empty_list_is_clear(vram: Vram, clear: Pixel, x: int, y: int)
    ensures
        rendered(ListState::empty(), vram, clear, x, y, ListState::empty().polygons.len()) == clear,
{
}

/// Under the "less" depth test a polygon never pushes a pixel farther away, and what lies behind
/// the pixel changes nothing of it.
pub proof fn law_depth_test(surface: Surface, a: Attributes, vram: Vram, before: Pixel)
    requires
        !surface.depth_equal(),
    ensures
        surface.fragment(a, vram, before).depth <= before.depth,
        clamped(a.depth as int, 0, FARTHEST as int) >= before.depth ==> surface.fragment(
            a,
            vram,
            before,
        ) == before,
{
}

/// The depth of a fragment, as it is compared and stored.
pub open spec fn depth_of(a: Attributes) -> int {
    clamped(a.depth as int, 0, FARTHEST as int)
}

/// Under the "less" depth test a nearer opaque fragment hides a farther one, whichever of the two
/// comes first.
pub proof fn law_the_nearer_fragment_wins(
    near: Surface,
    a: Attributes,
    far: Surface,
    b: Attributes,
    vram: Vram,
    before: Pixel,
)
    requires
        !near.depth_equal(),
        !far.depth_equal(),
        near.shaded(resolved_color(a), resolved_texcoord(a), vram).alpha >= 31,
        far.shaded(resolved_color(b), resolved_texcoord(b), vram).alpha >= 31,
        depth_of(a) < depth_of(b),
    ensures
        near.fragment(a, vram, far.fragment(b, vram, before)) == far.fragment(
            b,
            vram,
            near.fragment(a, vram, before),
        ),
        near.fragment(a, vram, far.fragment(b, vram, before)) == near.fragment(a, vram, before),
{
}

/// Whether a pixel lies outside the box around some corners: above, below, left or right of every
/// one of them.
pub open spec fn outside_box(corners: Seq<ScreenVertex>, x: int, y: int) -> bool {
    ||| forall|i: int| 0 <= i < corners.len() ==> (#[trigger] corners[i]).y > y
    ||| forall|i: int| 0 <= i < corners.len() ==> (#[trigger] corners[i]).y < y
    ||| forall|i: int| 0 <= i < corners.len() ==> (#[trigger] corners[i]).x > x
    ||| forall|i: int| 0 <= i < corners.len() ==> (#[trigger] corners[i]).x < x
}

/// A pixel outside the box around a polygon's corners stays as it was.
pub proof fn law_outside_is_untouched(
    surface: Surface,
    corners: Seq<ScreenVertex>,
    vram: Vram,
    x: int,
    y: int,
    before: Pixel,
)
    requires
        outside_box(corners, x, y),
    ensures
        covered(surface, corners, vram, x, y, before) == before,
{
    let cs = crossings(corners, y, corners.len());
    if corners.len() >= 3 && cs.len() >= 2 {
        if (forall|i: int| 0 <= i < corners.len() ==> (#[trigger] corners[i]).y > y) || (forall|
            i: int,
        |
            0 <= i < corners.len() ==> (#[trigger] corners[i]).y < y) {
            lemma_no_crossings(corners, y, corners.len());
        } else if forall|i: int| 0 <= i < corners.len() ==> (#[trigger] corners[i]).x > x {
            lemma_crossings_within(corners, y, x + 1, i32::MAX as int, corners.len());
            lemma_extremes_within(cs, x + 1, i32::MAX as int);
        } else {
            lemma_crossings_within(corners, y, i32::MIN as int, x - 1, corners.len());
            lemma_extremes_within(cs, i32::MIN as int, x - 1);
        }
    }
}

/// A pixel outside the box of every polygon of a list shows the clear colour and its opacity.
pub proof fn law_unreached_pixels_are_clear(
    list: ListState,
    vram: Vram,
    clear_color: u32,
    clear_depth: u32,
    x: int,
    y: int,
)
    requires
        forall|i: int|
            0 <= i < list.polygons.len() ==> outside_box(
                corners_of((#[trigger] list.polygons[i]).vertices, list.vertices),
                x,
                y,
            ),
    ensures
        ({
            let clear = clear_pixel(clear_color, clear_depth);
            let pixel = rendered(list, vram, clear, x, y, list.polygons.len());
            &&& pixel == clear
            &&& pixel.color == clear_color & 0x7FFF
            &&& pixel.alpha == (clear_color >> 16) & 0x1F
        }),
{
    broadcast use crate::bits::lemma_and_bound_u32;

    lemma_unreached(
        list,
        vram,
        clear_pixel(clear_color, clear_depth),
        x,
        y,
        list.polygons.len(),
    );
}

proof fn lemma_unreached(list: ListState, vram: Vram, clear: Pixel, x: int, y: int, n: nat)
    requires
        n <= list.polygons.len(),
        forall|i: int|
            0 <= i < list.polygons.len() ==> outside_box(
                corners_of((#[trigger] list.polygons[i]).vertices, list.vertices),
                x,
                y,
            ),
    ensures
        rendered(list, vram, clear, x, y, n) == clear,
    decreases n,
{
    if n > 0 {
        lemma_unreached(list, vram, clear, x, y, (n - 1) as nat);
        let p = list.polygons[n - 1];
        law_outside_is_untouched(
            surface_of(p),
            corners_of(p.vertices, list.vertices),
            vram,
            x,
            y,
            clear,
        );
    }
}

/// Opacity never passes its five bits, whatever is drawn over what.
pub proof fn law_opacity_stays_in_range(
    list: ListState,
    vram: Vram,
    clear_color: u32,
    clear_depth: u32,
    x: int,
    y: int,
    n: nat,
)
    requires
        n <= list.polygons.len(),
    ensures
        rendered(list, vram, clear_pixel(clear_color, clear_depth), x, y, n).alpha <= 31,
    decreases n,
{
    broadcast use crate::bits::lemma_and_bound_u32;

    if n > 0 {
        law_opacity_stays_in_range(list, vram, clear_color, clear_depth, x, y, (n - 1) as nat);
    }
}

/// An alpha field of zero is fully opaque: an untextured fragment of such a polygon that passes the
/// depth test leaves its pixel with the greatest opacity.
pub proof fn law_alpha_field_zero_is_opaque(
    surface: Surface,
    a: Attributes,
    vram: Vram,
    before: Pixel,
)
    requires
        (surface.tex_param >> 26) & 7 == 0,
        (surface.attr >> 16) & 0x1F == 0,
        if surface.depth_equal() {
            -0x200 <= depth_of(a) - before.depth <= 0x200
        } else {
            depth_of(a) < before.depth
        },
    ensures
        surface.fragment(a, vram, before) == (Pixel {
            color: packed(resolved_color(a)),
            alpha: 31,
            depth: depth_of(a) as u32,
            polygon_id: surface.polygon_id(),
        }),
{
}

/// A frame depends on the list, video memory and the clear registers alone: two frames rendered from
/// the same ones are the same, whatever the buffers held before.
pub proof fn law_rendering_is_deterministic(
    list: ListState,
    vram: Vram,
    clear: Pixel,
    a: FrameState,
    b: FrameState,
)
    requires
        a.whole(),
        b.whole(),
        forall|i: int|
            0 <= i < PIXELS ==> #[trigger] a.pixel(i) == rendered(
                list,
                vram,
                clear,
                i % 256,
                i / 256,
                list.polygons.len(),
            ),
        forall|i: int|
            0 <= i < PIXELS ==> #[trigger] b.pixel(i) == rendered(
                list,
                vram,
                clear,
                i % 256,
                i / 256,
                list.polygons.len(),
            ),
    ensures
        a == b,
{
    assert forall|i: int| 0 <= i < PIXELS implies a.pixel(i) == #[trigger] b.pixel(i) by {
        assert(a.pixel(i) == rendered(list, vram, clear, i % 256, i / 256, list.polygons.len()));
    }
    assert forall|i: int| 0 <= i < PIXELS implies #[trigger] a.color[i] == b.color[i] by {
        assert(a.pixel(i) == b.pixel(i));
    }
    assert forall|i: int| 0 <= i < PIXELS implies #[trigger] a.alpha[i] == b.alpha[i] by {
        assert(a.pixel(i) == b.pixel(i));
    }
    assert forall|i: int| 0 <= i < PIXELS implies #[trigger] a.depth[i] == b.depth[i] by {
        assert(a.pixel(i) == b.pixel(i));
    }
    assert forall|i: int| 0 <= i < PIXELS implies #[trigger] a.polygon_id[i]
        == b.polygon_id[i] by {
        assert(a.pixel(i) == b.pixel(i));
    }
    assert(a =~= b);
}

/// The corner that an edge runs to.
proof fn lemma_next_corner(n: int, len: int)
    requires
        0 <= n <= len,
        len > 0,
    ensures
        0 <= n % len < len,
{
    assert(0 <= n % len < len) by (nonlinear_arith)
        requires
            len > 0,
    ;
}

/// A line above or below every corner crosses no edge.
proof fn lemma_no_crossings(corners: Seq<ScreenVertex>, y: int, n: nat)
    requires
        n <= corners.len(),
        corners.len() > 0,
        (forall|i: int| 0 <= i < corners.len() ==> (#[trigger] corners[i]).y > y) || (forall|
            i: int,
        |
            0 <= i < corners.len() ==> (#[trigger] corners[i]).y < y),
    ensures
        crossings(corners, y, n).len() == 0,
    decreases n,
{
    if n > 0 {
        lemma_no_crossings(corners, y, (n - 1) as nat);
        lemma_next_corner(n as int, corners.len() as int);
        let a = corners[n - 1];
        let b = corners[n as int % corners.len() as int];
        assert(edge_crossing(a, b, y) is None);
    }
}

/// Crossings lie between the corners.
proof fn lemma_crossings_within(corners: Seq<ScreenVertex>, y: int, low: int, high: int, n: nat)
    requires
        n <= corners.len(),
        corners.len() > 0,
        forall|i: int| 0 <= i < corners.len() ==> low <= (#[trigger] corners[i]).x <= high,
    ensures
        forall|i: int|
            0 <= i < crossings(corners, y, n).len() ==> low <= (#[trigger] crossings(
                corners,
                y,
                n,
            )[i]).x <= high,
    decreases n,
{
    if n > 0 {
        lemma_crossings_within(corners, y, low, high, (n - 1) as nat);
        lemma_next_corner(n as int, corners.len() as int);
        let a = corners[n - 1];
        let b = corners[n as int % corners.len() as int];
        assert(low <= a.x <= high && low <= b.x <= high);
        if a.y <= y < b.y {
            lemma_mix_between(a.x as int, b.x as int, y - a.y, b.y - a.y);
        } else if b.y <= y < a.y {
            lemma_mix_between(b.x as int, a.x as int, y - b.y, a.y - b.y);
        }
        let before = crossings(corners, y, (n - 1) as nat);
        let all = crossings(corners, y, n);
        assert forall|i: int| 0 <= i < all.len() implies low <= (#[trigger] all[i]).x <= high by {
            if i < before.len() {
                assert(all[i] == before[i]);
            }
        }
    }
}

/// The extreme crossings are among the crossings.
proof fn lemma_extremes_within(cs: Seq<Crossing>, low: int, high: int)
    requires
        cs.len() >= 1,
        forall|i: int| 0 <= i < cs.len() ==> low <= (#[trigger] cs[i]).x <= high,
    ensures
        low <= leftmost(cs).x <= high,
        low <= rightmost(cs).x <= high,
    decreases cs.len(),
{
    if cs.len() > 1 {
        let init = cs.drop_last();
        assert forall|i: int| 0 <= i < init.len() implies low <= (#[trigger] init[i]).x <= high by {
            assert(init[i] == cs[i]);
        }
        lemma_extremes_within(init, low, high);
        assert(low <= cs[cs.len() - 1].x <= high);
    } else {
        assert(low <= cs[0].x <= high);
    }
}

} // verus!
