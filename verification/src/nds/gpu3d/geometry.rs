//! The geometry engine: command decode, vertex assembly, lighting, and clipping.
//!
//! A command is an opcode and a number of parameters that depends on the opcode alone. A vertex
//! is 4.12 signed. It is multiplied by the clip matrix into homogeneous clip space, clipped there
//! against the six frustum planes, and only then divided by `w`.
//!
//! The shininess table is not used: specular light has a computed falloff instead. `BOX_TEST`
//! always leaves its answer at "visible".

use vstd::prelude::*;
use crate::arith;
use crate::arith::{clamped, fixed, quotient};
use crate::bits;
use crate::fault::{Counted, Fault};
use crate::state;
use crate::state::{StateError, StateReader, StateWriter};
use super::matrix;
use super::matrix::{Matrix, MatrixStack, MatrixState, ONE};

verus! {

/// The number of parameters of each known opcode.
pub open spec fn parameters_of(opcode: u8) -> Option<u8> {
    if opcode == 0x00 || opcode == 0x11 || opcode == 0x15 || opcode == 0x41 {
        Some(0)
    } else if opcode == 0x10 || 0x12 <= opcode <= 0x14 || 0x20 <= opcode <= 0x22 || 0x24 <= opcode
        <= 0x2B || 0x30 <= opcode <= 0x33 || opcode == 0x40 || opcode == 0x50 || opcode == 0x60
        || opcode == 0x72 {
        Some(1)
    } else if opcode == 0x23 || opcode == 0x71 {
        Some(2)
    } else if opcode == 0x1B || opcode == 0x1C || opcode == 0x70 {
        Some(3)
    } else if opcode == 0x1A {
        Some(9)
    } else if opcode == 0x17 || opcode == 0x19 {
        Some(12)
    } else if opcode == 0x16 || opcode == 0x18 {
        Some(16)
    } else if opcode == 0x34 {
        Some(32)
    } else {
        None
    }
}

/// How many parameters each geometry command takes.
///
/// Zero means the command still exists and takes none, which is not the same thing as an unknown
/// opcode.
pub fn parameter_count(opcode: u8) -> (r: Option<u8>)
    ensures
        r == parameters_of(opcode),
{
    Some(
        match opcode {
            0x00 => 0,  // NOP
            0x10 => 1,  // MTX_MODE
            0x11 => 0,  // MTX_PUSH
            0x12 => 1,  // MTX_POP
            0x13 => 1,  // MTX_STORE
            0x14 => 1,  // MTX_RESTORE
            0x15 => 0,  // MTX_IDENTITY
            0x16 => 16,  // MTX_LOAD_4x4
            0x17 => 12,  // MTX_LOAD_4x3
            0x18 => 16,  // MTX_MULT_4x4
            0x19 => 12,  // MTX_MULT_4x3
            0x1A => 9,  // MTX_MULT_3x3
            0x1B => 3,  // MTX_SCALE
            0x1C => 3,  // MTX_TRANS
            0x20 => 1,  // COLOR
            0x21 => 1,  // NORMAL
            0x22 => 1,  // TEXCOORD
            0x23 => 2,  // VTX_16
            0x24 => 1,  // VTX_10
            0x25 => 1,  // VTX_XY
            0x26 => 1,  // VTX_XZ
            0x27 => 1,  // VTX_YZ
            0x28 => 1,  // VTX_DIFF
            0x29 => 1,  // POLYGON_ATTR
            0x2A => 1,  // TEXIMAGE_PARAM
            0x2B => 1,  // PLTT_BASE
            0x30 => 1,  // DIF_AMB
            0x31 => 1,  // SPE_EMI
            0x32 => 1,  // LIGHT_VECTOR
            0x33 => 1,  // LIGHT_COLOR
            0x34 => 32,  // SHININESS
            0x40 => 1,  // BEGIN_VTXS
            0x41 => 0,  // END_VTXS
            0x50 => 1,  // SWAP_BUFFERS
            0x60 => 1,  // VIEWPORT
            0x70 => 3,  // BOX_TEST
            0x71 => 2,  // POS_TEST
            0x72 => 1,  // VEC_TEST
            _ => return None,
        },
    )
}

/// What a primitive is made of, as set by `BEGIN_VTXS`.
#[derive(Debug, Clone, Copy, PartialEq, Eq, Structural)]
pub enum Primitive {
    Triangles,
    Quads,
    TriangleStrip,
    QuadStrip,
}

/// The primitive that the low two bits select.
pub open spec fn primitive_of(bits: u32) -> Primitive {
    match bits & 3 {
        0 => Primitive::Triangles,
        1 => Primitive::Quads,
        2 => Primitive::TriangleStrip,
        _ => Primitive::QuadStrip,
    }
}

impl Primitive {
    fn from_bits(bits: u32) -> (r: Self)
        ensures
            r == primitive_of(bits),
    {
        match bits & 3 {
            0 => Primitive::Triangles,
            1 => Primitive::Quads,
            2 => Primitive::TriangleStrip,
            _ => Primitive::QuadStrip,
        }
    }
}

/// A vertex after the clip matrix but before the viewport divide.
#[derive(Debug, Clone, Copy, PartialEq, Eq)]
pub struct ClipVertex {
    /// Homogeneous clip coordinates.
    pub position: [i32; 4],
    /// 6-bit-per-channel colour, the depth the blend unit works in.
    pub color: [u8; 3],
    /// Texture coordinates in 1/16 texel units.
    pub texcoord: [i32; 2],
}

impl Default for ClipVertex {
    fn default() -> (r: Self)
        ensures
            r == (ClipVertex { position: [0, 0, 0, 0], color: [0, 0, 0], texcoord: [0, 0] }),
    {
        ClipVertex { position: [0, 0, 0, 0], color: [0, 0, 0], texcoord: [0, 0] }
    }
}

/// A vertex after the viewport transform, ready to rasterise.
#[derive(Debug, Clone, Copy, PartialEq, Eq)]
pub struct ScreenVertex {
    /// Screen position, in whole pixels.
    pub x: i32,
    pub y: i32,
    /// 24-bit depth-buffer value.
    pub depth: u32,
    /// The clip-space `w`, kept for perspective-correct interpolation.
    pub w: i32,
    pub color: [u8; 3],
    pub texcoord: [i32; 2],
}

impl Default for ScreenVertex {
    fn default() -> (r: Self)
        ensures
            r == (ScreenVertex { x: 0, y: 0, depth: 0, w: 0, color: [0, 0, 0], texcoord: [0, 0] }),
    {
        ScreenVertex { x: 0, y: 0, depth: 0, w: 0, color: [0, 0, 0], texcoord: [0, 0] }
    }
}

/// One assembled polygon, indexing into the frame's vertex list.
#[derive(Debug, Clone, PartialEq, Eq)]
pub struct Polygon {
    pub vertices: Vec<usize>,
    pub attr: u32,
    pub tex_param: u32,
    pub palette_base: u32,
    /// Whether the winding put the front face toward the viewer.
    pub front_facing: bool,
}

/// What a polygon holds.
#[verifier::ext_equal]
pub struct PolygonState {
    pub vertices: Seq<usize>,
    pub attr: u32,
    pub tex_param: u32,
    pub palette_base: u32,
    pub front_facing: bool,
}

impl View for Polygon {
    type V = PolygonState;

    open spec fn view(&self) -> PolygonState {
        PolygonState {
            vertices: self.vertices@,
            attr: self.attr,
            tex_param: self.tex_param,
            palette_base: self.palette_base,
            front_facing: self.front_facing,
        }
    }
}

impl Polygon {
    /// Opacity, bits 16-20.
    #[verifier::allow_in_spec]
    pub fn alpha(&self) -> u8
        returns
            ((self.attr >> 16) & 0x1F) as u8,
    {
        ((self.attr >> 16) & 0x1F) as u8
    }

    #[verifier::allow_in_spec]
    pub fn polygon_id(&self) -> u8
        returns
            ((self.attr >> 24) & 0x3F) as u8,
    {
        ((self.attr >> 24) & 0x3F) as u8
    }

    /// The polygon mode: 0 modulation, 1 decal, 2 toon/highlight, 3 shadow.
    #[verifier::allow_in_spec]
    pub fn mode(&self) -> u8
        returns
            ((self.attr >> 4) & 3) as u8,
    {
        ((self.attr >> 4) & 3) as u8
    }

    #[verifier::allow_in_spec]
    pub fn renders_back(&self) -> bool
        returns
            self.attr & (1u32 << 6) != 0,
    {
        self.attr & (1u32 << 6) != 0
    }

    #[verifier::allow_in_spec]
    pub fn renders_front(&self) -> bool
        returns
            self.attr & (1u32 << 7) != 0,
    {
        self.attr & (1u32 << 7) != 0
    }

    /// Whether depth is written for a translucent polygon.
    #[verifier::allow_in_spec]
    pub fn writes_depth_translucent(&self) -> bool
        returns
            self.attr & (1u32 << 11) != 0,
    {
        self.attr & (1u32 << 11) != 0
    }

    /// Whether the depth test is "equal" rather than "less".
    #[verifier::allow_in_spec]
    pub fn depth_equal(&self) -> bool
        returns
            self.attr & (1u32 << 14) != 0,
    {
        self.attr & (1u32 << 14) != 0
    }
}

/// Hardware limits. Exceeding either sets the overflow flag rather than growing.
pub const MAX_VERTICES: usize = 6144;

pub const MAX_POLYGONS: usize = 2048;

/// The finished contents of vertex and polygon RAM for one frame.
#[derive(Debug, Clone, PartialEq, Eq)]
pub struct DisplayList {
    pub vertices: Vec<ScreenVertex>,
    pub polygons: Vec<Polygon>,
    /// Whether the frame's depth buffer should be cleared from the rear-plane image rather than
    /// from `CLEAR_DEPTH`. Recorded, and not acted on.
    pub rear_plane_bitmap: bool,
}

/// What a display list holds.
#[verifier::ext_equal]
pub struct ListState {
    pub vertices: Seq<ScreenVertex>,
    pub polygons: Seq<PolygonState>,
    pub rear_plane_bitmap: bool,
}

impl View for DisplayList {
    type V = ListState;

    open spec fn view(&self) -> ListState {
        ListState {
            vertices: self.vertices@,
            polygons: self.polygons@.map_values(|p: Polygon| p@),
            rear_plane_bitmap: self.rear_plane_bitmap,
        }
    }
}

impl ListState {
    /// A list with nothing in it.
    pub open spec fn empty() -> ListState {
        ListState {
            vertices: Seq::empty(),
            polygons: Seq::empty(),
            rear_plane_bitmap: false,
        }
    }

    /// The list keeps within the hardware's limits.
    pub open spec fn bounded(self) -> bool {
        &&& self.vertices.len() <= MAX_VERTICES
        &&& self.polygons.len() <= MAX_POLYGONS
        &&& forall|i: int|
            0 <= i < self.polygons.len() ==> (#[trigger] self.polygons[i]).bounded()
    }
}

impl PolygonState {
    /// The polygon names no more vertices than a list can hold, each by a 32-bit index.
    pub open spec fn bounded(self) -> bool {
        &&& self.vertices.len() <= MAX_VERTICES
        &&& forall|i: int|
            0 <= i < self.vertices.len() ==> #[trigger] self.vertices[i] <= 0xFFFF_FFFF
    }
}

impl Default for DisplayList {
    fn default() -> (r: Self)
        ensures
            r@ == ListState::empty(),
    {
        let r = DisplayList { vertices: Vec::new(), polygons: Vec::new(), rear_plane_bitmap: false };
        assert(r@ =~= ListState::empty());
        r
    }
}

/// One of the four hardware lights.
#[derive(Debug, Clone, Copy, PartialEq, Eq)]
pub struct Light {
    /// Direction, already through the direction matrix.
    pub vector: [i32; 3],
    /// The light vector plus the line of sight (0, 0, -1), halved.
    pub half: [i32; 3],
    pub color: [u8; 3],
}

/// The low `bits` of `value` as a signed number.
pub open spec fn extended(value: u32, bits: u32) -> i32 {
    ((value << ((32 - bits) as u32)) as i32) >> ((32 - bits) as u32)
}

/// Sign-extend the low `bits` of a value.
pub fn sign_extend(value: u32, bits: u32) -> (r: i32)
    requires
        1 <= bits <= 32,
    ensures
        r == extended(value, bits),
{
    let shift: u32 = 32 - bits;
    ((value << shift) as i32) >> shift
}

/// Three 5-bit channels, doubled to the six bits the engine works in.
pub open spec fn color_of(param: u32) -> [u8; 3] {
    [
        ((param & 0x1F) * 2) as u8,
        (((param >> 5) & 0x1F) * 2) as u8,
        (((param >> 10) & 0x1F) * 2) as u8,
    ]
}

/// Five bits per channel, as every geometry colour parameter carries it.
fn decode_color(param: u32) -> (r: [u8; 3])
    ensures
        r == color_of(param),
{
    broadcast use crate::bits::lemma_and_bound_u32;

    [
        ((param & 0x1F) * 2) as u8,
        (((param >> 5) & 0x1F) * 2) as u8,
        (((param >> 10) & 0x1F) * 2) as u8,
    ]
}

/// The parameters as signed words.
pub open spec fn words(params: Seq<u32>) -> Seq<i32> {
    Seq::new(params.len(), |i: int| params[i] as i32)
}

fn to_i32(params: &[u32]) -> (r: Vec<i32>)
    ensures
        r@ == words(params@),
{
    let mut out: Vec<i32> = Vec::new();
    for i in 0..params.len()
        invariant
            out@.len() == i,
            forall|j: int| 0 <= j < i ==> #[trigger] out@[j] == params@[j] as i32,
    {
        out.push(params[i] as i32);
    }
    assert(out@ =~= words(params@));
    out
}

/// The 20.12 dot product of two directions.
pub open spec fn dot_of(a: [i32; 3], b: [i32; 3]) -> i32 {
    fixed(a[0] * b[0] + a[1] * b[1] + a[2] * b[2])
}

fn dot(a: &[i32; 3], b: &[i32; 3]) -> (r: i32)
    ensures
        r == dot_of(*a, *b),
{
    let sum: i128 = arith::word_product(a[0], b[0]) + arith::word_product(a[1], b[1])
        + arith::word_product(a[2], b[2]);
    (sum >> 12u32) as i32
}

/// Twice the signed area of the first three corners is not positive, in a space whose Y counts
/// down.
pub open spec fn front_facing(vertices: Seq<ScreenVertex>) -> bool {
    vertices.len() < 3 || {
        let ax = vertices[1].x - vertices[0].x;
        let ay = vertices[1].y - vertices[0].y;
        let bx = vertices[2].x - vertices[0].x;
        let by = vertices[2].y - vertices[0].y;
        ax * by - ay * bx <= 0
    }
}

/// Whether a screen-space polygon's winding puts its front toward the viewer.
fn is_front_facing(vertices: &Vec<ScreenVertex>) -> (r: bool)
    ensures
        r == front_facing(vertices@),
{
    if vertices.len() < 3 {
        return true;
    }
    let ax: i128 = vertices[1].x as i128 - vertices[0].x as i128;
    let ay: i128 = vertices[1].y as i128 - vertices[0].y as i128;
    let bx: i128 = vertices[2].x as i128 - vertices[0].x as i128;
    let by: i128 = vertices[2].y as i128 - vertices[0].y as i128;
    proof {
        lemma_difference_product(ax as int, by as int);
        lemma_difference_product(ay as int, bx as int);
    }
    ax * by - ay * bx <= 0
}

/// The product of two differences of words fits in 128 bits with room to spare.
proof fn lemma_difference_product(a: int, b: int)
    requires
        -0x1_0000_0000 <= a <= 0x1_0000_0000,
        -0x1_0000_0000 <= b <= 0x1_0000_0000,
    ensures
        -0x1_0000_0000_0000_0000 <= a * b <= 0x1_0000_0000_0000_0000,
{
    assert(-0x1_0000_0000_0000_0000 <= a * b <= 0x1_0000_0000_0000_0000) by (nonlinear_arith)
        requires
            -0x1_0000_0000 <= a <= 0x1_0000_0000,
            -0x1_0000_0000 <= b <= 0x1_0000_0000,
    ;
}

/// How far a vertex lies outside the plane `side * coordinate <= w`. Inside is zero or less.
pub open spec fn excess(v: ClipVertex, axis: int, side: int) -> int {
    side * v.position[axis] - v.position[3]
}

/// The vertex lies on the visible side of one plane.
pub open spec fn inside(v: ClipVertex, axis: int, side: int) -> bool {
    excess(v, axis, side) <= 0
}

/// The value where an edge crosses a plane, for one attribute that is `x` at its start and `y`
/// at its end.
pub open spec fn crossing(x: int, y: int, da: int, db: int) -> i32 {
    quotient(x * -db + y * da, da - db) as i32
}

/// The point where the edge `a`-`b` crosses the plane.
pub open spec fn crossing_vertex(a: ClipVertex, b: ClipVertex, axis: int, side: int) -> ClipVertex {
    let da = excess(a, axis, side);
    let db = excess(b, axis, side);
    if da - db == 0 {
        a
    } else {
        ClipVertex {
            position: [
                crossing(a.position[0] as int, b.position[0] as int, da, db),
                crossing(a.position[1] as int, b.position[1] as int, da, db),
                crossing(a.position[2] as int, b.position[2] as int, da, db),
                crossing(a.position[3] as int, b.position[3] as int, da, db),
            ],
            color: [
                clamped(crossing(a.color[0] as int, b.color[0] as int, da, db) as int, 0, 63) as u8,
                clamped(crossing(a.color[1] as int, b.color[1] as int, da, db) as int, 0, 63) as u8,
                clamped(crossing(a.color[2] as int, b.color[2] as int, da, db) as int, 0, 63) as u8,
            ],
            texcoord: [
                crossing(a.texcoord[0] as int, b.texcoord[0] as int, da, db),
                crossing(a.texcoord[1] as int, b.texcoord[1] as int, da, db),
            ],
        }
    }
}

/// What the edge that starts at vertex `i` leaves: its start if that is inside, and the crossing
/// if the edge changes sides.
pub open spec fn clipped_edge(input: Seq<ClipVertex>, axis: int, side: int, i: int) -> Seq<
    ClipVertex,
> {
    let a = input[i];
    let b = input[(i + 1) % (input.len() as int)];
    let start = if inside(a, axis, side) { seq![a] } else { Seq::empty() };
    if inside(a, axis, side) != inside(b, axis, side) {
        start.push(crossing_vertex(a, b, axis, side))
    } else {
        start
    }
}

/// What the first `n` edges leave.
pub open spec fn clipped_edges(input: Seq<ClipVertex>, axis: int, side: int, n: nat) -> Seq<
    ClipVertex,
>
    decreases n,
{
    if n == 0 {
        Seq::empty()
    } else {
        clipped_edges(input, axis, side, (n - 1) as nat) + clipped_edge(input, axis, side, n - 1)
    }
}

/// A polygon cut along one plane. What is no polygon any more is dropped whole.
pub open spec fn clipped_by(input: Seq<ClipVertex>, axis: int, side: int) -> Seq<ClipVertex> {
    if input.len() < 3 {
        Seq::empty()
    } else {
        clipped_edges(input, axis, side, input.len())
    }
}

/// A polygon cut along all six planes.
pub open spec fn clipped(input: Seq<ClipVertex>) -> Seq<ClipVertex> {
    let x = clipped_by(clipped_by(input, 0, 1), 0, -1);
    let y = clipped_by(clipped_by(x, 1, 1), 1, -1);
    clipped_by(clipped_by(y, 2, 1), 2, -1)
}

/// Clip a polygon against the six frustum planes, in homogeneous coordinates.
pub fn clip_polygon(input: &[ClipVertex]) -> (r: Vec<ClipVertex>)
    ensures
        r@ == clipped(input@),
{
    let mut current: Vec<ClipVertex> = Vec::new();
    for i in 0..input.len()
        invariant
            current@ == input@.take(i as int),
    {
        current.push(input[i]);
        assert(current@ =~= input@.take(i + 1));
    }
    assert(current@ =~= input@);
    current = clip_against(&current, 0, 1);
    current = clip_against(&current, 0, -1);
    current = clip_against(&current, 1, 1);
    current = clip_against(&current, 1, -1);
    current = clip_against(&current, 2, 1);
    clip_against(&current, 2, -1)
}

/// Clip against one plane: `side * coordinate <= w`.
fn clip_against(input: &Vec<ClipVertex>, axis: usize, side: i32) -> (r: Vec<ClipVertex>)
    requires
        axis < 3,
        side == 1 || side == -1,
    ensures
        r@ == clipped_by(input@, axis as int, side as int),
{
    let mut out: Vec<ClipVertex> = Vec::new();
    let count = input.len();
    if count < 3 {
        assert(out@ =~= Seq::empty());
        return out;
    }
    for i in 0..count
        invariant
            count == input@.len(),
            axis < 3,
            side == 1 || side == -1,
            out@ == clipped_edges(input@, axis as int, side as int, i as nat),
    {
        let ghost before = out@;
        let a = input[i];
        let next: usize = if i + 1 < count { i + 1 } else { 0 };
        assert(next as int == (i + 1) % (count as int)) by {
            if i + 1 == count {
                assert((count as int) % (count as int) == 0) by (nonlinear_arith)
                    requires
                        count > 0,
                ;
            } else {
                vstd::arithmetic::div_mod::lemma_small_mod((i + 1) as nat, count as nat);
            }
        }
        let b = input[next];
        let a_in = is_inside(&a, axis, side);
        let b_in = is_inside(&b, axis, side);
        if a_in {
            out.push(a);
        }
        if a_in != b_in {
            out.push(interpolate(&a, &b, axis, side));
        }
        assert(out@ =~= before + clipped_edge(input@, axis as int, side as int, i as int));
    }
    out
}

fn excess_of(v: &ClipVertex, axis: usize, side: i32) -> (r: i64)
    requires
        axis < 3,
        side == 1 || side == -1,
    ensures
        r == excess(*v, axis as int, side as int),
        -0x1_0000_0000 <= r <= 0x1_0000_0000,
{
    if side == 1 {
        v.position[axis] as i64 - v.position[3] as i64
    } else {
        -(v.position[axis] as i64) - v.position[3] as i64
    }
}

fn is_inside(v: &ClipVertex, axis: usize, side: i32) -> (r: bool)
    requires
        axis < 3,
        side == 1 || side == -1,
    ensures
        r == inside(*v, axis as int, side as int),
{
    excess_of(v, axis, side) <= 0
}

/// The attribute value where an edge crosses the plane.
fn mix(x: i32, y: i32, da: i64, db: i64) -> (r: i32)
    requires
        da != db,
        -0x1_0000_0000 <= da <= 0x1_0000_0000,
        -0x1_0000_0000 <= db <= 0x1_0000_0000,
    ensures
        r == crossing(x as int, y as int, da as int, db as int),
{
    let nb: i128 = -(db as i128);
    proof {
        lemma_difference_product(x as int, nb as int);
        lemma_difference_product(y as int, da as int);
    }
    let sum: i128 = x as i128 * nb + y as i128 * da as i128;
    arith::divide(sum, da as i128 - db as i128) as i32
}

/// The point where the edge `a`-`b` crosses the plane.
fn interpolate(a: &ClipVertex, b: &ClipVertex, axis: usize, side: i32) -> (r: ClipVertex)
    requires
        axis < 3,
        side == 1 || side == -1,
    ensures
        r == crossing_vertex(*a, *b, axis as int, side as int),
{
    let da = excess_of(a, axis, side);
    let db = excess_of(b, axis, side);
    if da == db {
        return *a;
    }
    ClipVertex {
        position: [
            mix(a.position[0], b.position[0], da, db),
            mix(a.position[1], b.position[1], da, db),
            mix(a.position[2], b.position[2], da, db),
            mix(a.position[3], b.position[3], da, db),
        ],
        color: [
            arith::clamp(mix(a.color[0] as i32, b.color[0] as i32, da, db) as i64, 0, 63) as u8,
            arith::clamp(mix(a.color[1] as i32, b.color[1] as i32, da, db) as i64, 0, 63) as u8,
            arith::clamp(mix(a.color[2] as i32, b.color[2] as i32, da, db) as i64, 0, 63) as u8,
        ],
        texcoord: [
            mix(a.texcoord[0], b.texcoord[0], da, db),
            mix(a.texcoord[1], b.texcoord[1], da, db),
        ],
    }
}

/// What the geometry engine holds.
#[verifier::ext_equal]
pub struct GeometryState {
    pub matrices: MatrixState,
    pub primitive: Option<Primitive>,
    /// Vertices accumulated for the primitive being assembled.
    pub strip: Seq<ClipVertex>,
    pub strip_count: usize,
    pub current_color: [u8; 3],
    pub current_texcoord: [i32; 2],
    pub raw_texcoord: [i32; 2],
    pub last_vertex: [i32; 3],
    pub polygon_attr: u32,
    pub pending_polygon_attr: u32,
    pub tex_param: u32,
    pub palette_base: u32,
    pub lights: Seq<Light>,
    pub diffuse: [u8; 3],
    pub ambient: [u8; 3],
    pub specular: [u8; 3],
    pub emission: [u8; 3],
    pub lights_enabled: u32,
    pub viewport: [u8; 4],
    pub building: ListState,
    pub overflow: bool,
    pub swap_pending: bool,
    pub pos_result: [i32; 4],
    pub vec_result: [i32; 3],
}

/// The parameter at `i`, or zero where the list is shorter.
pub open spec fn param(params: Seq<u32>, i: int) -> u32 {
    if 0 <= i < params.len() { params[i] } else { 0 }
}

/// The ten bits at `shift` as a direction component: signed, and three bits up.
pub open spec fn direction_part(value: u32, shift: u32) -> i32 {
    extended((value >> shift) & 0x3FF, 10) << 3
}

/// A packed direction through the direction matrix.
pub open spec fn turned(m: Seq<i32>, value: u32) -> [i32; 3] {
    let t = matrix::transformed(
        m,
        direction_part(value, 0),
        direction_part(value, 10),
        direction_part(value, 20),
        0,
    );
    [t[0], t[1], t[2]]
}

/// The cosine-like level at which a direction faces a surface, never below zero.
pub open spec fn facing(direction: [i32; 3], normal: [i32; 3]) -> int {
    arith::larger(-dot_of(direction, normal), 0)
}

/// What one light adds to one colour channel.
pub open spec fn light_term(
    light: Light,
    normal: [i32; 3],
    diffuse: u8,
    specular: u8,
    ambient: u8,
    light_color: u8,
) -> int {
    let diffuse_level = facing(light.vector, normal);
    let glint = facing(light.half, normal);
    let specular_level = fixed(glint * glint);
    (((diffuse * light_color * diffuse_level) as i128) >> 18u32) + (((specular * light_color
        * specular_level) as i128) >> 18u32) + ((ambient * light_color) / 64)
}

/// What the first `n` lights add to one colour channel.
pub open spec fn light_sum(s: GeometryState, normal: [i32; 3], channel: int, n: nat) -> int
    decreases n,
{
    if n == 0 {
        0
    } else {
        let i = (n - 1) as u32;
        let before = light_sum(s, normal, channel, (n - 1) as nat);
        if s.lights_enabled & (1u32 << i) == 0 {
            before
        } else {
            before + light_term(
                s.lights[i as int],
                normal,
                s.diffuse[channel],
                s.specular[channel],
                s.ambient[channel],
                s.lights[i as int].color[channel],
            )
        }
    }
}

/// One channel of the lit colour.
pub open spec fn lit_channel(s: GeometryState, normal: [i32; 3], channel: int) -> u8 {
    clamped(s.emission[channel] + light_sum(s, normal, channel, 4), 0, 63) as u8
}

/// One texture coordinate through the texture matrix.
pub open spec fn textured(m: Seq<i32>, raw: [i32; 2], row: int) -> i32 {
    fixed(
        raw[0] * matrix::element(m, row, 0) + raw[1] * matrix::element(m, row, 1)
            + matrix::element(m, row, 3) * 16,
    )
}

/// A clip-space vertex divided by `w` and mapped into the viewport.
pub open spec fn screen_of(v: ClipVertex, viewport: [u8; 4]) -> ScreenVertex {
    let (x, y, z, w) = (v.position[0], v.position[1], v.position[2], v.position[3]);
    let (left, bottom, right, top) = (viewport[0], viewport[1], viewport[2], viewport[3]);
    let width = arith::larger(right - left + 1, 1);
    let height = arith::larger(top - bottom + 1, 1);
    let denominator = if w == 0 { 1 } else { w * 2 };
    ScreenVertex {
        x: (quotient((x + w) * width, denominator) + left) as i32,
        y: (quotient((-y + w) * height, denominator) + (191 - top)) as i32,
        depth: if w == 0 {
            0
        } else {
            (clamped(quotient(z * 0x4000, w as int) + 0x3FFF, 0, 0x7FFF) * 0x200) as u32
        },
        w,
        color: v.color,
        texcoord: v.texcoord,
    }
}

/// All of a face on the screen.
pub open spec fn screens_of(face: Seq<ClipVertex>, viewport: [u8; 4]) -> Seq<ScreenVertex> {
    Seq::new(face.len(), |i: int| screen_of(face[i], viewport))
}

/// The face that a strip completes with its newest vertex, if it completes one. `count` is how
/// many vertices the primitive has had so far.
pub open spec fn completed_face(primitive: Primitive, strip: Seq<ClipVertex>, count: usize) -> Option<
    Seq<ClipVertex>,
> {
    let n = strip.len() as int;
    match primitive {
        Primitive::Triangles => if n == 3 { Some(strip) } else { None },
        Primitive::Quads => if n == 4 { Some(strip) } else { None },
        // Every other triangle of a strip has two of its vertices swapped.
        Primitive::TriangleStrip => if n < 3 {
            None
        } else if count % 2 == 0 {
            Some(seq![strip[n - 2], strip[n - 3], strip[n - 1]])
        } else {
            Some(seq![strip[n - 3], strip[n - 2], strip[n - 1]])
        },
        // The vertices of a quad strip arrive in pairs.
        Primitive::QuadStrip => if n == 4 {
            Some(seq![strip[0], strip[1], strip[3], strip[2]])
        } else {
            None
        },
    }
}

/// How many of a strip's oldest vertices go once it has completed a face.
pub open spec fn used_up(primitive: Primitive, n: nat) -> int {
    match primitive {
        Primitive::Triangles => 3,
        Primitive::Quads => 4,
        Primitive::TriangleStrip => if n > 3 { 1 } else { 0 },
        Primitive::QuadStrip => 2,
    }
}

impl GeometryState {
    /// A freshly reset engine.
    pub open spec fn initial() -> GeometryState {
        GeometryState {
            matrices: MatrixState::initial(),
            primitive: None,
            strip: Seq::empty(),
            strip_count: 0,
            current_color: [63, 63, 63],
            current_texcoord: [0, 0],
            raw_texcoord: [0, 0],
            last_vertex: [0, 0, 0],
            polygon_attr: 0,
            pending_polygon_attr: 0,
            tex_param: 0,
            palette_base: 0,
            lights: Seq::new(
                4,
                |i: int| Light { vector: [0, 0, 0], half: [0, 0, 0], color: [0, 0, 0] },
            ),
            diffuse: [0, 0, 0],
            ambient: [0, 0, 0],
            specular: [0, 0, 0],
            emission: [0, 0, 0],
            lights_enabled: 0,
            viewport: [0, 0, 255, 191],
            building: ListState::empty(),
            overflow: false,
            swap_pending: false,
            pos_result: [0, 0, 0, 0],
            vec_result: [0, 0, 0],
        }
    }

    /// The current texture coordinates follow from the raw ones.
    pub open spec fn retextured(self) -> GeometryState {
        GeometryState {
            current_texcoord: if (self.tex_param >> 30) & 3 == 1 {
                [
                    textured(self.matrices.texture, self.raw_texcoord, 0),
                    textured(self.matrices.texture, self.raw_texcoord, 1),
                ]
            } else {
                self.raw_texcoord
            },
            ..self
        }
    }

    /// `TEXCOORD`.
    pub open spec fn with_texcoord(self, value: u32) -> GeometryState {
        GeometryState {
            raw_texcoord: [extended(value & 0xFFFF, 16), extended(value >> 16, 16)],
            ..self
        }.retextured()
    }

    /// `LIGHT_VECTOR`.
    pub open spec fn with_light_vector(self, value: u32) -> GeometryState {
        let index = (value >> 30) as int % 4;
        let vector = turned(self.matrices.direction, value);
        let half = [
            quotient(vector[0] as int, 2) as i32,
            quotient(vector[1] as int, 2) as i32,
            quotient(vector[2] - ONE, 2) as i32,
        ];
        GeometryState {
            lights: self.lights.update(
                index,
                Light { vector, half, color: self.lights[index].color },
            ),
            ..self
        }
    }

    /// `LIGHT_COLOR`.
    pub open spec fn with_light_color(self, value: u32) -> GeometryState {
        let index = (value >> 30) as int % 4;
        GeometryState {
            lights: self.lights.update(
                index,
                Light { color: color_of(value), ..self.lights[index] },
            ),
            ..self
        }
    }

    /// `NORMAL`.
    pub open spec fn with_normal(self, value: u32) -> GeometryState {
        let normal = turned(self.matrices.direction, value);
        GeometryState {
            raw_texcoord: if (self.tex_param >> 30) & 3 == 2 {
                [direction_part(value, 0) >> 8, direction_part(value, 10) >> 8]
            } else {
                self.raw_texcoord
            },
            current_color: [
                lit_channel(self, normal, 0),
                lit_channel(self, normal, 1),
                lit_channel(self, normal, 2),
            ],
            ..self
        }
    }

    /// `DIF_AMB`.
    pub open spec fn with_diffuse(self, value: u32) -> GeometryState {
        GeometryState {
            diffuse: color_of(value),
            ambient: color_of(value >> 16),
            current_color: if value & (1u32 << 15) != 0 {
                color_of(value)
            } else {
                self.current_color
            },
            ..self
        }
    }

    /// `BEGIN_VTXS`.
    pub open spec fn begun(self, primitive: Primitive) -> GeometryState {
        GeometryState {
            polygon_attr: self.pending_polygon_attr,
            lights_enabled: self.pending_polygon_attr & 0xF,
            primitive: Some(primitive),
            strip: Seq::empty(),
            strip_count: 0,
            ..self
        }
    }

    /// The list with one polygon more, made of `screen`.
    pub open spec fn with_polygon(self, screen: Seq<ScreenVertex>) -> GeometryState {
        let base = self.building.vertices.len();
        GeometryState {
            building: ListState {
                vertices: self.building.vertices + screen,
                polygons: self.building.polygons.push(
                    PolygonState {
                        vertices: Seq::new(screen.len(), |i: int| (base + i) as usize),
                        attr: self.polygon_attr,
                        tex_param: self.tex_param,
                        palette_base: self.palette_base,
                        front_facing: front_facing(screen),
                    },
                ),
                ..self.building
            },
            ..self
        }
    }

    /// A face clipped, put on the screen, and added to the list unless it is culled or there is
    /// no room.
    #[verifier::opaque]
    pub open spec fn assembled(self, face: Seq<ClipVertex>) -> GeometryState {
        let kept = clipped(face);
        let screen = screens_of(kept, self.viewport);
        let shown = if front_facing(screen) {
            self.polygon_attr & (1u32 << 7) != 0
        } else {
            self.polygon_attr & (1u32 << 6) != 0
        };
        if kept.len() < 3 || !shown {
            self
        } else if self.building.polygons.len() >= MAX_POLYGONS || self.building.vertices.len()
            + screen.len() > MAX_VERTICES {
            GeometryState { overflow: true, ..self }
        } else {
            self.with_polygon(screen)
        }
    }

    /// The engine once the strip has grown by `v`.
    pub open spec fn with_strip_vertex(self, primitive: Primitive, v: ClipVertex) -> GeometryState {
        let strip = self.strip.push(v);
        let count = self.strip_count.wrapping_add(1);
        let grown = GeometryState { strip, strip_count: count, ..self };
        match completed_face(primitive, strip, count) {
            None => grown,
            Some(face) => GeometryState {
                strip: strip.skip(used_up(primitive, strip.len())),
                ..grown.assembled(face)
            },
        }
    }

    /// A vertex command.
    pub open spec fn emitted(self, x: i32, y: i32, z: i32) -> GeometryState {
        let moved = GeometryState { last_vertex: [x, y, z], ..self };
        match self.primitive {
            None => moved,
            Some(primitive) => moved.with_strip_vertex(
                primitive,
                ClipVertex {
                    position: matrix::transformed(self.matrices.clip(), x, y, z, ONE),
                    color: self.current_color,
                    texcoord: self.current_texcoord,
                },
            ),
        }
    }

    /// One of the vertex commands `0x23` to `0x28`.
    pub open spec fn with_vertex_command(self, opcode: u8, params: Seq<u32>) -> GeometryState {
        let p0 = param(params, 0);
        let low = extended(p0 & 0xFFFF, 16);
        let high = extended(p0 >> 16, 16);
        let last = self.last_vertex;
        match opcode {
            0x23 => self.emitted(low, high, extended(param(params, 1) & 0xFFFF, 16)),
            0x24 => self.emitted(
                extended(p0 & 0x3FF, 10) << 6,
                extended((p0 >> 10) & 0x3FF, 10) << 6,
                extended((p0 >> 20) & 0x3FF, 10) << 6,
            ),
            0x25 => self.emitted(low, high, last[2]),
            0x26 => self.emitted(low, last[1], high),
            0x27 => self.emitted(last[0], low, high),
            _ => self.emitted(
                last[0].wrapping_add(direction_part(p0, 0)),
                last[1].wrapping_add(direction_part(p0, 10)),
                last[2].wrapping_add(direction_part(p0, 20)),
            ),
        }
    }

    /// One of the matrix commands `0x10` to `0x1C`.
    pub open spec fn with_matrix_command(self, opcode: u8, params: Seq<u32>) -> GeometryState {
        let p0 = param(params, 0);
        let m = self.matrices;
        let (x, y, z) = (p0 as i32, param(params, 1) as i32, param(params, 2) as i32);
        let values = words(params);
        let matrices = match opcode {
            0x10 => m.moded(p0),
            0x11 => m.pushed(),
            0x12 => m.popped(extended(p0, 6) as int),
            0x13 => m.stored(p0),
            0x14 => m.recalled(p0),
            0x15 => m.loaded(matrix::identity()),
            0x16 => m.loaded(matrix::filled_4x4(values)),
            0x17 => m.loaded(matrix::filled_4x3(values)),
            0x18 => m.multiplied(matrix::filled_4x4(values)),
            0x19 => m.multiplied(matrix::filled_4x3(values)),
            0x1A => m.multiplied(matrix::filled_3x3(values)),
            0x1B => m.scaled(x, y, z),
            0x1C => m.multiplied(matrix::translation(x, y, z)),
            _ => m,
        };
        GeometryState { matrices, ..self }
    }

    /// One command with its parameters. An opcode that does not exist does nothing.
    #[verifier::opaque]
    pub open spec fn executed(self, opcode: u8, params: Seq<u32>) -> GeometryState {
        let p0 = param(params, 0);
        if 0x10 <= opcode <= 0x1C {
            self.with_matrix_command(opcode, params)
        } else if 0x23 <= opcode <= 0x28 {
            self.with_vertex_command(opcode, params)
        } else {
            match opcode {
                0x20 => GeometryState { current_color: color_of(p0), ..self },
                0x21 => self.with_normal(p0),
                0x22 => self.with_texcoord(p0),
                0x29 => GeometryState { pending_polygon_attr: p0, ..self },
                0x2A => GeometryState { tex_param: p0, ..self }.retextured(),
                0x2B => GeometryState { palette_base: p0 & 0x1FFF, ..self },
                0x30 => self.with_diffuse(p0),
                0x31 => GeometryState {
                    specular: color_of(p0),
                    emission: color_of(p0 >> 16),
                    ..self
                },
                0x32 => self.with_light_vector(p0),
                0x33 => self.with_light_color(p0),
                0x40 => self.begun(primitive_of(p0)),
                0x50 => GeometryState { swap_pending: true, ..self },
                0x60 => GeometryState {
                    viewport: [p0 as u8, (p0 >> 8) as u8, (p0 >> 16) as u8, (p0 >> 24) as u8],
                    ..self
                },
                0x71 => GeometryState {
                    pos_result: matrix::transformed(
                        self.matrices.clip(),
                        extended(p0 & 0xFFFF, 16),
                        extended(p0 >> 16, 16),
                        extended(param(params, 1) & 0xFFFF, 16),
                        ONE,
                    ),
                    ..self
                },
                0x72 => GeometryState { vec_result: turned(self.matrices.direction, p0), ..self },
                _ => self,
            }
        }
    }

    /// The engine after its list was taken.
    pub open spec fn taken(self) -> GeometryState {
        GeometryState {
            swap_pending: false,
            primitive: None,
            strip: Seq::empty(),
            building: ListState::empty(),
            ..self
        }
    }
}

/// The geometry engine's whole state.
#[derive(Debug, Clone, PartialEq, Eq)]
pub struct Geometry {
    pub matrices: MatrixStack,
    pub primitive: Option<Primitive>,
    /// Vertices accumulated for the primitive currently being assembled.
    pub strip: Vec<ClipVertex>,
    /// How many vertices the current strip has consumed in total, for the strip winding rule.
    pub strip_count: usize,
    pub current_color: [u8; 3],
    pub current_texcoord: [i32; 2],
    /// The texture coordinates as written, before any matrix transform.
    pub raw_texcoord: [i32; 2],
    pub last_vertex: [i32; 3],
    pub polygon_attr: u32,
    /// `POLYGON_ATTR` is latched at `BEGIN_VTXS`, not applied immediately.
    pub pending_polygon_attr: u32,
    pub tex_param: u32,
    pub palette_base: u32,
    pub lights: [Light; 4],
    pub diffuse: [u8; 3],
    pub ambient: [u8; 3],
    pub specular: [u8; 3],
    pub emission: [u8; 3],
    pub lights_enabled: u32,
    pub viewport: [u8; 4],
    /// The list being built. Swapped out by `SWAP_BUFFERS`.
    pub building: DisplayList,
    /// Set when vertex or polygon RAM overflows, and reported through `GXSTAT`.
    pub overflow: bool,
    /// Set by `SWAP_BUFFERS`; cleared once the renderer has taken the list.
    pub swap_pending: bool,
    /// The result of the last `POS_TEST`, read back through `POS_RESULT`.
    pub pos_result: [i32; 4],
    /// The result of the last `VEC_TEST`.
    pub vec_result: [i32; 3],
}

impl View for Geometry {
    type V = GeometryState;

    open spec fn view(&self) -> GeometryState {
        GeometryState {
            matrices: self.matrices@,
            primitive: self.primitive,
            strip: self.strip@,
            strip_count: self.strip_count,
            current_color: self.current_color,
            current_texcoord: self.current_texcoord,
            raw_texcoord: self.raw_texcoord,
            last_vertex: self.last_vertex,
            polygon_attr: self.polygon_attr,
            pending_polygon_attr: self.pending_polygon_attr,
            tex_param: self.tex_param,
            palette_base: self.palette_base,
            lights: self.lights@,
            diffuse: self.diffuse,
            ambient: self.ambient,
            specular: self.specular,
            emission: self.emission,
            lights_enabled: self.lights_enabled,
            viewport: self.viewport,
            building: self.building@,
            overflow: self.overflow,
            swap_pending: self.swap_pending,
            pos_result: self.pos_result,
            vec_result: self.vec_result,
        }
    }
}

impl Default for Geometry {
    fn default() -> (r: Self)
        ensures
            r.wf(),
            r@ == GeometryState::initial(),
    {
        Geometry::new()
    }
}

impl Geometry {
    /// The stacks are in order and the list keeps within the hardware's limits.
    pub open spec fn wf(&self) -> bool {
        &&& self.matrices.wf()
        &&& self.building@.bounded()
    }

    pub fn new() -> (r: Self)
        ensures
            r.wf(),
            r@ == GeometryState::initial(),
    {
        let dark = Light { vector: [0, 0, 0], half: [0, 0, 0], color: [0, 0, 0] };
        let r = Geometry {
            matrices: MatrixStack::new(),
            primitive: None,
            strip: Vec::new(),
            strip_count: 0,
            current_color: [63, 63, 63],
            current_texcoord: [0, 0],
            raw_texcoord: [0, 0],
            last_vertex: [0, 0, 0],
            polygon_attr: 0,
            pending_polygon_attr: 0,
            tex_param: 0,
            palette_base: 0,
            lights: [dark;4],
            diffuse: [0, 0, 0],
            ambient: [0, 0, 0],
            specular: [0, 0, 0],
            emission: [0, 0, 0],
            lights_enabled: 0,
            viewport: [0, 0, 255, 191],
            building: DisplayList::default(),
            overflow: false,
            swap_pending: false,
            pos_result: [0, 0, 0, 0],
            vec_result: [0, 0, 0],
        };
        assert(r@ =~= GeometryState::initial());
        r
    }

    /// Apply the texture matrix if the transform mode asks for it.
    fn set_texcoord_from_raw(&mut self)
        requires
            old(self).wf(),
        ensures
            final(self).wf(),
            final(self)@ == old(self)@.retextured(),
    {
        let mode = (self.tex_param >> 30) & 3;
        if mode == 1 {
            self.current_texcoord = [self.texture_coordinate(0), self.texture_coordinate(1)];
        } else {
            self.current_texcoord = self.raw_texcoord;
        }
    }

    /// One raw coordinate pair through a row of the texture matrix.
    fn texture_coordinate(&self, row: usize) -> (r: i32)
        requires
            self.wf(),
            row < 2,
        ensures
            r == textured(self@.matrices.texture, self.raw_texcoord, row as int),
    {
        let m = &self.matrices.texture;
        let sum: i128 = arith::word_product(self.raw_texcoord[0], m.at(row, 0))
            + arith::word_product(self.raw_texcoord[1], m.at(row, 1)) + m.at(row, 3) as i128 * 16;
        (sum >> 12u32) as i32
    }

    fn set_texcoord(&mut self, value: u32)
        requires
            old(self).wf(),
        ensures
            final(self).wf(),
            final(self)@ == old(self)@.with_texcoord(value),
    {
        self.raw_texcoord = [sign_extend(value & 0xFFFF, 16), sign_extend(value >> 16, 16)];
        self.set_texcoord_from_raw();
    }

    /// A packed direction through the direction matrix.
    fn turn(&self, value: u32) -> (r: [i32; 3])
        requires
            self.wf(),
        ensures
            r == turned(self@.matrices.direction, value),
    {
        let t = self.matrices.direction.transform(
            direction_component(value, 0),
            direction_component(value, 10),
            direction_component(value, 20),
            0,
        );
        [t[0], t[1], t[2]]
    }

    /// `LIGHT_VECTOR`: the direction goes through the direction matrix.
    fn set_light_vector(&mut self, value: u32)
        requires
            old(self).wf(),
        ensures
            final(self).wf(),
            final(self)@ == old(self)@.with_light_vector(value),
    {
        let index: usize = (value >> 30) as usize % 4;
        let vector = self.turn(value);
        // The half-vector between the light and the line of sight, which points down -Z.
        let half = [
            (vector[0] as i64 / 2) as i32,
            (vector[1] as i64 / 2) as i32,
            ((vector[2] as i64 - ONE as i64) / 2) as i32,
        ];
        self.lights[index] = Light { vector, half, color: self.lights[index].color };
    }

    /// `NORMAL`: run the lighting equation and set the vertex colour from it.
    fn apply_normal(&mut self, value: u32)
        requires
            old(self).wf(),
        ensures
            final(self).wf(),
            final(self)@ == old(self)@.with_normal(value),
    {
        let normal = self.turn(value);
        let red = self.light_channel(&normal, 0);
        let green = self.light_channel(&normal, 1);
        let blue = self.light_channel(&normal, 2);
        // In texture transform mode 2 the normal doubles as texture coordinates.
        if (self.tex_param >> 30) & 3 == 2 {
            self.raw_texcoord = [
                direction_component(value, 0) >> 8,
                direction_component(value, 10) >> 8,
            ];
        }
        self.current_color = [red, green, blue];
    }

    /// Emission plus what every enabled light adds, for one channel.
    fn light_channel(&self, normal: &[i32; 3], channel: usize) -> (r: u8)
        requires
            channel < 3,
        ensures
            r == lit_channel(self@, *normal, channel as int),
    {
        let mut sum: i128 = 0;
        for index in 0..4usize
            invariant
                channel < 3,
                sum == light_sum(self@, *normal, channel as int, index as nat),
                -0x8000_0000_0000_0000 * index <= sum <= 0x8000_0000_0000_0000 * index,
        {
            if self.lights_enabled & (1u32 << (index as u32)) != 0 {
                sum = sum + self.light_level(normal, channel, index);
            }
        }
        arith::clamp_wide(self.emission[channel] as i128 + sum, 0, 63) as u8
    }

    /// What one light adds to one channel.
    fn light_level(&self, normal: &[i32; 3], channel: usize, index: usize) -> (r: i128)
        requires
            channel < 3,
            index < 4,
        ensures
            r == light_term(
                self@.lights[index as int],
                *normal,
                self@.diffuse[channel as int],
                self@.specular[channel as int],
                self@.ambient[channel as int],
                self@.lights[index as int].color[channel as int],
            ),
            -0x8000_0000_0000_0000 <= r <= 0x8000_0000_0000_0000,
    {
        let light = self.lights[index];
        let light_color = light.color[channel];
        // A light behind the surface contributes nothing rather than a negative amount.
        let diffuse_level: i64 = facing_level(&light.vector, normal);
        let glint: i64 = facing_level(&light.half, normal);
        proof {
            lemma_difference_product(glint as int, glint as int);
        }
        let specular_level = ((glint as i128 * glint as i128) >> 12u32) as i32;
        let diffuse = scaled_level(self.diffuse[channel], light_color, diffuse_level);
        let specular = scaled_level(self.specular[channel], light_color, specular_level as i64);
        let ambient: i128 = self.ambient[channel] as i128;
        proof {
            lemma_byte_product(self.ambient[channel as int] as int, light_color as int);
        }
        diffuse + specular + ambient * light_color as i128 / 64
    }

    fn begin(&mut self, primitive: Primitive)
        requires
            old(self).wf(),
        ensures
            final(self).wf(),
            final(self)@ == old(self)@.begun(primitive),
    {
        self.polygon_attr = self.pending_polygon_attr;
        self.lights_enabled = self.polygon_attr & 0xF;
        self.primitive = Some(primitive);
        self.strip.clear();
        self.strip_count = 0;
    }

    /// Divide by `w` and map into the viewport.
    fn to_screen(&self, v: &ClipVertex) -> (r: ScreenVertex)
        ensures
            r == screen_of(*v, self.viewport),
    {
        let x = v.position[0] as i64;
        let y = v.position[1] as i64;
        let z = v.position[2] as i64;
        let w = v.position[3] as i64;
        let left = self.viewport[0] as i64;
        let bottom = self.viewport[1] as i64;
        let right = self.viewport[2] as i64;
        let top = self.viewport[3] as i64;
        let width: i64 = if right - left + 1 > 1 { right - left + 1 } else { 1 };
        let height: i64 = if top - bottom + 1 > 1 { top - bottom + 1 } else { 1 };
        proof {
            lemma_difference_product(x + w, width as int);
            lemma_difference_product(-y + w, height as int);
        }
        // `w` of zero is a degenerate vertex, and still lands somewhere.
        let denominator: i64 = if w == 0 { 1 } else { w * 2 };
        let sx: i128 = arith::divide((x + w) as i128 * width as i128, denominator as i128);
        // Screen Y counts down from the top, and the viewport's Y counts up from the bottom.
        let sy: i128 = arith::divide((-y + w) as i128 * height as i128, denominator as i128);
        proof {
            lemma_quotient_bound((x + w) * width, denominator as int);
            lemma_quotient_bound((-y + w) * height, denominator as int);
        }
        let depth: u32 = if w == 0 {
            0
        } else {
            proof {
                lemma_quotient_bound(z * 0x4000, w as int);
            }
            let level = arith::clamp_wide(
                arith::divide(z as i128 * 0x4000, w as i128) + 0x3FFF,
                0,
                0x7FFF,
            );
            level as u32 * 0x200
        };
        ScreenVertex {
            x: (sx + left as i128) as i32,
            y: (sy + (191 - top) as i128) as i32,
            depth,
            w: v.position[3],
            color: v.color,
            texcoord: v.texcoord,
        }
    }

    /// Clip a face, transform it to the screen, and add it to the list.
    fn assemble(&mut self, face: &[ClipVertex])
        requires
            old(self).wf(),
        ensures
            final(self).wf(),
            final(self)@ == old(self)@.assembled(face@),
            final(self)@.strip == old(self)@.strip,
    {
        reveal(GeometryState::assembled);
        let kept = clip_polygon(face);
        if kept.len() < 3 {
            return;
        }
        let mut screen: Vec<ScreenVertex> = Vec::new();
        for i in 0..kept.len()
            invariant
                screen@ == screens_of(kept@, self.viewport).take(i as int),
        {
            screen.push(self.to_screen(&kept[i]));
            assert(screen@ =~= screens_of(kept@, self.viewport).take(i + 1));
        }
        assert(screen@ =~= screens_of(kept@, self.viewport));
        let front_facing = is_front_facing(&screen);
        let attr = self.polygon_attr;
        let renders_front = attr & (1u32 << 7) != 0;
        let renders_back = attr & (1u32 << 6) != 0;
        if (front_facing && !renders_front) || (!front_facing && !renders_back) {
            return;
        }
        if self.building.polygons.len() >= MAX_POLYGONS || screen.len() > MAX_VERTICES
            - self.building.vertices.len() {
            self.overflow = true;
            return;
        }
        let base = self.building.vertices.len();
        let mut vertices: Vec<usize> = Vec::new();
        for i in 0..screen.len()
            invariant
                base + screen@.len() <= MAX_VERTICES,
                base == old(self).building.vertices@.len(),
                vertices@.len() == i,
                forall|j: int| 0 <= j < i ==> #[trigger] vertices@[j] == base + j,
                self.building.vertices@ =~= old(self).building.vertices@ + screen@.take(i as int),
                *self == (Geometry {
                    building: DisplayList {
                        vertices: self.building.vertices,
                        ..old(self).building
                    },
                    ..*old(self)
                }),
        {
            self.building.vertices.push(screen[i]);
            vertices.push(base + i);
        }
        let polygon = Polygon {
            vertices,
            attr,
            tex_param: self.tex_param,
            palette_base: self.palette_base,
            front_facing,
        };
        let ghost polygons = self.building.polygons@;
        self.building.polygons.push(polygon);
        assert(screen@.take(screen@.len() as int) =~= screen@);
        assert(polygon@ =~= old(self)@.with_polygon(screen@).building.polygons.last());
        assert(self.building@.polygons =~= old(self)@.with_polygon(screen@).building.polygons);
        assert(self@ =~~= old(self)@.with_polygon(screen@));
        assert(self.building@.polygons == old(self).building@.polygons.push(polygon@));
    }

    fn emit_vertex(&mut self, x: i32, y: i32, z: i32)
        requires
            old(self).wf(),
        ensures
            final(self).wf(),
            final(self)@ == old(self)@.emitted(x, y, z),
    {
        self.last_vertex = [x, y, z];
        let primitive = match self.primitive {
            None => {
                return;
            },
            Some(primitive) => primitive,
        };
        let position = self.matrices.clip_matrix().transform(x, y, z, ONE);
        let v = ClipVertex {
            position,
            color: self.current_color,
            texcoord: self.current_texcoord,
        };
        self.push_strip(primitive, v);
    }

    /// Grow the strip, and assemble a face where it completes one.
    fn push_strip(&mut self, primitive: Primitive, v: ClipVertex)
        requires
            old(self).wf(),
        ensures
            final(self).wf(),
            final(self)@ == old(self)@.with_strip_vertex(primitive, v),
    {
        self.strip.push(v);
        self.strip_count = self.strip_count.wrapping_add(1);
        let ghost strip = self.strip@;
        match complete_face(primitive, &self.strip, self.strip_count) {
            None => {},
            Some(face) => {
                self.assemble(&face);
                let ghost added = self@;
                let used: usize = match primitive {
                    Primitive::Triangles => 3,
                    Primitive::Quads => 4,
                    Primitive::TriangleStrip => if self.strip.len() > 3 { 1 } else { 0 },
                    Primitive::QuadStrip => 2,
                };
                let mut rest: Vec<ClipVertex> = Vec::new();
                for i in used..self.strip.len()
                    invariant
                        self.strip@ == strip,
                        rest@ =~= strip.subrange(used as int, i as int),
                {
                    rest.push(self.strip[i]);
                }
                assert(rest@ =~= strip.skip(used as int));
                self.strip = rest;
            },
        }
    }

    /// One of the vertex commands `0x23` to `0x28`.
    fn vertex_command(&mut self, opcode: u8, params: &[u32])
        requires
            old(self).wf(),
            0x23 <= opcode <= 0x28,
        ensures
            final(self).wf(),
            final(self)@ == old(self)@.with_vertex_command(opcode, params@),
    {
        let p0 = param_or_zero(params, 0);
        let low = sign_extend(p0 & 0xFFFF, 16);
        let high = sign_extend(p0 >> 16, 16);
        let last = self.last_vertex;
        match opcode {
            0x23 => {
                let z = sign_extend(param_or_zero(params, 1) & 0xFFFF, 16);
                self.emit_vertex(low, high, z);
            },
            0x24 => {
                // Three 10-bit values in 4.6, so each shifts up by six into 4.12.
                let x = sign_extend(p0 & 0x3FF, 10) << 6;
                let y = sign_extend((p0 >> 10) & 0x3FF, 10) << 6;
                let z = sign_extend((p0 >> 20) & 0x3FF, 10) << 6;
                self.emit_vertex(x, y, z);
            },
            0x25 => self.emit_vertex(low, high, last[2]),
            0x26 => self.emit_vertex(low, last[1], high),
            0x27 => self.emit_vertex(last[0], low, high),
            _ => {
                // Each difference is a 10-bit value whose unit is eight of the vertex format's,
                // which is why this is a shift of three and not of six.
                self.emit_vertex(
                    last[0].wrapping_add(direction_component(p0, 0)),
                    last[1].wrapping_add(direction_component(p0, 10)),
                    last[2].wrapping_add(direction_component(p0, 20)),
                );
            },
        }
    }

    /// One of the matrix commands `0x10` to `0x1C`.
    fn matrix_command(&mut self, opcode: u8, params: &[u32])
        requires
            old(self).wf(),
        ensures
            final(self).wf(),
            final(self)@ == old(self)@.with_matrix_command(opcode, params@),
    {
        let p0 = param_or_zero(params, 0);
        let x = p0 as i32;
        let y = param_or_zero(params, 1) as i32;
        let z = param_or_zero(params, 2) as i32;
        let values = to_i32(params);
        match opcode {
            0x10 => self.matrices.set_mode(p0),
            0x11 => self.matrices.push(),
            0x12 => self.matrices.pop(sign_extend(p0, 6)),
            0x13 => self.matrices.store(p0),
            0x14 => self.matrices.restore(p0),
            0x15 => self.matrices.load_identity(),
            0x16 => self.matrices.load_matrix(Matrix::from_4x4(&values)),
            0x17 => self.matrices.load_matrix(Matrix::from_4x3(&values)),
            0x18 => self.matrices.multiply(Matrix::from_4x4(&values)),
            0x19 => self.matrices.multiply(Matrix::from_4x3(&values)),
            0x1A => self.matrices.multiply(Matrix::from_3x3(&values)),
            0x1B => self.matrices.scale(x, y, z),
            0x1C => self.matrices.translate(x, y, z),
            _ => {},
        }
    }

    /// Execute one command with its parameters.
    pub fn execute(&mut self, opcode: u8, params: &[u32])
        requires
            old(self).wf(),
        ensures
            final(self).wf(),
            final(self)@ == old(self)@.executed(opcode, params@),
    {
        reveal(GeometryState::executed);
        let p0 = param_or_zero(params, 0);
        if 0x10 <= opcode && opcode <= 0x1C {
            self.matrix_command(opcode, params);
            return;
        }
        if 0x23 <= opcode && opcode <= 0x28 {
            self.vertex_command(opcode, params);
            return;
        }
        match opcode {
            0x20 => {
                self.current_color = decode_color(p0);
            },
            0x21 => self.apply_normal(p0),
            0x22 => self.set_texcoord(p0),
            0x29 => {
                self.pending_polygon_attr = p0;
            },
            0x2A => {
                self.tex_param = p0;
                // A texture-coordinate transform mode change re-transforms from the raw value.
                self.set_texcoord_from_raw();
            },
            0x2B => {
                self.palette_base = p0 & 0x1FFF;
            },
            0x30 => {
                self.diffuse = decode_color(p0);
                self.ambient = decode_color(p0 >> 16);
                // Bit 15 sets the vertex colour to the diffuse colour immediately.
                if p0 & (1u32 << 15) != 0 {
                    self.current_color = self.diffuse;
                }
            },
            0x31 => {
                self.specular = decode_color(p0);
                self.emission = decode_color(p0 >> 16);
            },
            0x32 => self.set_light_vector(p0),
            0x33 => {
                let index: usize = (p0 >> 30) as usize % 4;
                self.lights[index].color = decode_color(p0);
            },
            0x40 => self.begin(Primitive::from_bits(p0)),
            0x50 => {
                // The swap itself happens at the next vertical blank.
                self.swap_pending = true;
            },
            0x60 => {
                self.viewport =
                [p0 as u8, (p0 >> 8) as u8, (p0 >> 16) as u8, (p0 >> 24) as u8];
            },
            0x71 => {
                let x = sign_extend(p0 & 0xFFFF, 16);
                let y = sign_extend(p0 >> 16, 16);
                let z = sign_extend(param_or_zero(params, 1) & 0xFFFF, 16);
                self.pos_result = self.matrices.clip_matrix().transform(x, y, z, ONE);
            },
            0x72 => {
                self.vec_result = self.turn(p0);
            },
            // NOP, SHININESS, END_VTXS, BOX_TEST, and opcodes that do not exist.
            _ => {},
        }
    }

    /// Take the finished display list, which is what `SWAP_BUFFERS` made available.
    pub fn take_display_list(&mut self) -> (r: DisplayList)
        requires
            old(self).wf(),
        ensures
            final(self).wf(),
            final(self)@ == old(self)@.taken(),
            r@ == old(self)@.building,
    {
        self.swap_pending = false;
        self.primitive = None;
        self.strip.clear();
        let mut list = DisplayList::default();
        std::mem::swap(&mut list, &mut self.building);
        assert(self@ =~= old(self)@.taken());
        list
    }

    pub fn polygon_count(&self) -> (r: usize)
        ensures
            r == self@.building.polygons.len(),
    {
        self.building.polygons.len()
    }

    pub fn vertex_count(&self) -> (r: usize)
        ensures
            r == self@.building.vertices.len(),
    {
        self.building.vertices.len()
    }

    pub fn viewport(&self) -> (r: [u8; 4])
        ensures
            r == self@.viewport,
    {
        self.viewport
    }

    pub fn reset(&mut self)
        ensures
            final(self).wf(),
            final(self)@ == GeometryState::initial(),
    {
        *self = Geometry::new();
    }
}

/// The parameter at `i`, or zero where the list is shorter.
fn param_or_zero(params: &[u32], i: usize) -> (r: u32)
    ensures
        r == param(params@, i as int),
{
    if i < params.len() {
        params[i]
    } else {
        0
    }
}

/// The face that a strip completes with its newest vertex.
fn complete_face(primitive: Primitive, strip: &Vec<ClipVertex>, count: usize) -> (r: Option<
    Vec<ClipVertex>,
>)
    ensures
        match r {
            None => completed_face(primitive, strip@, count) is None,
            Some(face) => {
                &&& completed_face(primitive, strip@, count) == Some(face@)
                &&& used_up(primitive, strip@.len()) <= strip@.len()
            },
        },
{
    let n = strip.len();
    match primitive {
        Primitive::Triangles => {
            if n != 3 {
                return None;
            }
            let face = vec![strip[0], strip[1], strip[2]];
            assert(face@ =~= strip@);
            Some(face)
        },
        Primitive::Quads => {
            if n != 4 {
                return None;
            }
            let face = vec![strip[0], strip[1], strip[2], strip[3]];
            assert(face@ =~= strip@);
            Some(face)
        },
        Primitive::TriangleStrip => {
            if n < 3 {
                return None;
            }
            let (first, second) = if count % 2 == 0 {
                (strip[n - 2], strip[n - 3])
            } else {
                (strip[n - 3], strip[n - 2])
            };
            let face = vec![first, second, strip[n - 1]];
            assert(face@ =~= seq![first, second, strip@[n - 1]]);
            Some(face)
        },
        Primitive::QuadStrip => {
            if n != 4 {
                return None;
            }
            let face = vec![strip[0], strip[1], strip[3], strip[2]];
            assert(face@ =~= seq![strip@[0], strip@[1], strip@[3], strip@[2]]);
            Some(face)
        },
    }
}

/// A quotient is no larger than what was divided.
proof fn lemma_quotient_bound(a: int, b: int)
    requires
        b != 0,
    ensures
        quotient(a, b) <= a || quotient(a, b) <= -a,
        -quotient(a, b) <= a || -quotient(a, b) <= -a,
{
    let n = if a >= 0 { a } else { -a };
    let d = if b > 0 { b } else { -b };
    assert(0 <= n / d <= n) by (nonlinear_arith)
        requires
            n >= 0,
            d > 0,
    ;
}

/// The product of two bytes.
proof fn lemma_byte_product(a: int, b: int)
    requires
        0 <= a <= 255,
        0 <= b <= 255,
    ensures
        0 <= a * b <= 65025,
{
    assert(0 <= a * b <= 65025) by (nonlinear_arith)
        requires
            0 <= a <= 255,
            0 <= b <= 255,
    ;
}

/// The level at which a direction faces a surface, never below zero.
fn facing_level(direction: &[i32; 3], normal: &[i32; 3]) -> (r: i64)
    ensures
        r == facing(*direction, *normal),
        0 <= r <= 0x8000_0000,
{
    let level: i64 = -(dot(direction, normal) as i64);
    if level > 0 {
        level
    } else {
        0
    }
}

/// A material channel times a light channel times a level, brought back to six bits.
fn scaled_level(material: u8, light: u8, level: i64) -> (r: i128)
    requires
        -0x8000_0000 <= level <= 0x8000_0000,
    ensures
        r == ((material * light * level) as i128) >> 18u32,
        -0x1000_0000_0000_0000 <= r <= 0x1000_0000_0000_0000,
{
    proof {
        lemma_byte_product(material as int, light as int);
        lemma_difference_product(material * light, level as int);
        assert(-65025 * 0x8000_0000 <= (material * light) * level <= 65025 * 0x8000_0000)
            by (nonlinear_arith)
            requires
                0 <= material * light <= 65025,
                -0x8000_0000 <= level <= 0x8000_0000,
        ;
    }
    let x: i128 = (material as i128 * light as i128) * level as i128;
    assert(-0x1000_0000_0000_0000 <= x <= 0x1000_0000_0000_0000 ==> -0x1000_0000_0000_0000 <= (x
        >> 18u32) <= 0x1000_0000_0000_0000) by (bit_vector);
    x >> 18u32
}

fn direction_component(value: u32, shift: u32) -> (r: i32)
    requires
        shift < 32,
    ensures
        r == direction_part(value, shift),
{
    sign_extend((value >> shift) & 0x3FF, 10) << 3
}

/// The vertex that a stream holds at `at`.
pub open spec fn vertex_at(d: Seq<u8>, at: int) -> ScreenVertex {
    ScreenVertex {
        x: state::le32(d, at) as i32,
        y: state::le32(d, at + 4) as i32,
        depth: state::le32(d, at + 8),
        w: state::le32(d, at + 12) as i32,
        color: [d[at + 16], d[at + 17], d[at + 18]],
        texcoord: [state::le32(d, at + 19) as i32, state::le32(d, at + 23) as i32],
    }
}

/// The `n` vertices that a stream holds from `at` on.
pub open spec fn vertices_at(d: Seq<u8>, at: int, n: nat) -> Seq<ScreenVertex> {
    Seq::new(n, |i: int| vertex_at(d, at + 27 * i))
}

/// How many bytes a saved polygon takes.
pub open spec fn polygon_size(p: PolygonState) -> int {
    21 + 4 * p.vertices.len() as int
}

/// How many bytes the polygons take.
pub open spec fn polygons_size(list: Seq<PolygonState>) -> int
    decreases list.len(),
{
    if list.len() == 0 {
        0
    } else {
        polygons_size(list.drop_last()) + polygon_size(list.last())
    }
}

/// The polygon that a stream holds at `at`, or why there is none.
pub open spec fn polygon_at(d: Seq<u8>, at: int) -> Result<PolygonState, StateError> {
    if at + 8 > d.len() {
        Err(StateError::UnexpectedEnd)
    } else {
        let n = state::le64(d, at);
        if n > MAX_VERTICES {
            Err(StateError::Malformed(Fault::TooMany(Counted::PolygonVertices, n)))
        } else if at + 21 + 4 * n > d.len() {
            Err(StateError::UnexpectedEnd)
        } else {
            Ok(
                PolygonState {
                    vertices: Seq::new(
                        n as nat,
                        |i: int| state::le32(d, at + 8 + 4 * i) as usize,
                    ),
                    attr: state::le32(d, at + 8 + 4 * n),
                    tex_param: state::le32(d, at + 12 + 4 * n),
                    palette_base: state::le32(d, at + 16 + 4 * n),
                    front_facing: d[at + 20 + 4 * n] != 0,
                },
            )
        }
    }
}

/// Polygons read one after the other: what came out, where reading stopped, and why.
#[verifier::ext_equal]
pub struct PolygonRun {
    pub list: Seq<PolygonState>,
    pub at: int,
    pub error: Option<StateError>,
}

/// The first `n` polygons from `at` on, as far as they can be read.
pub open spec fn polygon_run(d: Seq<u8>, at: int, n: nat) -> PolygonRun
    decreases n,
{
    if n == 0 {
        PolygonRun { list: Seq::empty(), at, error: None }
    } else {
        let before = polygon_run(d, at, (n - 1) as nat);
        if before.error is Some {
            before
        } else {
            match polygon_at(d, before.at) {
                Ok(p) => PolygonRun {
                    list: before.list.push(p),
                    at: before.at + polygon_size(p),
                    error: None,
                },
                Err(e) => PolygonRun { error: Some(e), ..before },
            }
        }
    }
}

/// A display list as read from a stream: what it became, where reading stopped, and why.
#[verifier::ext_equal]
pub struct ListRun {
    pub list: ListState,
    pub at: int,
    pub error: Option<StateError>,
}

impl ListState {
    /// How many bytes the saved list takes.
    pub open spec fn size(self) -> int {
        17 + 27 * self.vertices.len() + polygons_size(self.polygons)
    }

    /// The list after reading the stream at `at`. A stream that ends early leaves what came
    /// before the end.
    #[verifier::opaque]
    pub open spec fn read(self, d: Seq<u8>, at: int) -> ListRun {
        let stopped = |list: ListState, e: StateError|
            ListRun { list, at: 0, error: Some(e) };
        if at + 8 > d.len() {
            stopped(self, StateError::UnexpectedEnd)
        } else {
            let n = state::le64(d, at);
            let there = (d.len() - at - 8) / 27;
            if n > MAX_VERTICES {
                stopped(
                    self,
                    StateError::Malformed(Fault::TooMany(Counted::ListVertices, n)),
                )
            } else if there < n {
                stopped(
                    ListState { vertices: vertices_at(d, at + 8, there as nat), ..self },
                    StateError::UnexpectedEnd,
                )
            } else {
                self.read_polygons(d, at + 8 + 27 * n, vertices_at(d, at + 8, n as nat))
            }
        }
    }

    /// The rest of a list whose vertices are read.
    pub open spec fn read_polygons(self, d: Seq<u8>, at: int, vertices: Seq<ScreenVertex>) -> ListRun {
        let stopped = |list: ListState, e: StateError|
            ListRun { list, at: 0, error: Some(e) };
        let list = ListState { vertices, ..self };
        if at + 8 > d.len() {
            stopped(list, StateError::UnexpectedEnd)
        } else {
            let n = state::le64(d, at);
            if n > MAX_POLYGONS {
                stopped(
                    list,
                    StateError::Malformed(Fault::TooMany(Counted::ListPolygons, n)),
                )
            } else {
                let run = polygon_run(d, at + 8, n as nat);
                let list = ListState { vertices, polygons: run.list, ..self };
                match run.error {
                    Some(e) => stopped(list, e),
                    None => if run.at + 1 > d.len() {
                        stopped(list, StateError::UnexpectedEnd)
                    } else {
                        ListRun {
                            list: ListState { rear_plane_bitmap: d[run.at] != 0, ..list },
                            at: run.at + 1,
                            error: None,
                        }
                    },
                }
            }
        }
    }

    /// The stream holds this list at `at`.
    pub open spec fn encoded_at(self, d: Seq<u8>, at: int) -> bool {
        self.read(d, at) == (ListRun { list: self, at: at + self.size(), error: None })
    }
}

/// Appending to a stream leaves the vertices in it alone.
proof fn lemma_vertices_kept(shorter: Seq<u8>, longer: Seq<u8>, at: int, n: nat)
    requires
        state::continues(shorter, longer),
        0 <= at,
        at + 27 * n <= shorter.len(),
    ensures
        vertices_at(longer, at, n) == vertices_at(shorter, at, n),
{
    assert forall|i: int| 0 <= i < n implies vertex_at(longer, at + 27 * i) == #[trigger] vertices_at(
        shorter,
        at,
        n,
    )[i] by {
        let a = vertex_at(longer, at + 27 * i);
        let b = vertex_at(shorter, at + 27 * i);
        assert(a.color =~= b.color);
        assert(a.texcoord =~= b.texcoord);
    }
    assert(vertices_at(longer, at, n) =~= vertices_at(shorter, at, n));
}

/// Appending to a stream leaves a whole polygon in it alone.
proof fn lemma_polygon_kept(shorter: Seq<u8>, longer: Seq<u8>, at: int)
    requires
        state::continues(shorter, longer),
        0 <= at,
        polygon_at(shorter, at) is Ok,
    ensures
        polygon_at(longer, at) == polygon_at(shorter, at),
{
    assert(state::le64(longer, at) == state::le64(shorter, at));
    let a = polygon_at(longer, at)->Ok_0;
    let b = polygon_at(shorter, at)->Ok_0;
    assert(a.vertices =~= b.vertices);
}

/// Appending to a stream leaves whole polygons in it alone.
proof fn lemma_run_kept(shorter: Seq<u8>, longer: Seq<u8>, at: int, n: nat)
    requires
        state::continues(shorter, longer),
        0 <= at,
        polygon_run(shorter, at, n).error is None,
    ensures
        polygon_run(longer, at, n) == polygon_run(shorter, at, n),
        polygon_run(shorter, at, n).at >= at,
    decreases n,
{
    if n > 0 {
        let before = polygon_run(shorter, at, (n - 1) as nat);
        assert(before.error is None);
        lemma_run_kept(shorter, longer, at, (n - 1) as nat);
        lemma_polygon_kept(shorter, longer, before.at);
    }
}

/// A vertex ready to rasterise, as a display list writes it.
fn save_screen_vertex(v: &ScreenVertex, w: &mut StateWriter)
    ensures
        state::continues(old(w)@, final(w)@),
        final(w)@.len() == old(w)@.len() + 27,
        vertex_at(final(w)@, old(w)@.len() as int) == *v,
{
    let ghost at = w@.len() as int;
    w.write_i32(v.x);
    w.write_i32(v.y);
    w.write_u32(v.depth);
    w.write_i32(v.w);
    w.write_u8(v.color[0]);
    w.write_u8(v.color[1]);
    w.write_u8(v.color[2]);
    w.write_i32(v.texcoord[0]);
    w.write_i32(v.texcoord[1]);
    assert(vertex_at(w@, at).color =~= v.color);
    assert(vertex_at(w@, at).texcoord =~= v.texcoord);
}

/// The next vertex of a stream; meaningless if the reader has failed.
fn load_screen_vertex(r: &mut StateReader) -> (v: ScreenVertex)
    ensures
        state::advanced(*old(r), *final(r), 27),
        final(r).error() is None ==> v == vertex_at(old(r).data(), old(r).pos() as int),
{
    let x = r.i32_or(0);
    let y = r.i32_or(0);
    let depth = r.u32_or(0);
    let w = r.i32_or(0);
    let c0 = r.u8_or(0);
    let c1 = r.u8_or(0);
    let c2 = r.u8_or(0);
    let t0 = r.i32_or(0);
    let t1 = r.i32_or(0);
    ScreenVertex { x, y, depth, w, color: [c0, c1, c2], texcoord: [t0, t1] }
}

fn save_polygon(p: &Polygon, w: &mut StateWriter)
    requires
        p@.bounded(),
    ensures
        state::continues(old(w)@, final(w)@),
        final(w)@.len() == old(w)@.len() + polygon_size(p@),
        polygon_at(final(w)@, old(w)@.len() as int) == Ok::<PolygonState, StateError>(p@),
{
    let ghost start = w@;
    let ghost at = w@.len() as int;
    w.write_u64(p.vertices.len() as u64);
    let ghost counted = w@;
    for i in 0..p.vertices.len()
        invariant
            p@.bounded(),
            at == start.len(),
            state::continues(start, w@),
            state::continues(counted, w@),
            counted.len() == at + 8,
            w@.len() == at + 8 + 4 * i,
            forall|j: int|
                0 <= j < i ==> state::le32(w@, at + 8 + 4 * j) as usize
                    == #[trigger] p.vertices@[j],
    {
        assert(p@.vertices[i as int] <= 0xFFFF_FFFF);
        w.write_u32(p.vertices[i] as u32);
    }
    let ghost listed = w@;
    w.write_u32(p.attr);
    w.write_u32(p.tex_param);
    w.write_u32(p.palette_base);
    w.write_bool(p.front_facing);
    assert(state::le64(w@, at) == state::le64(counted, at));
    let ghost read = polygon_at(w@, at)->Ok_0;
    assert forall|j: int| 0 <= j < p.vertices@.len() implies read.vertices[j]
        == #[trigger] p.vertices@[j] by {
        assert(state::le32(w@, at + 8 + 4 * j) == state::le32(listed, at + 8 + 4 * j));
    }
    assert(read.vertices =~= p.vertices@);
}

/// The next polygon of a stream, unless the reader fails on it.
fn load_polygon(r: &mut StateReader) -> (p: Option<Polygon>)
    ensures
        final(r).data() == old(r).data(),
        old(r).error() is Some ==> p is None && final(r).error() == old(r).error(),
        old(r).error() is None ==> match polygon_at(old(r).data(), old(r).pos() as int) {
            Ok(read) => {
                &&& p is Some
                &&& p->0@ == read
                &&& final(r).error() is None
                &&& final(r).pos() == old(r).pos() + polygon_size(read)
            },
            Err(e) => p is None && final(r).error() == Some(e),
        },
{
    let ghost start = *r;
    let count = r.u64_or(0);
    if r.failed() {
        return None;
    }
    if count > MAX_VERTICES as u64 {
        r.reject(Fault::TooMany(Counted::PolygonVertices, count));
        return None;
    }
    let count = count as usize;
    let mut vertices: Vec<usize> = Vec::new();
    let ghost counted = *r;
    for i in 0..count
        invariant
            start.error() is None,
            state::advanced(counted, *r, 4 * i),
            counted.data() == start.data(),
            counted.error() is None,
            counted.pos() == start.pos() + 8,
            vertices@.len() == i,
            r.error() is None ==> forall|j: int|
                0 <= j < i ==> #[trigger] vertices@[j] == state::le32(
                    start.data(),
                    start.pos() + 8 + 4 * j,
                ) as usize,
    {
        vertices.push(r.u32_or(0) as usize);
    }
    let attr = r.u32_or(0);
    let tex_param = r.u32_or(0);
    let palette_base = r.u32_or(0);
    let front_facing = r.bool_or(false);
    if r.failed() {
        return None;
    }
    let p = Polygon { vertices, attr, tex_param, palette_base, front_facing };
    assert(p@.vertices =~= polygon_at(start.data(), start.pos() as int)->Ok_0.vertices);
    Some(p)
}

impl DisplayList {
    #[verifier::rlimit(30)]
    pub fn save(&self, w: &mut StateWriter)
        requires
            self@.bounded(),
        ensures
            state::continues(old(w)@, final(w)@),
            final(w)@.len() == old(w)@.len() + self@.size(),
            self@.encoded_at(final(w)@, old(w)@.len() as int),
    {
        reveal(ListState::read);
        let ghost start = w@;
        let ghost at = w@.len() as int;
        let ghost n = self.vertices@.len();
        w.write_u64(self.vertices.len() as u64);
        let ghost counted = w@;
        for i in 0..self.vertices.len()
            invariant
                at == start.len(),
                state::continues(start, w@),
                state::continues(counted, w@),
                counted.len() == at + 8,
                w@.len() == at + 8 + 27 * i,
                vertices_at(w@, at + 8, i as nat) == self.vertices@.take(i as int),
        {
            let ghost before = w@;
            save_screen_vertex(&self.vertices[i], w);
            proof {
                lemma_vertices_kept(before, w@, at + 8, i as nat);
            }
            assert(vertices_at(w@, at + 8, (i + 1) as nat) =~= self.vertices@.take(i + 1)) by {
                assert(vertices_at(w@, at + 8, (i + 1) as nat).drop_last() =~= vertices_at(
                    w@,
                    at + 8,
                    i as nat,
                ));
            }
        }
        assert(self.vertices@.take(n as int) =~= self.vertices@);
        let ghost listed = w@;
        let ghost at2 = w@.len() as int;
        let ghost m = self.polygons@.len();
        w.write_u64(self.polygons.len() as u64);
        let ghost counted2 = w@;
        let ghost states = self@.polygons;
        assert(states.take(0) =~= Seq::empty());
        for i in 0..self.polygons.len()
            invariant
                self@.bounded(),
                states == self@.polygons,
                state::continues(start, w@),
                state::continues(listed, w@),
                state::continues(counted2, w@),
                counted2.len() == at2 + 8,
                at2 >= 0,
                w@.len() == at2 + 8 + polygons_size(states.take(i as int)),
                polygon_run(w@, at2 + 8, i as nat) == (PolygonRun {
                    list: states.take(i as int),
                    at: w@.len() as int,
                    error: None,
                }),
        {
            let ghost before = w@;
            assert(states[i as int] == self.polygons@[i as int]@);
            assert(states[i as int].bounded());
            save_polygon(&self.polygons[i], w);
            proof {
                lemma_run_kept(before, w@, at2 + 8, i as nat);
                assert(states.take(i + 1).drop_last() =~= states.take(i as int));
                assert(states.take(i + 1) =~= states.take(i as int).push(states[i as int]));
            }
        }
        assert(states.take(m as int) =~= states);
        let ghost all = w@;
        w.write_bool(self.rear_plane_bitmap);
        proof {
            lemma_run_kept(all, w@, at2 + 8, m);
            lemma_vertices_kept(listed, all, at + 8, n);
            lemma_vertices_kept(all, w@, at + 8, n);
            assert(state::le64(w@, at) == state::le64(counted, at));
            assert(state::le64(w@, at2) == state::le64(counted2, at2));
            assert(27 * n <= w@.len() - at - 8);
            assert((w@.len() - at - 8) / 27 >= n);
            assert(self@.read(w@, at).list =~= self@);
        }
    }

    pub fn load(&mut self, r: &mut StateReader) -> (result: Result<(), StateError>)
        requires
            old(self)@.bounded(),
        ensures
            final(self)@.bounded(),
            final(r).data() == old(r).data(),
            old(r).error() is Some ==> final(self)@ == old(self)@ && final(r).error() == old(
                r,
            ).error(),
            old(r).error() is None ==> {
                let run = old(self)@.read(old(r).data(), old(r).pos() as int);
                &&& final(self)@ == run.list
                &&& final(r).error() == run.error
                &&& run.error is None ==> final(r).pos() == run.at
            },
            result == state::verdict(*final(r)),
    {
        reveal(ListState::read);
        let ghost start = *r;
        let ghost d = r.data();
        let ghost at = r.pos() as int;
        let vertex_count = r.u64_or(0);
        if r.failed() {
            return r.status();
        }
        if vertex_count > MAX_VERTICES as u64 {
            r.reject(Fault::TooMany(Counted::ListVertices, vertex_count));
            return r.status();
        }
        let vertex_count = vertex_count as usize;
        let ghost there = (d.len() - at - 8) / 27;
        let mut vertices: Vec<ScreenVertex> = Vec::new();
        let ghost counted = *r;
        for i in 0..vertex_count
            invariant
                counted.error() is None,
                counted.data() == d,
                counted.pos() == at + 8,
                at + 8 <= d.len(),
                there == (d.len() - at - 8) / 27,
                state::advanced(counted, *r, 27 * i),
                r.error() is None ==> i <= there && vertices@ == vertices_at(d, at + 8, i as nat),
                r.error() is Some ==> i > there && vertices@ == vertices_at(
                    d,
                    at + 8,
                    there as nat,
                ),
        {
            let ghost before = *r;
            let v = load_screen_vertex(r);
            if !r.failed() {
                vertices.push(v);
                assert(vertices@ =~= vertices_at(d, at + 8, (i + 1) as nat));
            }
        }
        self.vertices = vertices;
        if r.failed() {
            assert(self@ =~= old(self)@.read(d, at).list);
            return r.status();
        }
        let ghost at2 = r.pos() as int;
        let polygon_count = r.u64_or(0);
        if !r.failed() && polygon_count > MAX_POLYGONS as u64 {
            r.reject(Fault::TooMany(Counted::ListPolygons, polygon_count));
        }
        if r.failed() {
            assert(self@ =~= old(self)@.read(d, at).list);
            return r.status();
        }
        let polygon_count = polygon_count as usize;
        let ghost bare = *self;
        let mut polygons: Vec<Polygon> = Vec::new();
        assert(polygons@.map_values(|p: Polygon| p@) =~= Seq::empty());
        for i in 0..polygon_count
            invariant
                r.data() == d,
                r.error() == polygon_run(d, at2 + 8, i as nat).error,
                r.error() is None ==> r.pos() == polygon_run(d, at2 + 8, i as nat).at,
                polygons@.map_values(|p: Polygon| p@) == polygon_run(d, at2 + 8, i as nat).list,
                polygons@.len() <= i,
                forall|j: int| 0 <= j < polygons@.len() ==> (#[trigger] polygons@[j])@.bounded(),
        {
            let ghost before = polygons@;
            match load_polygon(r) {
                None => {},
                Some(p) => {
                    assert(forall|j: int|
                        0 <= j < p@.vertices.len() ==> #[trigger] p@.vertices[j] <= 0xFFFF_FFFF);
                    polygons.push(p);
                    assert(polygons@.map_values(|p: Polygon| p@) =~= before.map_values(
                        |p: Polygon| p@,
                    ).push(p@));
                },
            }
        }
        self.polygons = polygons;
        self.rear_plane_bitmap = r.bool_or(self.rear_plane_bitmap);
        assert(self@ =~= old(self)@.read(d, at).list);
        r.status()
    }
}

/// The three bytes at `at`, each only as far as the stream reaches.
pub open spec fn bytes3_or(d: Seq<u8>, limit: int, at: int, current: [u8; 3]) -> [u8; 3] {
    [
        state::or8(d, limit, at, current[0]),
        state::or8(d, limit, at + 1, current[1]),
        state::or8(d, limit, at + 2, current[2]),
    ]
}

/// The two words at `at`, each only as far as the stream reaches.
pub open spec fn words2_or(d: Seq<u8>, limit: int, at: int, current: [i32; 2]) -> [i32; 2] {
    [state::or_i32(d, limit, at, current[0]), state::or_i32(d, limit, at + 4, current[1])]
}

/// The three words at `at`, each only as far as the stream reaches.
pub open spec fn words3_or(d: Seq<u8>, limit: int, at: int, current: [i32; 3]) -> [i32; 3] {
    [
        state::or_i32(d, limit, at, current[0]),
        state::or_i32(d, limit, at + 4, current[1]),
        state::or_i32(d, limit, at + 8, current[2]),
    ]
}

/// The four words at `at`, each only as far as the stream reaches.
pub open spec fn words4_or(d: Seq<u8>, limit: int, at: int, current: [i32; 4]) -> [i32; 4] {
    [
        state::or_i32(d, limit, at, current[0]),
        state::or_i32(d, limit, at + 4, current[1]),
        state::or_i32(d, limit, at + 8, current[2]),
        state::or_i32(d, limit, at + 12, current[3]),
    ]
}

/// The four bytes at `at`, each only as far as the stream reaches.
pub open spec fn bytes4_or(d: Seq<u8>, limit: int, at: int, current: [u8; 4]) -> [u8; 4] {
    [
        state::or8(d, limit, at, current[0]),
        state::or8(d, limit, at + 1, current[1]),
        state::or8(d, limit, at + 2, current[2]),
        state::or8(d, limit, at + 3, current[3]),
    ]
}

/// The light at `at`, each part only as far as the stream reaches.
pub open spec fn light_or(d: Seq<u8>, limit: int, at: int, current: Light) -> Light {
    Light {
        vector: words3_or(d, limit, at, current.vector),
        half: words3_or(d, limit, at + 12, current.half),
        color: bytes3_or(d, limit, at + 24, current.color),
    }
}

fn save3(bytes: &[u8; 3], w: &mut StateWriter)
    ensures
        state::continues(old(w)@, final(w)@),
        final(w)@.len() == old(w)@.len() + 3,
        final(w)@[old(w)@.len() as int] == bytes[0],
        final(w)@[old(w)@.len() as int + 1] == bytes[1],
        final(w)@[old(w)@.len() as int + 2] == bytes[2],
{
    w.write_u8(bytes[0]);
    w.write_u8(bytes[1]);
    w.write_u8(bytes[2]);
}

fn load3(current: [u8; 3], r: &mut StateReader) -> (bytes: [u8; 3])
    ensures
        state::advanced(*old(r), *final(r), 3),
        bytes == bytes3_or(old(r).data(), old(r).limit(), old(r).pos() as int, current),
{
    let a = r.u8_or(current[0]);
    let b = r.u8_or(current[1]);
    let c = r.u8_or(current[2]);
    [a, b, c]
}

fn save3_words(words: &[i32; 3], w: &mut StateWriter)
    ensures
        state::continues(old(w)@, final(w)@),
        final(w)@.len() == old(w)@.len() + 12,
        state::le32(final(w)@, old(w)@.len() as int) as i32 == words[0],
        state::le32(final(w)@, old(w)@.len() as int + 4) as i32 == words[1],
        state::le32(final(w)@, old(w)@.len() as int + 8) as i32 == words[2],
{
    w.write_i32(words[0]);
    w.write_i32(words[1]);
    w.write_i32(words[2]);
}

fn load3_words(current: [i32; 3], r: &mut StateReader) -> (words: [i32; 3])
    ensures
        state::advanced(*old(r), *final(r), 12),
        words == words3_or(old(r).data(), old(r).limit(), old(r).pos() as int, current),
{
    let a = r.i32_or(current[0]);
    let b = r.i32_or(current[1]);
    let c = r.i32_or(current[2]);
    [a, b, c]
}

fn save_light(light: &Light, w: &mut StateWriter)
    ensures
        state::continues(old(w)@, final(w)@),
        final(w)@.len() == old(w)@.len() + 27,
        light_or(final(w)@, final(w)@.len() as int, old(w)@.len() as int, *light) == *light,
{
    let ghost at = w@.len() as int;
    save3_words(&light.vector, w);
    save3_words(&light.half, w);
    save3(&light.color, w);
    let ghost read = light_or(w@, w@.len() as int, at, *light);
    assert(read.vector =~= light.vector);
    assert(read.half =~= light.half);
    assert(read.color =~= light.color);
}

fn load_light(current: Light, r: &mut StateReader) -> (light: Light)
    ensures
        state::advanced(*old(r), *final(r), 27),
        light == light_or(old(r).data(), old(r).limit(), old(r).pos() as int, current),
{
    let vector = load3_words(current.vector, r);
    let half = load3_words(current.half, r);
    let color = load3(current.color, r);
    Light { vector, half, color }
}

/// How many bytes of a saved engine come before its display list.
pub open spec fn fixed_size() -> int {
    4689
}

impl GeometryState {
    /// Everything but the display list, after reading the stream at `at` as far as `limit` lets it
    /// be read.
    #[verifier::opaque]
    pub open spec fn registers_restored(self, d: Seq<u8>, limit: int, at: int) -> GeometryState {
        GeometryState {
            matrices: self.matrices.restored(d, limit, at),
            current_color: bytes3_or(d, limit, at + 4484, self.current_color),
            current_texcoord: words2_or(d, limit, at + 4487, self.current_texcoord),
            raw_texcoord: words2_or(d, limit, at + 4495, self.raw_texcoord),
            last_vertex: words3_or(d, limit, at + 4503, self.last_vertex),
            polygon_attr: state::or32(d, limit, at + 4515, self.polygon_attr),
            pending_polygon_attr: state::or32(d, limit, at + 4519, self.pending_polygon_attr),
            tex_param: state::or32(d, limit, at + 4523, self.tex_param),
            palette_base: state::or32(d, limit, at + 4527, self.palette_base),
            lights: Seq::new(4, |i: int| light_or(d, limit, at + 4531 + 27 * i, self.lights[i])),
            diffuse: bytes3_or(d, limit, at + 4639, self.diffuse),
            ambient: bytes3_or(d, limit, at + 4642, self.ambient),
            specular: bytes3_or(d, limit, at + 4645, self.specular),
            emission: bytes3_or(d, limit, at + 4648, self.emission),
            lights_enabled: state::or32(d, limit, at + 4651, self.lights_enabled),
            viewport: bytes4_or(d, limit, at + 4655, self.viewport),
            overflow: state::or_bool(d, limit, at + 4659, self.overflow),
            swap_pending: state::or_bool(d, limit, at + 4660, self.swap_pending),
            pos_result: words4_or(d, limit, at + 4661, self.pos_result),
            vec_result: words3_or(d, limit, at + 4677, self.vec_result),
            ..self
        }
    }

    /// The engine with the primitive it was assembling abandoned.
    pub open spec fn without_strip(self) -> GeometryState {
        GeometryState { primitive: None, strip: Seq::empty(), strip_count: 0, ..self }
    }

    /// The engine after reading the stream at `at`. The primitive that it was assembling goes
    /// once all of the state is read.
    #[verifier::opaque]
    pub open spec fn restored(self, d: Seq<u8>, limit: int, at: int) -> GeometryState {
        let registers = self.registers_restored(d, limit, at);
        if at + fixed_size() > limit {
            registers
        } else {
            let run = self.building.read(d, at + fixed_size());
            let read = GeometryState { building: run.list, ..registers };
            if run.error is None {
                read.without_strip()
            } else {
                read
            }
        }
    }

    /// How many bytes the saved engine takes.
    pub open spec fn size(self) -> int {
        fixed_size() + self.building.size()
    }

    /// The stream holds this engine at `at`, but for the primitive it was assembling.
    pub open spec fn encoded_at(self, d: Seq<u8>, at: int) -> bool {
        &&& at + self.size() <= d.len()
        &&& self.registers_restored(d, d.len() as int, at) == self
        &&& self.building.encoded_at(d, at + fixed_size())
    }
}

impl Geometry {
    #[verifier::rlimit(30)]
    pub fn save(&self, w: &mut StateWriter)
        requires
            self.wf(),
        ensures
            state::continues(old(w)@, final(w)@),
            final(w)@.len() == old(w)@.len() + self@.size(),
            self@.encoded_at(final(w)@, old(w)@.len() as int),
    {
        let ghost at = w@.len() as int;
        self.matrices.save(w);
        let ghost w1 = w@;
        self.save_vertex_registers(w);
        let ghost w2 = w@;
        self.save_lighting(w);
        let ghost w3 = w@;
        self.save_results(w);
        let ghost w4 = w@;
        self.building.save(w);
        proof {
            reveal(GeometryState::registers_restored);
            self.matrices@.lemma_kept(w1, w@, at);
            let read = self@.registers_restored(w@, w@.len() as int, at);
            assert forall|i: int| 0 <= i < 4 implies #[trigger] read.lights[i] == self.lights@[i]
                by {
                lemma_light_kept(w3, w@, at + 4531 + 27 * i, self.lights@[i]);
            }
            assert(read.lights =~= self.lights@);
            assert(read.current_color =~= self.current_color);
            assert(read.current_texcoord =~= self.current_texcoord);
            assert(read.raw_texcoord =~= self.raw_texcoord);
            assert(read.last_vertex =~= self.last_vertex);
            assert(read.diffuse =~= self.diffuse);
            assert(read.ambient =~= self.ambient);
            assert(read.specular =~= self.specular);
            assert(read.emission =~= self.emission);
            assert(read.viewport =~= self.viewport);
            assert(read.pos_result =~= self.pos_result);
            assert(read.vec_result =~= self.vec_result);
        }
    }

    /// Colour, texture coordinates, the last vertex and the polygon registers.
    fn save_vertex_registers(&self, w: &mut StateWriter)
        ensures
            state::continues(old(w)@, final(w)@),
            final(w)@.len() == old(w)@.len() + 47,
            ({
                let d = final(w)@;
                let at = old(w)@.len() as int;
                &&& d[at] == self.current_color[0]
                &&& d[at + 1] == self.current_color[1]
                &&& d[at + 2] == self.current_color[2]
                &&& state::le32(d, at + 3) as i32 == self.current_texcoord[0]
                &&& state::le32(d, at + 7) as i32 == self.current_texcoord[1]
                &&& state::le32(d, at + 11) as i32 == self.raw_texcoord[0]
                &&& state::le32(d, at + 15) as i32 == self.raw_texcoord[1]
                &&& state::le32(d, at + 19) as i32 == self.last_vertex[0]
                &&& state::le32(d, at + 23) as i32 == self.last_vertex[1]
                &&& state::le32(d, at + 27) as i32 == self.last_vertex[2]
                &&& state::le32(d, at + 31) == self.polygon_attr
                &&& state::le32(d, at + 35) == self.pending_polygon_attr
                &&& state::le32(d, at + 39) == self.tex_param
                &&& state::le32(d, at + 43) == self.palette_base
            }),
    {
        save3(&self.current_color, w);
        w.write_i32(self.current_texcoord[0]);
        w.write_i32(self.current_texcoord[1]);
        w.write_i32(self.raw_texcoord[0]);
        w.write_i32(self.raw_texcoord[1]);
        save3_words(&self.last_vertex, w);
        w.write_u32(self.polygon_attr);
        w.write_u32(self.pending_polygon_attr);
        w.write_u32(self.tex_param);
        w.write_u32(self.palette_base);
    }

    /// The four lights and the material.
    fn save_lighting(&self, w: &mut StateWriter)
        ensures
            state::continues(old(w)@, final(w)@),
            final(w)@.len() == old(w)@.len() + 120,
            forall|i: int|
                0 <= i < 4 ==> light_or(
                    final(w)@,
                    final(w)@.len() as int,
                    old(w)@.len() + 27 * i,
                    self.lights@[i],
                ) == #[trigger] self.lights@[i],
            ({
                let d = final(w)@;
                let at = old(w)@.len() + 108;
                &&& forall|c: int| 0 <= c < 3 ==> d[at + c] == #[trigger] self.diffuse[c]
                &&& forall|c: int| 0 <= c < 3 ==> d[at + 3 + c] == #[trigger] self.ambient[c]
                &&& forall|c: int| 0 <= c < 3 ==> d[at + 6 + c] == #[trigger] self.specular[c]
                &&& forall|c: int| 0 <= c < 3 ==> d[at + 9 + c] == #[trigger] self.emission[c]
            }),
    {
        let ghost start = w@;
        for i in 0..4usize
            invariant
                state::continues(start, w@),
                w@.len() == start.len() + 27 * i,
                forall|j: int|
                    0 <= j < i ==> light_or(
                        w@,
                        w@.len() as int,
                        start.len() + 27 * j,
                        self.lights@[j],
                    ) == #[trigger] self.lights@[j],
        {
            let ghost before = w@;
            save_light(&self.lights[i], w);
            assert forall|j: int| 0 <= j < i implies light_or(
                w@,
                w@.len() as int,
                start.len() + 27 * j,
                self.lights@[j],
            ) == #[trigger] self.lights@[j] by {
                lemma_light_kept(before, w@, start.len() + 27 * j, self.lights@[j]);
            }
        }
        let ghost lit = w@;
        save3(&self.diffuse, w);
        save3(&self.ambient, w);
        save3(&self.specular, w);
        save3(&self.emission, w);
        assert forall|j: int| 0 <= j < 4 implies light_or(
            w@,
            w@.len() as int,
            start.len() + 27 * j,
            self.lights@[j],
        ) == #[trigger] self.lights@[j] by {
            lemma_light_kept(lit, w@, start.len() + 27 * j, self.lights@[j]);
        }
    }

    /// The viewport, the flags, and the answers to the two tests.
    fn save_results(&self, w: &mut StateWriter)
        ensures
            state::continues(old(w)@, final(w)@),
            final(w)@.len() == old(w)@.len() + 38,
            ({
                let d = final(w)@;
                let at = old(w)@.len() as int;
                &&& state::le32(d, at) == self.lights_enabled
                &&& d[at + 4] == self.viewport[0]
                &&& d[at + 5] == self.viewport[1]
                &&& d[at + 6] == self.viewport[2]
                &&& d[at + 7] == self.viewport[3]
                &&& (d[at + 8] != 0) == self.overflow
                &&& (d[at + 9] != 0) == self.swap_pending
                &&& state::le32(d, at + 10) as i32 == self.pos_result[0]
                &&& state::le32(d, at + 14) as i32 == self.pos_result[1]
                &&& state::le32(d, at + 18) as i32 == self.pos_result[2]
                &&& state::le32(d, at + 22) as i32 == self.pos_result[3]
                &&& state::le32(d, at + 26) as i32 == self.vec_result[0]
                &&& state::le32(d, at + 30) as i32 == self.vec_result[1]
                &&& state::le32(d, at + 34) as i32 == self.vec_result[2]
            }),
    {
        w.write_u32(self.lights_enabled);
        w.write_u8(self.viewport[0]);
        w.write_u8(self.viewport[1]);
        w.write_u8(self.viewport[2]);
        w.write_u8(self.viewport[3]);
        w.write_bool(self.overflow);
        w.write_bool(self.swap_pending);
        w.write_i32(self.pos_result[0]);
        w.write_i32(self.pos_result[1]);
        w.write_i32(self.pos_result[2]);
        w.write_i32(self.pos_result[3]);
        save3_words(&self.vec_result, w);
    }

    fn load_vertex_registers(&mut self, r: &mut StateReader)
        requires
            old(self).wf(),
        ensures
            final(self).wf(),
            state::advanced(*old(r), *final(r), 47),
            ({
                let d = old(r).data();
                let limit = old(r).limit();
                let at = old(r).pos() as int;
                let before = old(self)@;
                final(self)@ == GeometryState {
                    current_color: bytes3_or(d, limit, at, before.current_color),
                    current_texcoord: words2_or(d, limit, at + 3, before.current_texcoord),
                    raw_texcoord: words2_or(d, limit, at + 11, before.raw_texcoord),
                    last_vertex: words3_or(d, limit, at + 19, before.last_vertex),
                    polygon_attr: state::or32(d, limit, at + 31, before.polygon_attr),
                    pending_polygon_attr: state::or32(
                        d,
                        limit,
                        at + 35,
                        before.pending_polygon_attr,
                    ),
                    tex_param: state::or32(d, limit, at + 39, before.tex_param),
                    palette_base: state::or32(d, limit, at + 43, before.palette_base),
                    ..before
                }
            }),
    {
        self.current_color = load3(self.current_color, r);
        self.current_texcoord = load2_words(self.current_texcoord, r);
        self.raw_texcoord = load2_words(self.raw_texcoord, r);
        self.last_vertex = load3_words(self.last_vertex, r);
        self.polygon_attr = r.u32_or(self.polygon_attr);
        self.pending_polygon_attr = r.u32_or(self.pending_polygon_attr);
        self.tex_param = r.u32_or(self.tex_param);
        self.palette_base = r.u32_or(self.palette_base);
    }

    fn load_lighting(&mut self, r: &mut StateReader)
        requires
            old(self).wf(),
        ensures
            final(self).wf(),
            state::advanced(*old(r), *final(r), 120),
            ({
                let d = old(r).data();
                let limit = old(r).limit();
                let at = old(r).pos() as int;
                let before = old(self)@;
                final(self)@ == GeometryState {
                    lights: Seq::new(
                        4,
                        |i: int| light_or(d, limit, at + 27 * i, before.lights[i]),
                    ),
                    diffuse: bytes3_or(d, limit, at + 108, before.diffuse),
                    ambient: bytes3_or(d, limit, at + 111, before.ambient),
                    specular: bytes3_or(d, limit, at + 114, before.specular),
                    emission: bytes3_or(d, limit, at + 117, before.emission),
                    ..before
                }
            }),
    {
        let ghost d = r.data();
        let ghost limit = r.limit();
        let ghost at = r.pos() as int;
        let ghost before = self@;
        self.lights[0] = load_light(self.lights[0], r);
        self.lights[1] = load_light(self.lights[1], r);
        self.lights[2] = load_light(self.lights[2], r);
        self.lights[3] = load_light(self.lights[3], r);
        assert(self.lights@ =~= Seq::new(
            4,
            |i: int| light_or(d, limit, at + 27 * i, before.lights[i]),
        ));
        self.diffuse = load3(self.diffuse, r);
        self.ambient = load3(self.ambient, r);
        self.specular = load3(self.specular, r);
        self.emission = load3(self.emission, r);
    }

    fn load_results(&mut self, r: &mut StateReader)
        requires
            old(self).wf(),
        ensures
            final(self).wf(),
            state::advanced(*old(r), *final(r), 38),
            ({
                let d = old(r).data();
                let limit = old(r).limit();
                let at = old(r).pos() as int;
                let before = old(self)@;
                final(self)@ == GeometryState {
                    lights_enabled: state::or32(d, limit, at, before.lights_enabled),
                    viewport: bytes4_or(d, limit, at + 4, before.viewport),
                    overflow: state::or_bool(d, limit, at + 8, before.overflow),
                    swap_pending: state::or_bool(d, limit, at + 9, before.swap_pending),
                    pos_result: words4_or(d, limit, at + 10, before.pos_result),
                    vec_result: words3_or(d, limit, at + 26, before.vec_result),
                    ..before
                }
            }),
    {
        self.lights_enabled = r.u32_or(self.lights_enabled);
        self.viewport = load4(self.viewport, r);
        self.overflow = r.bool_or(self.overflow);
        self.swap_pending = r.bool_or(self.swap_pending);
        self.pos_result = load4_words(self.pos_result, r);
        self.vec_result = load3_words(self.vec_result, r);
    }

    #[verifier::rlimit(30)]
    pub fn load(&mut self, r: &mut StateReader) -> (result: Result<(), StateError>)
        requires
            old(self).wf(),
        ensures
            final(self).wf(),
            final(self)@ == old(self)@.restored(
                old(r).data(),
                old(r).limit(),
                old(r).pos() as int,
            ),
            final(r).data() == old(r).data(),
            old(r).pos() + fixed_size() > old(r).limit() ==> final(r).error() == Some(
                old(r).end_error(),
            ),
            old(r).pos() + fixed_size() <= old(r).limit() ==> {
                let run = old(self)@.building.read(
                    old(r).data(),
                    old(r).pos() + fixed_size(),
                );
                &&& final(r).error() == run.error
                &&& run.error is None ==> final(r).pos() == run.at
            },
            result == state::verdict(*final(r)),
    {
        let ghost d = r.data();
        let ghost limit = r.limit();
        let ghost at = r.pos() as int;
        let _ = self.matrices.load(r);
        self.load_vertex_registers(r);
        self.load_lighting(r);
        self.load_results(r);
        assert(self@ =~= old(self)@.registers_restored(d, limit, at)) by {
            reveal(GeometryState::registers_restored);
            assert(self@.lights =~= old(self)@.registers_restored(d, limit, at).lights);
        }
        assert(state::advanced(*old(r), *r, fixed_size()));
        let result = self.building.load(r);
        if !r.failed() {
            self.primitive = None;
            self.strip.clear();
            self.strip_count = 0;
        }
        reveal(GeometryState::restored);
        assert(self@ =~= old(self)@.restored(d, limit, at));
        result
    }
}

fn load2_words(current: [i32; 2], r: &mut StateReader) -> (words: [i32; 2])
    ensures
        state::advanced(*old(r), *final(r), 8),
        words == words2_or(old(r).data(), old(r).limit(), old(r).pos() as int, current),
{
    let a = r.i32_or(current[0]);
    let b = r.i32_or(current[1]);
    [a, b]
}

fn load4_words(current: [i32; 4], r: &mut StateReader) -> (words: [i32; 4])
    ensures
        state::advanced(*old(r), *final(r), 16),
        words == words4_or(old(r).data(), old(r).limit(), old(r).pos() as int, current),
{
    let a = r.i32_or(current[0]);
    let b = r.i32_or(current[1]);
    let c = r.i32_or(current[2]);
    let e = r.i32_or(current[3]);
    [a, b, c, e]
}

fn load4(current: [u8; 4], r: &mut StateReader) -> (bytes: [u8; 4])
    ensures
        state::advanced(*old(r), *final(r), 4),
        bytes == bytes4_or(old(r).data(), old(r).limit(), old(r).pos() as int, current),
{
    let a = r.u8_or(current[0]);
    let b = r.u8_or(current[1]);
    let c = r.u8_or(current[2]);
    let e = r.u8_or(current[3]);
    [a, b, c, e]
}

/// Appending to a stream leaves a light in it alone.
proof fn lemma_light_kept(shorter: Seq<u8>, longer: Seq<u8>, at: int, light: Light)
    requires
        state::continues(shorter, longer),
        0 <= at,
        at + 27 <= shorter.len(),
        light_or(shorter, shorter.len() as int, at, light) == light,
    ensures
        light_or(longer, longer.len() as int, at, light) == light,
{
    let a = light_or(longer, longer.len() as int, at, light);
    let b = light_or(shorter, shorter.len() as int, at, light);
    assert(a.vector =~= b.vector);
    assert(a.half =~= b.half);
    assert(a.color =~= b.color);
}

/// Loading what was saved gives back the saved engine with no primitive half assembled, whatever
/// was there before.
pub proof fn law_save_then_load(saved: GeometryState, before: GeometryState, d: Seq<u8>, at: int)
    requires
        saved.encoded_at(d, at),
        saved.lights.len() == 4,
        before.lights.len() == 4,
    ensures
        before.restored(d, d.len() as int, at) == saved.without_strip(),
{
    reveal(GeometryState::restored);
    reveal(GeometryState::registers_restored);
    let limit = d.len() as int;
    law_list_save_then_load(saved.building, before.building, d, at + fixed_size());
    let a = before.registers_restored(d, limit, at);
    let b = saved.registers_restored(d, limit, at);
    assert(at + fixed_size() <= limit) by {
        lemma_polygons_size(saved.building.polygons);
    }
    matrix::law_save_then_load(saved.matrices, before.matrices, d, at);
    assert(a.lights =~= b.lights) by {
        assert forall|i: int| 0 <= i < 4 implies #[trigger] a.lights[i] == b.lights[i] by {
            assert(a.lights[i].vector =~= b.lights[i].vector);
            assert(a.lights[i].half =~= b.lights[i].half);
            assert(a.lights[i].color =~= b.lights[i].color);
        }
    }
    assert(a.current_color =~= b.current_color);
    assert(a.current_texcoord =~= b.current_texcoord);
    assert(a.raw_texcoord =~= b.raw_texcoord);
    assert(a.last_vertex =~= b.last_vertex);
    assert(a.diffuse =~= b.diffuse);
    assert(a.ambient =~= b.ambient);
    assert(a.specular =~= b.specular);
    assert(a.emission =~= b.emission);
    assert(a.viewport =~= b.viewport);
    assert(a.pos_result =~= b.pos_result);
    assert(a.vec_result =~= b.vec_result);
}

/// Polygons take up room.
pub proof fn lemma_polygons_size(list: Seq<PolygonState>)
    ensures
        polygons_size(list) >= 0,
    decreases list.len(),
{
    if list.len() > 0 {
        lemma_polygons_size(list.drop_last());
    }
}

/// Loading a saved display list gives back the list, whatever was there before.
pub proof fn law_list_save_then_load(saved: ListState, before: ListState, d: Seq<u8>, at: int)
    requires
        saved.encoded_at(d, at),
    ensures
        before.read(d, at) == saved.read(d, at),
{
    reveal(ListState::read);
}

impl GeometryState {
    /// Appending to a stream leaves the engine in it alone.
    pub proof fn lemma_kept(self, shorter: Seq<u8>, longer: Seq<u8>, at: int)
        requires
            state::continues(shorter, longer),
            0 <= at,
            self.lights.len() == 4,
            self.encoded_at(shorter, at),
        ensures
            self.encoded_at(longer, at),
    {
        reveal(GeometryState::registers_restored);
        lemma_polygons_size(self.building.polygons);
        let a = self.registers_restored(longer, longer.len() as int, at);
        let b = self.registers_restored(shorter, shorter.len() as int, at);
        assert(self.matrices.encoded_at(shorter, at));
        self.matrices.lemma_kept(shorter, longer, at);
        assert forall|i: int| 0 <= i < 4 implies #[trigger] a.lights[i] == self.lights[i] by {
            assert(b.lights[i] == self.lights[i]);
            lemma_light_kept(shorter, longer, at + 4531 + 27 * i, self.lights[i]);
        }
        assert(a.lights =~= self.lights);
        assert(a.current_color =~= b.current_color);
        assert(a.current_texcoord =~= b.current_texcoord);
        assert(a.raw_texcoord =~= b.raw_texcoord);
        assert(a.last_vertex =~= b.last_vertex);
        assert(a.diffuse =~= b.diffuse);
        assert(a.ambient =~= b.ambient);
        assert(a.specular =~= b.specular);
        assert(a.emission =~= b.emission);
        assert(a.viewport =~= b.viewport);
        assert(a.pos_result =~= b.pos_result);
        assert(a.vec_result =~= b.vec_result);
        self.building.lemma_kept(shorter, longer, at + fixed_size());
    }
}

impl ListState {
    /// Appending to a stream leaves a whole list in it alone.
    pub proof fn lemma_kept(self, shorter: Seq<u8>, longer: Seq<u8>, at: int)
        requires
            state::continues(shorter, longer),
            0 <= at,
            self.encoded_at(shorter, at),
        ensures
            self.encoded_at(longer, at),
    {
        reveal(ListState::read);
        let n = state::le64(shorter, at);
        assert(state::le64(longer, at) == n);
        lemma_vertices_kept(shorter, longer, at + 8, n as nat);
        let at2 = at + 8 + 27 * n;
        let m = state::le64(shorter, at2);
        assert(state::le64(longer, at2) == m);
        lemma_run_kept(shorter, longer, at2 + 8, m as nat);
    }
}

/// An opcode with no entry in the parameter table changes nothing.
pub proof fn law_unknown_opcodes_do_nothing(s: GeometryState, opcode: u8, params: Seq<u32>)
    requires
        parameters_of(opcode) is None,
    ensures
        s.executed(opcode, params) == s,
{
    reveal(GeometryState::executed);
}

/// `SWAP_BUFFERS` only marks the list complete.
pub proof fn law_swap_only_marks(s: GeometryState, params: Seq<u32>)
    ensures
        s.executed(0x50, params) == (GeometryState { swap_pending: true, ..s }),
{
    reveal(GeometryState::executed);
}

/// Vertex and polygon RAM never grow past the hardware's limits: a face that does not fit sets
/// the overflow flag and leaves the list alone.
pub proof fn law_full_ram_overflows(s: GeometryState, face: Seq<ClipVertex>)
    requires
        s.building.vertices.len() <= MAX_VERTICES,
        s.building.polygons.len() <= MAX_POLYGONS,
    ensures
        s.assembled(face).building.vertices.len() <= MAX_VERTICES,
        s.assembled(face).building.polygons.len() <= MAX_POLYGONS,
        s.assembled(face).building == s.building || s.assembled(face).building.polygons.len()
            == s.building.polygons.len() + 1,
        s.building.polygons.len() == MAX_POLYGONS ==> s.assembled(face).building == s.building,
{
    reveal(GeometryState::assembled);
}

/// Whether a face leaves something that its attributes let be seen.
pub open spec fn is_drawn(s: GeometryState, face: Seq<ClipVertex>) -> bool {
    clipped(face).len() >= 3 && if front_facing(screens_of(clipped(face), s.viewport)) {
        s.polygon_attr & (1u32 << 7) != 0
    } else {
        s.polygon_attr & (1u32 << 6) != 0
    }
}

/// A face that is drawn goes into the list if both polygon and vertex RAM have room for it. If not,
/// it is dropped whole and the overflow flag set. A face that is not drawn changes nothing.
pub proof fn law_a_face_is_added_or_dropped_whole(s: GeometryState, face: Seq<ClipVertex>)
    ensures
        ({
            let after = s.assembled(face);
            let room = s.building.polygons.len() < MAX_POLYGONS && s.building.vertices.len()
                + clipped(face).len() <= MAX_VERTICES;
            &&& !is_drawn(s, face) ==> after == s
            &&& is_drawn(s, face) && !room ==> after == (GeometryState { overflow: true, ..s })
            &&& is_drawn(s, face) && room ==> {
                &&& after.overflow == s.overflow
                &&& after.building.polygons.len() == s.building.polygons.len() + 1
                &&& after.building.vertices.len() == s.building.vertices.len() + clipped(face).len()
            }
        }),
{
    reveal(GeometryState::assembled);
}

/// The corners of some polygons, one polygon after another.
pub open spec fn corners(polygons: Seq<PolygonState>) -> Seq<usize>
    decreases polygons.len(),
{
    if polygons.len() == 0 {
        Seq::empty()
    } else {
        corners(polygons.drop_last()) + polygons.last().vertices
    }
}

/// The list keeps within the hardware's limits, its polygons have at least three corners each, and
/// their corners, taken in order, run through the vertices exactly once.
pub open spec fn tidy(list: ListState) -> bool {
    &&& list.vertices.len() <= MAX_VERTICES
    &&& list.polygons.len() <= MAX_POLYGONS
    &&& forall|i: int|
        0 <= i < list.polygons.len() ==> (#[trigger] list.polygons[i]).vertices.len() >= 3
    &&& corners(list.polygons) == Seq::new(list.vertices.len(), |i: int| i as usize)
}

/// The engine after some commands, each with its parameters.
pub open spec fn executed_all(s: GeometryState, commands: Seq<(u8, Seq<u32>)>) -> GeometryState
    decreases commands.len(),
{
    if commands.len() == 0 {
        s
    } else {
        executed_all(s, commands.drop_last()).executed(commands.last().0, commands.last().1)
    }
}

/// Whatever is executed from power-on or from a list just taken, the list stays tidy, and no command
/// clears the overflow flag.
pub proof fn law_the_list_stays_tidy(s: GeometryState, commands: Seq<(u8, Seq<u32>)>)
    requires
        tidy(s.building),
    ensures
        tidy(executed_all(s, commands).building),
        s.overflow ==> executed_all(s, commands).overflow,
        tidy(GeometryState::initial().building),
        tidy(s.taken().building),
    decreases commands.len(),
{
    assert(corners(Seq::empty()) =~= Seq::new(0, |i: int| i as usize));
    if commands.len() > 0 {
        law_the_list_stays_tidy(s, commands.drop_last());
        let before = executed_all(s, commands.drop_last());
        lemma_executed_is_tidy(before, commands.last().0, commands.last().1);
    }
}

/// One command keeps the list tidy.
proof fn lemma_executed_is_tidy(s: GeometryState, opcode: u8, params: Seq<u32>)
    requires
        tidy(s.building),
    ensures
        tidy(s.executed(opcode, params).building),
        s.overflow ==> s.executed(opcode, params).overflow,
{
    reveal(GeometryState::executed);
    if 0x23 <= opcode <= 0x28 {
        assert forall|x: i32, y: i32, z: i32|
            tidy((#[trigger] s.emitted(x, y, z)).building) && (s.overflow ==> s.emitted(
                x,
                y,
                z,
            ).overflow) by {
            lemma_emitted_is_tidy(s, x, y, z);
        }
    }
}

/// A vertex keeps the list tidy.
proof fn lemma_emitted_is_tidy(s: GeometryState, x: i32, y: i32, z: i32)
    requires
        tidy(s.building),
    ensures
        tidy(s.emitted(x, y, z).building),
        s.overflow ==> s.emitted(x, y, z).overflow,
{
    if let Some(primitive) = s.primitive {
        let moved = GeometryState { last_vertex: [x, y, z], ..s };
        let v = ClipVertex {
            position: matrix::transformed(s.matrices.clip(), x, y, z, ONE),
            color: s.current_color,
            texcoord: s.current_texcoord,
        };
        let strip = moved.strip.push(v);
        let count = moved.strip_count.wrapping_add(1);
        let grown = GeometryState { strip, strip_count: count, ..moved };
        if let Some(face) = completed_face(primitive, strip, count) {
            lemma_assembled_is_tidy(grown, face);
        }
    }
}

/// A face keeps the list tidy.
proof fn lemma_assembled_is_tidy(s: GeometryState, face: Seq<ClipVertex>)
    requires
        tidy(s.building),
    ensures
        tidy(s.assembled(face).building),
        s.overflow ==> s.assembled(face).overflow,
{
    reveal(GeometryState::assembled);
    let after = s.assembled(face).building;
    let screen = screens_of(clipped(face), s.viewport);
    if after.polygons.len() > s.building.polygons.len() {
        let base = s.building.vertices.len();
        assert(s.assembled(face) == s.with_polygon(screen));
        assert(after.polygons.drop_last() =~= s.building.polygons);
        assert(after.polygons.last().vertices =~= Seq::new(
            screen.len(),
            |i: int| (base + i) as usize,
        ));
        assert(corners(after.polygons) =~= Seq::new(after.vertices.len(), |i: int| i as usize));
    }
}

/// `POLYGON_ATTR` waits for the next `BEGIN_VTXS`.
pub proof fn law_polygon_attr_is_latched(s: GeometryState, params: Seq<u32>, begin: Seq<u32>)
    ensures
        s.executed(0x29, params).polygon_attr == s.polygon_attr,
        s.executed(0x29, params).executed(0x40, begin).polygon_attr == param(params, 0),
{
    reveal(GeometryState::executed);
}

/// Sign extension gives the two's complement number that the low bits spell.
pub proof fn law_sign_extension(value: u32)
    ensures
        value < 0x20 ==> extended(value, 6) == value,
        0x20 <= value < 0x40 ==> extended(value, 6) == value - 0x40,
        value < 0x200 ==> extended(value, 10) == value,
        0x200 <= value < 0x400 ==> extended(value, 10) == value - 0x400,
        value < 0x8000 ==> extended(value, 16) == value,
        0x8000 <= value < 0x1_0000 ==> extended(value, 16) == value - 0x1_0000,
{
    assert({
        &&& value < 0x20 ==> ((value << 26u32) as i32) >> 26u32 == value
        &&& 0x20 <= value < 0x40 ==> ((value << 26u32) as i32) >> 26u32 == value - 0x40
        &&& value < 0x200 ==> ((value << 22u32) as i32) >> 22u32 == value
        &&& 0x200 <= value < 0x400 ==> ((value << 22u32) as i32) >> 22u32 == value - 0x400
        &&& value < 0x8000 ==> ((value << 16u32) as i32) >> 16u32 == value
        &&& 0x8000 <= value < 0x1_0000 ==> ((value << 16u32) as i32) >> 16u32 == value - 0x1_0000
    }) by (bit_vector);
}

} // verus!
