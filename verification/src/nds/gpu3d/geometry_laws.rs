//! What the geometry commands are for: lights, vertices, the viewport and facing.

use vstd::arithmetic::power2::lemma2_to64;
use vstd::bits::lemma_low_bits_mask_values;
use vstd::prelude::*;
use super::geometry::{
    completed_face, direction_part, extended, facing, front_facing, law_sign_extension, light_sum,
    light_term, screen_of, textured, turned, ClipVertex, GeometryState, Light, Primitive,
    ScreenVertex,
};
use super::matrix::{self, ONE};
use crate::arith::{clamped, fixed, lemma_fixed, quotient};
use crate::bits::{lemma_bit_u32, lemma_field_u32};

verus! {

/// The exact product of two directions: positive where they point the same way.
pub open spec fn along(a: [i32; 3], b: [i32; 3]) -> int {
    a[0] * b[0] + a[1] * b[1] + a[2] * b[2]
}

/// How far a direction points against a normal, in the twelve fraction bits the lights work in:
/// nothing where it points the same way.
pub open spec fn against(a: [i32; 3], b: [i32; 3]) -> int {
    if along(a, b) >= 0 { 0 } else { (-along(a, b) + 0xFFF) / 0x1000 }
}

/// A direction and a normal whose product the lighting unit can hold.
pub open spec fn in_range(a: [i32; 3], b: [i32; 3]) -> bool {
    -0x2_0000_0000 <= along(a, b) <= 0x2_0000_0000
}

/// Light `i` is the only one that is switched on.
pub open spec fn only_light(s: GeometryState, i: int) -> bool {
    ||| i == 0 && s.lights_enabled == 1
    ||| i == 1 && s.lights_enabled == 2
    ||| i == 2 && s.lights_enabled == 4
    ||| i == 3 && s.lights_enabled == 8
}

proof fn lemma_facing(direction: [i32; 3], normal: [i32; 3])
    requires
        in_range(direction, normal),
    ensures
        facing(direction, normal) == against(direction, normal),
        0 <= against(direction, normal) <= 0x20_0000,
{
    let d = along(direction, normal);
    lemma_fixed(d);
    assert(super::geometry::dot_of(direction, normal) == d / 0x1000);
    assert(d < 0 ==> -(d / 0x1000) == (-d + 0xFFF) / 0x1000);
}

proof fn lemma_only_light(s: GeometryState, normal: [i32; 3], channel: int, i: int)
    requires
        only_light(s, i),
    ensures
        light_sum(s, normal, channel, 4) == light_term(
            s.lights[i],
            normal,
            s.diffuse[channel],
            s.specular[channel],
            s.ambient[channel],
            s.lights[i].color[channel],
        ),
{
    lemma2_to64();
    lemma_bit_u32(s.lights_enabled, 0);
    lemma_bit_u32(s.lights_enabled, 1);
    lemma_bit_u32(s.lights_enabled, 2);
    lemma_bit_u32(s.lights_enabled, 3);
    reveal_with_fuel(light_sum, 5);
}

proof fn lemma_term(
    light: Light,
    normal: [i32; 3],
    diffuse: u8,
    specular: u8,
    ambient: u8,
    color: u8,
)
    requires
        in_range(light.vector, normal),
        in_range(light.half, normal),
    ensures
        ({
            let level = against(light.vector, normal);
            let glint = against(light.half, normal);
            light_term(light, normal, diffuse, specular, ambient, color) == diffuse * color * level
                / 0x4_0000 + specular * color * (glint * glint / 0x1000) / 0x4_0000 + ambient * color
                / 64
        }),
{
    lemma_facing(light.vector, normal);
    lemma_facing(light.half, normal);
    let level = against(light.vector, normal);
    let glint = against(light.half, normal);
    assert(0 <= glint * glint <= 0x20_0000 * 0x20_0000) by (nonlinear_arith)
        requires
            0 <= glint <= 0x20_0000,
    ;
    lemma_fixed(glint * glint);
    let shine = glint * glint / 0x1000;
    assert(0 <= diffuse * color <= 255 * 255) by (nonlinear_arith)
        requires
            0 <= diffuse <= 255,
            0 <= color <= 255,
    ;
    assert(0 <= specular * color <= 255 * 255) by (nonlinear_arith)
        requires
            0 <= specular <= 255,
            0 <= color <= 255,
    ;
    assert(0 <= diffuse * color * level <= 255 * 255 * 0x20_0000) by (nonlinear_arith)
        requires
            0 <= diffuse * color <= 255 * 255,
            0 <= level <= 0x20_0000,
    ;
    assert(0 <= specular * color * shine <= 255 * 255 * 0x4000_0000) by (nonlinear_arith)
        requires
            0 <= specular * color <= 255 * 255,
            0 <= shine <= 0x4000_0000,
    ;
    crate::arith::lemma_eighteen_bits(diffuse * color * level);
    crate::arith::lemma_eighteen_bits(specular * color * shine);
}

/// The colour that `NORMAL` sets under one light: emission, a share of the ambient colour whatever the
/// direction, diffuse colour by how far the light points against the surface, and specular colour by
/// the square of how far its half-vector does, kept within six bits.
pub proof fn law_a_normal_is_lit(s: GeometryState, value: u32, i: int, channel: int)
    requires
        only_light(s, i),
        0 <= channel < 3,
        in_range(s.lights[i].vector, turned(s.matrices.direction, value)),
        in_range(s.lights[i].half, turned(s.matrices.direction, value)),
    ensures
        ({
            let normal = turned(s.matrices.direction, value);
            let light = s.lights[i];
            let level = against(light.vector, normal);
            let glint = against(light.half, normal);
            let color = light.color[channel];
            s.executed(0x21, seq![value]).current_color[channel] == clamped(
                s.emission[channel] + s.ambient[channel] * color / 64 + s.diffuse[channel] * color
                    * level / 0x4_0000 + s.specular[channel] * color * (glint * glint / 0x1000)
                    / 0x4_0000,
                0,
                63,
            )
        }),
{
    reveal(GeometryState::executed);
    let normal = turned(s.matrices.direction, value);
    let light = s.lights[i];
    lemma_only_light(s, normal, channel, i);
    lemma_term(
        light,
        normal,
        s.diffuse[channel],
        s.specular[channel],
        s.ambient[channel],
        light.color[channel],
    );
    assert(seq![value][0] == value);
}

/// A light that shines the way a surface faces adds no diffuse and no specular colour: the surface is
/// as it would be with a material that has neither.
pub proof fn law_a_light_from_behind_adds_only_ambient(
    s: GeometryState,
    value: u32,
    i: int,
    channel: int,
)
    requires
        only_light(s, i),
        0 <= channel < 3,
        0 <= along(s.lights[i].vector, turned(s.matrices.direction, value)) <= 0x2_0000_0000,
        0 <= along(s.lights[i].half, turned(s.matrices.direction, value)) <= 0x2_0000_0000,
    ensures
        s.executed(0x21, seq![value]).current_color[channel] == clamped(
            s.emission[channel] + s.ambient[channel] * s.lights[i].color[channel] / 64,
            0,
            63,
        ),
{
    law_a_normal_is_lit(s, value, i, channel);
    let color = s.lights[i].color[channel];
    assert(s.diffuse[channel] * color * 0 == 0) by (nonlinear_arith);
    assert(s.specular[channel] * color * 0 == 0) by (nonlinear_arith);
    assert(0int * 0 / 0x1000 == 0);
}

/// Of two normals, the one that a light points against more is lit at least as brightly, where the
/// material does not shine.
pub proof fn law_facing_the_light_is_brighter(
    s: GeometryState,
    toward: u32,
    away: u32,
    i: int,
    channel: int,
)
    requires
        only_light(s, i),
        0 <= channel < 3,
        s.specular[channel] == 0,
        in_range(s.lights[i].half, turned(s.matrices.direction, toward)),
        in_range(s.lights[i].half, turned(s.matrices.direction, away)),
        -0x2_0000_0000 <= along(s.lights[i].vector, turned(s.matrices.direction, toward)),
        along(s.lights[i].vector, turned(s.matrices.direction, toward)) <= along(
            s.lights[i].vector,
            turned(s.matrices.direction, away),
        ),
        along(s.lights[i].vector, turned(s.matrices.direction, away)) <= 0x2_0000_0000,
    ensures
        s.executed(0x21, seq![toward]).current_color[channel] >= s.executed(
            0x21,
            seq![away],
        ).current_color[channel],
{
    law_a_normal_is_lit(s, toward, i, channel);
    law_a_normal_is_lit(s, away, i, channel);
    let color = s.lights[i].color[channel];
    let d = s.diffuse[channel] * color;
    let bright = against(s.lights[i].vector, turned(s.matrices.direction, toward));
    let dim = against(s.lights[i].vector, turned(s.matrices.direction, away));
    let g = against(s.lights[i].half, turned(s.matrices.direction, toward));
    let h = against(s.lights[i].half, turned(s.matrices.direction, away));
    assert(dim <= bright);
    assert(d * dim <= d * bright) by (nonlinear_arith)
        requires
            0 <= dim <= bright,
            0 <= d,
    {
    }
    assert(0 * color * (g * g / 0x1000) == 0) by (nonlinear_arith);
    assert(0 * color * (h * h / 0x1000) == 0) by (nonlinear_arith);
    assert(0 <= d) by (nonlinear_arith)
        requires
            d == s.diffuse[channel] * color,
    ;
}

/// A light straight against a unit normal adds the product of the diffuse colour and its own, in
/// sixty-fourths.
pub proof fn law_a_light_straight_on_adds_the_whole_product(
    s: GeometryState,
    value: u32,
    i: int,
    channel: int,
)
    requires
        only_light(s, i),
        0 <= channel < 3,
        s.specular[channel] == 0,
        in_range(s.lights[i].half, turned(s.matrices.direction, value)),
        along(s.lights[i].vector, turned(s.matrices.direction, value)) == -(ONE * ONE),
    ensures
        s.executed(0x21, seq![value]).current_color[channel] == clamped(
            s.emission[channel] + s.ambient[channel] * s.lights[i].color[channel] / 64
                + s.diffuse[channel] * s.lights[i].color[channel] / 64,
            0,
            63,
        ),
{
    law_a_normal_is_lit(s, value, i, channel);
    let color = s.lights[i].color[channel];
    let d = s.diffuse[channel] * color;
    let g = against(s.lights[i].half, turned(s.matrices.direction, value));
    assert(against(s.lights[i].vector, turned(s.matrices.direction, value)) == 0x1000);
    assert(d * 0x1000 / 0x4_0000 == d / 64);
    assert(0 * color * (g * g / 0x1000) == 0) by (nonlinear_arith);
}

/// With every light off, a normal shows the emission colour alone.
pub proof fn law_unlit_surfaces_show_their_emission(s: GeometryState, value: u32, channel: int)
    requires
        s.lights_enabled == 0,
        0 <= channel < 3,
        s.emission[channel] <= 63,
    ensures
        s.executed(0x21, seq![value]).current_color[channel] == s.emission[channel],
{
    reveal(GeometryState::executed);
    lemma2_to64();
    lemma_bit_u32(0, 0);
    lemma_bit_u32(0, 1);
    lemma_bit_u32(0, 2);
    lemma_bit_u32(0, 3);
    reveal_with_fuel(light_sum, 5);
    assert(seq![value][0] == value);
}

/// What a light that is switched off holds makes no difference.
pub proof fn law_disabled_lights_do_not_matter(
    s: GeometryState,
    value: u32,
    i: int,
    other: Light,
    channel: int,
)
    requires
        s.lights.len() == 4,
        0 <= i < 4,
        0 <= channel < 3,
        i == 0 ==> s.lights_enabled % 2 == 0,
        i == 1 ==> s.lights_enabled / 2 % 2 == 0,
        i == 2 ==> s.lights_enabled / 4 % 2 == 0,
        i == 3 ==> s.lights_enabled / 8 % 2 == 0,
    ensures
        (GeometryState { lights: s.lights.update(i, other), ..s }).executed(
            0x21,
            seq![value],
        ).current_color[channel] == s.executed(0x21, seq![value]).current_color[channel],
{
    reveal(GeometryState::executed);
    lemma2_to64();
    lemma_bit_u32(s.lights_enabled, 0);
    lemma_bit_u32(s.lights_enabled, 1);
    lemma_bit_u32(s.lights_enabled, 2);
    lemma_bit_u32(s.lights_enabled, 3);
    let t = GeometryState { lights: s.lights.update(i, other), ..s };
    let normal = turned(s.matrices.direction, value);
    assert(seq![value][0] == value);
    reveal_with_fuel(light_sum, 5);
    assert(light_sum(t, normal, channel, 4) == light_sum(s, normal, channel, 4));
}

/// Sixteen bits as a signed number.
pub open spec fn signed16(value: int) -> int {
    if value % 0x1_0000 < 0x8000 { value % 0x1_0000 } else { value % 0x1_0000 - 0x1_0000 }
}

/// Ten bits as a signed number.
pub open spec fn signed10(value: int) -> int {
    if value % 0x400 < 0x200 { value % 0x400 } else { value % 0x400 - 0x400 }
}

proof fn lemma_halves(value: u32)
    ensures
        extended(value & 0xFFFF, 16) == signed16(value as int),
        extended(value >> 16, 16) == signed16(value as int / 0x1_0000),
{
    lemma2_to64();
    lemma_low_bits_mask_values();
    lemma_field_u32(value, 0, 16);
    lemma_field_u32(value, 16, 16);
    law_sign_extension(value & 0xFFFF);
    law_sign_extension(value >> 16);
}

proof fn lemma_tens(value: u32)
    ensures
        extended(value & 0x3FF, 10) == signed10(value as int),
        extended((value >> 10) & 0x3FF, 10) == signed10(value as int / 0x400),
        extended((value >> 20) & 0x3FF, 10) == signed10(value as int / 0x10_0000),
        direction_part(value, 0) == 8 * signed10(value as int),
        direction_part(value, 10) == 8 * signed10(value as int / 0x400),
        direction_part(value, 20) == 8 * signed10(value as int / 0x10_0000),
        extended(value & 0x3FF, 10) << 6 == 64 * signed10(value as int),
        extended((value >> 10) & 0x3FF, 10) << 6 == 64 * signed10(value as int / 0x400),
        extended((value >> 20) & 0x3FF, 10) << 6 == 64 * signed10(value as int / 0x10_0000),
{
    lemma2_to64();
    lemma_low_bits_mask_values();
    lemma_field_u32(value, 0, 10);
    lemma_field_u32(value, 10, 10);
    lemma_field_u32(value, 20, 10);
    law_sign_extension(value & 0x3FF);
    law_sign_extension((value >> 10) & 0x3FF);
    law_sign_extension((value >> 20) & 0x3FF);
    lemma_shifted(extended(value & 0x3FF, 10));
    lemma_shifted(extended((value >> 10) & 0x3FF, 10));
    lemma_shifted(extended((value >> 20) & 0x3FF, 10));
}

/// Small numbers shifted up.
proof fn lemma_shifted(x: i32)
    requires
        -512 <= x < 512,
    ensures
        x << 3 == 8 * x,
        x << 6 == 64 * x,
{
    assert(x << 3 == 8 * x && x << 6 == 64 * x) by (bit_vector)
        requires
            -512 <= x < 512,
    ;
}

/// `VTX_16` puts a vertex at the three signed halfwords of its parameters, and `POS_TEST` answers with
/// where a vertex with the same parameters lies in clip space.
pub proof fn law_vtx_16_takes_three_halfwords(s: GeometryState, p: u32, q: u32)
    ensures
        ({
            let after = s.executed(0x23, seq![p, q]);
            &&& after.last_vertex[0] == signed16(p as int)
            &&& after.last_vertex[1] == signed16(p as int / 0x1_0000)
            &&& after.last_vertex[2] == signed16(q as int)
            &&& s.executed(0x71, seq![p, q]).pos_result == matrix::transformed(
                s.matrices.clip(),
                after.last_vertex[0],
                after.last_vertex[1],
                after.last_vertex[2],
                0x1000,
            )
        }),
{
    reveal(GeometryState::executed);
    lemma_halves(p);
    lemma_halves(q);
    assert(seq![p, q][0] == p && seq![p, q][1] == q);
    let moved = GeometryState {
        last_vertex: [
            extended(p & 0xFFFF, 16),
            extended(p >> 16, 16),
            extended(q & 0xFFFF, 16),
        ],
        ..s
    };
    lemma_emitted_keeps(moved.last_vertex, s);
}

/// A vertex command leaves its vertex as the last one.
proof fn lemma_emitted_keeps(v: [i32; 3], s: GeometryState)
    ensures
        s.emitted(v[0], v[1], v[2]).last_vertex == [v[0], v[1], v[2]],
{
    reveal(GeometryState::assembled);
}

/// The short vertex commands are the long one with the rest filled in: `VTX_10` from three ten-bit
/// numbers of a sixty-fourth the size, and the three that give two coordinates with the third as it
/// was.
pub proof fn law_short_vertices_are_long_ones(s: GeometryState, p: u32, a: u32, b: u32)
    ensures
        signed16(a as int) == 64 * signed10(p as int) && signed16(a as int / 0x1_0000) == 64 * signed10(
            p as int / 0x400,
        ) && signed16(b as int) == 64 * signed10(p as int / 0x10_0000) ==> s.executed(0x24, seq![p])
            == s.executed(0x23, seq![a, b]),
        signed16(a as int) == signed16(p as int) && signed16(a as int / 0x1_0000) == signed16(
            p as int / 0x1_0000,
        ) && signed16(b as int) == s.last_vertex[2] ==> s.executed(0x25, seq![p]) == s.executed(
            0x23,
            seq![a, b],
        ),
        signed16(a as int) == signed16(p as int) && signed16(a as int / 0x1_0000)
            == s.last_vertex[1] && signed16(b as int) == signed16(p as int / 0x1_0000)
            ==> s.executed(0x26, seq![p]) == s.executed(0x23, seq![a, b]),
        signed16(a as int) == s.last_vertex[0] && signed16(a as int / 0x1_0000) == signed16(p as int)
            && signed16(b as int) == signed16(p as int / 0x1_0000) ==> s.executed(0x27, seq![p])
            == s.executed(0x23, seq![a, b]),
{
    reveal(GeometryState::executed);
    lemma_halves(p);
    lemma_halves(a);
    lemma_halves(b);
    lemma_tens(p);
    assert(seq![p][0] == p && seq![a, b][0] == a && seq![a, b][1] == b);
}

/// `VTX_DIFF` moves from the last vertex by three ten-bit numbers, an eighth of a `VTX_10` step each.
pub proof fn law_vertex_differences_add(s: GeometryState, p: u32, a: u32, b: u32)
    requires
        signed16(a as int) == s.last_vertex[0] + 8 * signed10(p as int),
        signed16(a as int / 0x1_0000) == s.last_vertex[1] + 8 * signed10(p as int / 0x400),
        signed16(b as int) == s.last_vertex[2] + 8 * signed10(p as int / 0x10_0000),
    ensures
        s.executed(0x28, seq![p]) == s.executed(0x23, seq![a, b]),
{
    reveal(GeometryState::executed);
    lemma_halves(a);
    lemma_halves(b);
    lemma_tens(p);
    assert(seq![p][0] == p && seq![a, b][0] == a && seq![a, b][1] == b);
}

/// Directions come as three signed ten-bit numbers, the lowest first; under the identity matrix a
/// vector test gives them back, in the twelve fraction bits of everything else.
pub proof fn law_directions_are_three_tens(s: GeometryState, p: u32)
    requires
        s.matrices.direction == matrix::identity(),
    ensures
        s.executed(0x72, seq![p]).vec_result[0] == 8 * signed10(p as int),
        s.executed(0x72, seq![p]).vec_result[1] == 8 * signed10(p as int / 0x400),
        s.executed(0x72, seq![p]).vec_result[2] == 8 * signed10(p as int / 0x10_0000),
        turned(s.matrices.direction, p) == s.executed(0x72, seq![p]).vec_result,
{
    reveal(GeometryState::executed);
    lemma_tens(p);
    assert(seq![p][0] == p);
    lemma_identity_image(direction_part(p, 0), direction_part(p, 10), direction_part(p, 20), 0);
}

/// The identity leaves a point where it is.
#[verifier::spinoff_prover]
proof fn lemma_identity_image(x: i32, y: i32, z: i32, w: i32)
    ensures
        matrix::transformed(matrix::identity(), x, y, z, w)[0] == x,
        matrix::transformed(matrix::identity(), x, y, z, w)[1] == y,
        matrix::transformed(matrix::identity(), x, y, z, w)[2] == z,
        matrix::transformed(matrix::identity(), x, y, z, w)[3] == w,
{
    let m = matrix::identity();
    lemma_image(m, x, y, z, w, 0, 0x1000, 0, 0, 0);
    lemma_image(m, x, y, z, w, 1, 0, 0x1000, 0, 0);
    lemma_image(m, x, y, z, w, 2, 0, 0, 0x1000, 0);
    lemma_image(m, x, y, z, w, 3, 0, 0, 0, 0x1000);
    assert(0x1000 * x + 0 * y + 0 * z + 0 * w == x * 0x1000);
    assert(0 * x + 0x1000 * y + 0 * z + 0 * w == y * 0x1000);
    assert(0 * x + 0 * y + 0x1000 * z + 0 * w == z * 0x1000);
    assert(0 * x + 0 * y + 0 * z + 0x1000 * w == w * 0x1000);
    crate::arith::lemma_fixed_one(x);
    crate::arith::lemma_fixed_one(y);
    crate::arith::lemma_fixed_one(z);
    crate::arith::lemma_fixed_one(w);
}

/// One row of a matrix times a column, with the row spelled out.
proof fn lemma_image(
    m: Seq<i32>,
    x: i32,
    y: i32,
    z: i32,
    w: i32,
    row: int,
    a: int,
    b: int,
    c: int,
    d: int,
)
    requires
        m.len() == 16,
        0 <= row < 4,
        m[row] == a,
        m[4 + row] == b,
        m[8 + row] == c,
        m[12 + row] == d,
    ensures
        matrix::transformed(m, x, y, z, w)[row] == fixed(a * x + b * y + c * z + d * w),
{
    assert(matrix::image(m, x, y, z, w, row) == fixed(a * x + b * y + c * z + d * w));
}

/// A translation moves a point by what it says, and a scale multiplies each coordinate.
#[verifier::spinoff_prover]
#[verifier::rlimit(40)]
pub proof fn law_translations_add_and_scales_multiply(
    x: i32,
    y: i32,
    z: i32,
    tx: i32,
    ty: i32,
    tz: i32,
)
    requires
        -0x1000_0000 <= x <= 0x1000_0000 && -0x1000_0000 <= tx <= 0x1000_0000,
        -0x1000_0000 <= y <= 0x1000_0000 && -0x1000_0000 <= ty <= 0x1000_0000,
        -0x1000_0000 <= z <= 0x1000_0000 && -0x1000_0000 <= tz <= 0x1000_0000,
    ensures
        ({
            let moved = matrix::transformed(matrix::translation(tx, ty, tz), x, y, z, 0x1000);
            moved[0] == x + tx && moved[1] == y + ty && moved[2] == z + tz && moved[3] == 0x1000
        }),
        -0x800_0000_0000 <= x * tx < 0x800_0000_0000 ==> matrix::transformed(
            matrix::scaling(tx, ty, tz),
            x,
            y,
            z,
            0x1000,
        )[0] == x * tx / 0x1000,
        -0x800_0000_0000 <= y * ty < 0x800_0000_0000 ==> matrix::transformed(
            matrix::scaling(tx, ty, tz),
            x,
            y,
            z,
            0x1000,
        )[1] == y * ty / 0x1000,
        -0x800_0000_0000 <= z * tz < 0x800_0000_0000 ==> matrix::transformed(
            matrix::scaling(tx, ty, tz),
            x,
            y,
            z,
            0x1000,
        )[2] == z * tz / 0x1000,
{
    crate::arith::lemma_fixed_one((x + tx) as i32);
    crate::arith::lemma_fixed_one((y + ty) as i32);
    crate::arith::lemma_fixed_one((z + tz) as i32);
    crate::arith::lemma_fixed_one(0x1000);
    let m = matrix::translation(tx, ty, tz);
    lemma_image(m, x, y, z, 0x1000, 0, 0x1000, 0, 0, tx as int);
    lemma_image(m, x, y, z, 0x1000, 1, 0, 0x1000, 0, ty as int);
    lemma_image(m, x, y, z, 0x1000, 2, 0, 0, 0x1000, tz as int);
    lemma_image(m, x, y, z, 0x1000, 3, 0, 0, 0, 0x1000);
    let (mx, my, mz) = ((x + tx) as i32, (y + ty) as i32, (z + tz) as i32);
    assert(0x1000 * x + 0 * y + 0 * z + tx * 0x1000 == mx * 0x1000);
    assert(0 * x + 0x1000 * y + 0 * z + ty * 0x1000 == my * 0x1000);
    assert(0 * x + 0 * y + 0x1000 * z + tz * 0x1000 == mz * 0x1000);
    assert(0 * x + 0 * y + 0 * z + 0x1000 * 0x1000 == 0x1000 * 0x1000);
    let k = matrix::scaling(tx, ty, tz);
    lemma_image(k, x, y, z, 0x1000, 0, tx as int, 0, 0, 0);
    lemma_image(k, x, y, z, 0x1000, 1, 0, ty as int, 0, 0);
    lemma_image(k, x, y, z, 0x1000, 2, 0, 0, tz as int, 0);
    assert(tx * x == x * tx && ty * y == y * ty && tz * z == z * tz) by (nonlinear_arith);
    assert(tx * x + 0 * y + 0 * z + 0 * 0x1000 == x * tx);
    assert(0 * x + ty * y + 0 * z + 0 * 0x1000 == y * ty);
    assert(0 * x + 0 * y + tz * z + 0 * 0x1000 == z * tz);
    if -0x800_0000_0000 <= x * tx < 0x800_0000_0000 {
        lemma_fixed(x * tx);
    }
    if -0x800_0000_0000 <= y * ty < 0x800_0000_0000 {
        lemma_fixed(y * ty);
    }
    if -0x800_0000_0000 <= z * tz < 0x800_0000_0000 {
        lemma_fixed(z * tz);
    }
}

/// Colours come as three five-bit channels, red lowest, and are doubled to six; `COLOR` sets the
/// vertex colour, `DIF_AMB` the diffuse and ambient ones, `SPE_EMI` the specular and emitted ones.
pub proof fn law_colours_are_three_fives(s: GeometryState, p: u32)
    ensures
        ({
            let low = p as int;
            let high = p as int / 0x1_0000;
            let painted = s.executed(0x20, seq![p]).current_color;
            let matt = s.executed(0x30, seq![p]);
            let shiny = s.executed(0x31, seq![p]);
            &&& painted[0] == 2 * (low % 32) && painted[1] == 2 * (low / 32 % 32) && painted[2] == 2
                * (low / 1024 % 32)
            &&& matt.diffuse == painted
            &&& matt.ambient[0] == 2 * (high % 32) && matt.ambient[1] == 2 * (high / 32 % 32)
                && matt.ambient[2] == 2 * (high / 1024 % 32)
            &&& matt.current_color == (if low / 0x8000 % 2 == 1 {
                painted
            } else {
                s.current_color
            })
            &&& shiny.specular == painted
            &&& shiny.emission == matt.ambient
        }),
{
    reveal(GeometryState::executed);
    lemma2_to64();
    lemma_low_bits_mask_values();
    assert(seq![p][0] == p);
    lemma_field_u32(p, 0, 5);
    lemma_field_u32(p, 5, 5);
    lemma_field_u32(p, 10, 5);
    lemma_field_u32(p, 16, 5);
    lemma_field_u32(p >> 16, 0, 5);
    lemma_field_u32(p >> 16, 5, 5);
    lemma_field_u32(p >> 16, 10, 5);
    lemma_bit_u32(p, 15);
}

/// `LIGHT_VECTOR` and `LIGHT_COLOR` reach the light that their top two bits number, and no other; the
/// half-vector lies half-way between the light and the line of sight.
pub proof fn law_lights_are_set_one_at_a_time(s: GeometryState, p: u32)
    requires
        s.lights.len() == 4,
    ensures
        ({
            let i = p as int / 0x4000_0000;
            let aimed = s.executed(0x32, seq![p]).lights;
            let tinted = s.executed(0x33, seq![p]).lights;
            let v = turned(s.matrices.direction, p);
            let h = aimed[i].half;
            &&& aimed[i].vector == v
            &&& -2 < 2 * h[0] - v[0] < 2 && -2 < 2 * h[1] - v[1] < 2
            &&& v[2] >= -0x7000_0000 ==> -2 < 2 * h[2] - (v[2] - 0x1000) < 2
            &&& aimed[i].color == s.lights[i].color
            &&& tinted[i].color == s.executed(0x20, seq![p]).current_color
            &&& tinted[i].vector == s.lights[i].vector && tinted[i].half == s.lights[i].half
            &&& forall|j: int|
                0 <= j < 4 && j != i ==> #[trigger] aimed[j] == s.lights[j] && tinted[j] == s.lights[j]
        }),
{
    reveal(GeometryState::executed);
    lemma2_to64();
    lemma_low_bits_mask_values();
    assert(seq![p][0] == p);
    lemma_field_u32(p, 30, 2);
    let v = turned(s.matrices.direction, p);
    crate::arith::lemma_quotient(v[0] as int, 2);
    crate::arith::lemma_quotient(v[1] as int, 2);
    crate::arith::lemma_quotient(v[2] - ONE, 2);
}

/// `TEXCOORD` takes two signed halfwords, and only transform mode 1 sends them through the texture
/// matrix: the identity there leaves them as they are.
pub proof fn law_texture_coordinates_are_two_halfwords(s: GeometryState, p: u32)
    requires
        s.tex_param as int / 0x4000_0000 != 1 || s.matrices.texture == matrix::identity(),
    ensures
        s.executed(0x22, seq![p]).current_texcoord[0] == signed16(p as int),
        s.executed(0x22, seq![p]).current_texcoord[1] == signed16(p as int / 0x1_0000),
{
    reveal(GeometryState::executed);
    lemma2_to64();
    lemma_low_bits_mask_values();
    lemma_field_u32(s.tex_param, 30, 2);
    assert(seq![p][0] == p);
    lemma_halves(p);
    let a = extended(p & 0xFFFF, 16);
    let b = extended(p >> 16, 16);
    crate::arith::lemma_fixed_one(a);
    crate::arith::lemma_fixed_one(b);
    if s.matrices.texture == matrix::identity() {
        let m = s.matrices.texture;
        assert(m[0] == 0x1000 && m[5] == 0x1000 && m[4] == 0 && m[1] == 0 && m[12] == 0 && m[13] == 0);
        assert(a * 0x1000 + b * 0 + 0int * 16 == a * 0x1000);
        assert(a * 0 + b * 0x1000 + 0int * 16 == b * 0x1000);
        assert(textured(m, [a, b], 0) == a);
        assert(textured(m, [a, b], 1) == b);
    }
}

/// The viewport: the left edge of what can be seen lands on the viewport's left column and the right
/// edge just past its right one, the top on its top row and the bottom just past its bottom one, with
/// rows counted from the top of the screen.
pub proof fn law_the_view_fills_the_viewport(v: ClipVertex, viewport: [u8; 4])
    requires
        v.position[3] > 0,
        viewport[0] <= viewport[2],
        viewport[1] <= viewport[3] <= 191,
    ensures
        v.position[0] == -v.position[3] ==> screen_of(v, viewport).x == viewport[0],
        v.position[0] == v.position[3] ==> screen_of(v, viewport).x == viewport[2] + 1,
        v.position[1] == v.position[3] ==> screen_of(v, viewport).y == 191 - viewport[3],
        v.position[1] == -v.position[3] ==> screen_of(v, viewport).y == 191 - viewport[1] + 1,
        screen_of(v, viewport).color == v.color,
        screen_of(v, viewport).texcoord == v.texcoord,
        screen_of(v, viewport).w == v.position[3],
{
    let w = v.position[3] as int;
    let width = viewport[2] - viewport[0] + 1;
    let height = viewport[3] - viewport[1] + 1;
    lemma_whole(width, w);
    lemma_whole(height, w);
    assert(0 * width == 0 && 0 * height == 0);
    assert(0int / (w * 2) == 0) by (nonlinear_arith)
        requires
            w > 0,
    ;
}

/// Twice `w` in every unit is the unit count.
proof fn lemma_whole(units: int, w: int)
    requires
        w > 0,
        units >= 0,
    ensures
        quotient((w + w) * units, w * 2) == units,
{
    assert((w + w) * units == (w * 2) * units) by (nonlinear_arith);
    assert((w * 2) * units >= 0) by (nonlinear_arith)
        requires
            w > 0,
            units >= 0,
    ;
    vstd::arithmetic::div_mod::lemma_div_multiples_vanish(units, w * 2);
}

/// Points farther right, lower down or deeper in stay so on the screen.
pub proof fn law_the_screen_keeps_order(a: ClipVertex, b: ClipVertex, viewport: [u8; 4])
    requires
        0 < a.position[3] == b.position[3],
        -a.position[3] <= a.position[0] <= b.position[0] <= a.position[3],
        -a.position[3] <= b.position[1] <= a.position[1] <= a.position[3],
        -a.position[3] <= a.position[2] <= b.position[2] <= a.position[3],
    ensures
        screen_of(a, viewport).x <= screen_of(b, viewport).x,
        screen_of(a, viewport).y <= screen_of(b, viewport).y,
        screen_of(a, viewport).depth <= screen_of(b, viewport).depth,
        a.position[2] == -a.position[3] ==> screen_of(a, viewport).depth == 0,
        b.position[2] == b.position[3] ==> screen_of(b, viewport).depth == 0x7FFF * 0x200,
{
    let w = a.position[3] as int;
    let width = crate::arith::larger(viewport[2] - viewport[0] + 1, 1);
    let height = crate::arith::larger(viewport[3] - viewport[1] + 1, 1);
    lemma_ordered(a.position[0] + w, b.position[0] + w, width, w);
    lemma_ordered(-a.position[1] + w, -b.position[1] + w, height, w);
    lemma_depth_ordered(a.position[2] as int, b.position[2] as int, w);
}

proof fn lemma_ordered(p: int, q: int, units: int, w: int)
    requires
        0 <= p <= q <= 2 * w,
        1 <= units <= 256,
        w > 0,
    ensures
        0 <= quotient(p * units, w * 2) <= quotient(q * units, w * 2) <= 256,
{
    assert(0 <= p * units <= q * units <= (w * 2) * units) by (nonlinear_arith)
        requires
            0 <= p <= q <= 2 * w,
            1 <= units,
    ;
    vstd::arithmetic::div_mod::lemma_div_is_ordered(p * units, q * units, w * 2);
    vstd::arithmetic::div_mod::lemma_div_is_ordered(q * units, (w * 2) * units, w * 2);
    vstd::arithmetic::div_mod::lemma_div_multiples_vanish(units, w * 2);
    vstd::arithmetic::div_mod::lemma_div_is_ordered(0, p * units, w * 2);
    assert(0int / (w * 2) == 0) by (nonlinear_arith)
        requires
            w > 0,
    ;
}

proof fn lemma_depth_ordered(p: int, q: int, w: int)
    requires
        -w <= p <= q <= w,
        w > 0,
    ensures
        quotient(p * 0x4000, w) <= quotient(q * 0x4000, w),
        p == -w ==> quotient(p * 0x4000, w) == -0x4000,
        q == w ==> quotient(q * 0x4000, w) == 0x4000,
{
    let (a, b) = (p * 0x4000, q * 0x4000);
    vstd::arithmetic::div_mod::lemma_div_multiples_vanish(0x4000, w);
    assert(w * 0x4000 == w * 0x4000int);
    if a >= 0 {
        vstd::arithmetic::div_mod::lemma_div_is_ordered(a, b, w);
    } else if b < 0 {
        vstd::arithmetic::div_mod::lemma_div_is_ordered(-b, -a, w);
    } else {
        vstd::arithmetic::div_mod::lemma_div_is_ordered(0, -a, w);
        vstd::arithmetic::div_mod::lemma_div_is_ordered(0, b, w);
    }
    assert(0int / w == 0) by (nonlinear_arith)
        requires
            w > 0,
    ;
}

/// A face is turned by going round it the other way, unless it is seen edge on; and one whose third
/// corner lies above the line from its first to its second, going right, faces the viewer.
pub proof fn law_winding_decides_facing(
    a: ScreenVertex,
    b: ScreenVertex,
    c: ScreenVertex,
)
    ensures
        front_facing(seq![a, b, c]) || front_facing(seq![a, c, b]),
        a.y == b.y && a.x < b.x && c.y < a.y ==> front_facing(seq![a, b, c]) && !front_facing(
            seq![a, c, b],
        ),
        a.y == b.y && a.x < b.x && c.y > a.y ==> !front_facing(seq![a, b, c]) && front_facing(
            seq![a, c, b],
        ),
{
    let (ax, ay) = (b.x - a.x, b.y - a.y);
    let (bx, by) = (c.x - a.x, c.y - a.y);
    assert(ax * by - ay * bx == -(bx * ay - by * ax)) by (nonlinear_arith);
    assert(ax > 0 && by < 0 ==> ax * by < 0) by (nonlinear_arith);
    assert(ax > 0 && by > 0 ==> ax * by > 0) by (nonlinear_arith);
    assert(ay == 0 ==> ay * bx == 0 && bx * ay == 0) by (nonlinear_arith);
    assert(by * ax == ax * by) by (nonlinear_arith);
    assert(seq![a, b, c][0] == a && seq![a, b, c][1] == b && seq![a, b, c][2] == c);
    assert(seq![a, c, b][0] == a && seq![a, c, b][1] == c && seq![a, c, b][2] == b);
}

/// Three vertices make a triangle and four a quad, in the order they came. A strip of triangles makes
/// one of every three in a row, the second, fourth and so on with its first two corners swapped, and a
/// strip of quads takes its corners round the outside.
pub proof fn law_primitives_are_made_of_their_vertices(v: Seq<ClipVertex>, k: nat)
    requires
        v.len() == 3 ==> k < 0x1000,
        v.len() == 3 || v.len() == 4,
    ensures
        v.len() == 3 ==> completed_face(Primitive::Triangles, v, 3) == Some(v),
        v.len() == 4 ==> completed_face(Primitive::Quads, v, 4) == Some(v),
        v.len() == 3 ==> completed_face(Primitive::Quads, v, 3) is None,
        v.len() == 3 ==> completed_face(Primitive::TriangleStrip, v, (3 + 2 * k) as usize) == Some(
            seq![v[0], v[1], v[2]],
        ),
        v.len() == 3 ==> completed_face(Primitive::TriangleStrip, v, (4 + 2 * k) as usize) == Some(
            seq![v[1], v[0], v[2]],
        ),
        v.len() == 4 ==> completed_face(Primitive::QuadStrip, v, 4) == Some(
            seq![v[0], v[1], v[3], v[2]],
        ),
        v.len() == 3 ==> completed_face(Primitive::QuadStrip, v, 3) is None,
{
}

/// `BEGIN_VTXS` starts the primitive that its low two bits number, under the attributes set before it:
/// their low four bits switch the lights.
pub proof fn law_begin_starts_a_primitive(s: GeometryState, p: u32)
    ensures
        ({
            let after = s.executed(0x40, seq![p]);
            &&& after.primitive == Some(
                if p % 4 == 0 {
                    Primitive::Triangles
                } else if p % 4 == 1 {
                    Primitive::Quads
                } else if p % 4 == 2 {
                    Primitive::TriangleStrip
                } else {
                    Primitive::QuadStrip
                },
            )
            &&& after.polygon_attr == s.pending_polygon_attr
            &&& after.lights_enabled == s.pending_polygon_attr % 16
            &&& after.strip.len() == 0
        }),
{
    reveal(GeometryState::executed);
    lemma2_to64();
    lemma_low_bits_mask_values();
    lemma_field_u32(p, 0, 2);
    lemma_field_u32(s.pending_polygon_attr, 0, 4);
    assert(seq![p][0] == p);
}

/// `VIEWPORT` takes its four sides from four bytes, and `PLTT_BASE` thirteen bits.
pub proof fn law_the_viewport_is_four_bytes(s: GeometryState, p: u32)
    ensures
        ({
            let v = s.executed(0x60, seq![p]).viewport;
            &&& v[0] == p as int % 256
            &&& v[1] == p as int / 256 % 256
            &&& v[2] == p as int / 0x1_0000 % 256
            &&& v[3] == p as int / 0x100_0000
            &&& s.executed(0x2B, seq![p]).palette_base == p as int % 0x2000
            &&& s.executed(0x29, seq![p]).pending_polygon_attr == p
            &&& s.executed(0x2A, seq![p]).tex_param == p
        }),
{
    reveal(GeometryState::executed);
    assert(seq![p][0] == p);
    lemma2_to64();
    lemma_low_bits_mask_values();
    lemma_field_u32(p, 0, 13);
    assert((p as u8) as int == p % 256 && ((p >> 8) as u8) as int == p / 256 % 256 && ((p >> 16)
        as u8) as int == p / 0x1_0000 % 256 && ((p >> 24) as u8) as int == p / 0x100_0000)
        by (bit_vector);
}

/// A texture matrix maps a coordinate as the matrices map points, with its last column counted in
/// sixteenths of a texel; it is used where the top two bits of the texture's parameter are 1, and
/// otherwise the coordinate stays as it was written.
pub proof fn law_the_texture_matrix_maps_coordinates(s: GeometryState, param: u32, row: int)
    requires
        0 <= row < 2,
        s.matrices.texture.len() == 16,
        ({
            let m = s.matrices.texture;
            let (a, b) = (s.raw_texcoord[0], s.raw_texcoord[1]);
            -0x800_0000_0000 <= a * m[row] + b * m[4 + row] + 16 * m[12 + row] < 0x800_0000_0000
        }),
    ensures
        ({
            let m = s.matrices.texture;
            let (a, b) = (s.raw_texcoord[0], s.raw_texcoord[1]);
            let after = s.executed(0x2A, seq![param]);
            &&& param / 0x4000_0000 == 1 ==> after.current_texcoord[row] == (a * m[row] + b * m[4 + row]
                + 16 * m[12 + row]) / 0x1000
            &&& param / 0x4000_0000 != 1 ==> after.current_texcoord == s.raw_texcoord
            &&& after.tex_param == param
        }),
{
    reveal(GeometryState::executed);
    lemma2_to64();
    lemma_low_bits_mask_values();
    lemma_field_u32(param, 30, 2);
    let m = s.matrices.texture;
    let (a, b) = (s.raw_texcoord[0], s.raw_texcoord[1]);
    let sum = a * m[row] + b * m[4 + row] + 16 * m[12 + row];
    lemma_fixed(sum);
    assert(m[12 + row] * 16 == 16 * m[12 + row]);
    assert(textured(m, [a, b], row) == fixed(sum));
    assert(s.raw_texcoord == [a, b]);
}

} // verus!
