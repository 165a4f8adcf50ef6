//! What clipping does to a polygon.

use vstd::prelude::*;
use super::geometry::{
    clipped, clipped_by, clipped_edge, clipped_edges, crossing, crossing_vertex, excess, inside,
    ClipVertex,
};
use crate::arith::{clamped, quotient};

verus! {

/// A polygon that lies inside every plane comes out of the clipper as it went in.
pub proof fn law_clipping_keeps_what_is_visible(face: Seq<ClipVertex>)
    requires
        face.len() >= 3,
        forall|i: int, axis: int|
            0 <= i < face.len() && 0 <= axis < 3 ==> #[trigger] inside(face[i], axis, 1) && inside(
                face[i],
                axis,
                -1,
            ),
    ensures
        clipped(face) == face,
{
    assert forall|axis: int, side: int| 0 <= axis < 3 && (side == 1 || side == -1) implies #[trigger] clipped_by(
        face,
        axis,
        side,
    ) == face by {
        assert forall|i: int| 0 <= i < face.len() implies #[trigger] inside(face[i], axis, side) by {
            assert(inside(face[i], axis, 1));
        }
        lemma_edges_inside(face, axis, side, face.len());
        assert(face.take(face.len() as int) =~= face);
    }
}

/// A polygon that lies outside one plane leaves nothing of itself on the other side.
pub proof fn law_clipping_drops_what_is_outside(face: Seq<ClipVertex>, axis: int, side: int)
    requires
        forall|i: int| 0 <= i < face.len() ==> !#[trigger] inside(face[i], axis, side),
    ensures
        clipped_by(face, axis, side) == Seq::<ClipVertex>::empty(),
{
    if face.len() >= 3 {
        lemma_edges_outside(face, axis, side, face.len());
    }
}

/// Edges between inside vertices leave their starts.
proof fn lemma_edges_inside(face: Seq<ClipVertex>, axis: int, side: int, n: nat)
    requires
        face.len() >= 3,
        n <= face.len(),
        forall|i: int| 0 <= i < face.len() ==> #[trigger] inside(face[i], axis, side),
    ensures
        clipped_edges(face, axis, side, n) == face.take(n as int),
    decreases n,
{
    if n > 0 {
        lemma_edges_inside(face, axis, side, (n - 1) as nat);
        lemma_next_index(n as int, face.len() as int);
        assert(inside(face[n - 1], axis, side));
        assert(inside(face[n as int % face.len() as int], axis, side));
        assert(clipped_edge(face, axis, side, n - 1) =~= seq![face[n - 1]]);
        assert(face.take(n as int) =~= face.take(n - 1) + seq![face[n - 1]]);
    } else {
        assert(face.take(0) =~= Seq::empty());
    }
}

/// Edges between outside vertices leave nothing.
proof fn lemma_edges_outside(face: Seq<ClipVertex>, axis: int, side: int, n: nat)
    requires
        face.len() >= 3,
        n <= face.len(),
        forall|i: int| 0 <= i < face.len() ==> !#[trigger] inside(face[i], axis, side),
    ensures
        clipped_edges(face, axis, side, n) == Seq::<ClipVertex>::empty(),
    decreases n,
{
    if n > 0 {
        lemma_edges_outside(face, axis, side, (n - 1) as nat);
        lemma_next_index(n as int, face.len() as int);
        assert(!inside(face[n - 1], axis, side));
        assert(!inside(face[n as int % face.len() as int], axis, side));
        assert(clipped_edge(face, axis, side, n - 1) =~= Seq::empty());
        assert(clipped_edges(face, axis, side, n) =~= Seq::empty());
    }
}

proof fn lemma_next_index(n: int, len: int)
    requires
        0 <= n <= len,
        len > 0,
    ensures
        0 <= n % len < len,
{
    assert(0 <= n % len < len) by (nonlinear_arith)
        requires
            len > 0,
    ;
}

/// A vertex that is inside every plane.
pub open spec fn visible(v: ClipVertex) -> bool {
    forall|axis: int, side: int|
        0 <= axis < 3 && (side == 1 || side == -1) ==> #[trigger] inside(v, axis, side)
}

/// What clipping leaves lies inside the whole frustum: every vertex, at every plane, exactly. No
/// rounding of a cut puts a vertex back outside.
#[verifier::rlimit(30)]
pub proof fn law_clipping_leaves_only_what_is_visible(face: Seq<ClipVertex>, i: int)
    requires
        0 <= i < clipped(face).len(),
    ensures
        visible(clipped(face)[i]),
{
    let x1 = clipped_by(face, 0, 1);
    let x = clipped_by(x1, 0, -1);
    let y1 = clipped_by(x, 1, 1);
    let y = clipped_by(y1, 1, -1);
    let z1 = clipped_by(y, 2, 1);
    let z = clipped_by(z1, 2, -1);
    lemma_cut_is_inside(face, 0, 1);
    lemma_cut_stays_inside(x1, 0, -1, 0, 1);
    lemma_cut_is_inside(x1, 0, -1);
    lemma_cut_stays_inside(x, 1, 1, 0, 1);
    lemma_cut_stays_inside(x, 1, 1, 0, -1);
    lemma_cut_is_inside(x, 1, 1);
    lemma_cut_stays_inside(y1, 1, -1, 0, 1);
    lemma_cut_stays_inside(y1, 1, -1, 0, -1);
    lemma_cut_stays_inside(y1, 1, -1, 1, 1);
    lemma_cut_is_inside(y1, 1, -1);
    lemma_cut_stays_inside(y, 2, 1, 0, 1);
    lemma_cut_stays_inside(y, 2, 1, 0, -1);
    lemma_cut_stays_inside(y, 2, 1, 1, 1);
    lemma_cut_stays_inside(y, 2, 1, 1, -1);
    lemma_cut_is_inside(y, 2, 1);
    lemma_cut_stays_inside(z1, 2, -1, 0, 1);
    lemma_cut_stays_inside(z1, 2, -1, 0, -1);
    lemma_cut_stays_inside(z1, 2, -1, 1, 1);
    lemma_cut_stays_inside(z1, 2, -1, 1, -1);
    lemma_cut_stays_inside(z1, 2, -1, 2, 1);
    lemma_cut_is_inside(z1, 2, -1);
    assert(clipped(face) == z);
}

/// Clipping leaves a polygon or nothing: no corner or two are left over, and what had fewer than
/// three corners was no polygon to begin with.
pub proof fn law_clipping_leaves_a_polygon_or_nothing(face: Seq<ClipVertex>)
    ensures
        clipped(face).len() == 0 || clipped(face).len() >= 3,
        face.len() < 3 ==> clipped(face).len() == 0,
{
    let x = clipped_by(clipped_by(face, 0, 1), 0, -1);
    let y = clipped_by(clipped_by(x, 1, 1), 1, -1);
    lemma_cut_leaves_a_polygon_or_nothing(clipped_by(y, 2, 1), 2, -1);
}

/// Clipping a second time changes nothing.
pub proof fn law_clipping_twice_is_clipping_once(face: Seq<ClipVertex>)
    ensures
        clipped(clipped(face)) == clipped(face),
{
    let once = clipped(face);
    law_clipping_leaves_a_polygon_or_nothing(face);
    if once.len() == 0 {
        law_clipping_leaves_a_polygon_or_nothing(once);
        assert(clipped(once) =~= once);
    } else {
        assert forall|i: int, axis: int| 0 <= i < once.len() && 0 <= axis < 3 implies #[trigger] inside(
            once[i],
            axis,
            1,
        ) && inside(once[i], axis, -1) by {
            law_clipping_leaves_only_what_is_visible(face, i);
        }
        law_clipping_keeps_what_is_visible(once);
    }
}

/// Whether one colour channel of every corner lies within bounds.
pub open spec fn channel_within(face: Seq<ClipVertex>, channel: int, low: int, high: int) -> bool {
    forall|i: int| 0 <= i < face.len() ==> low <= (#[trigger] face[i]).color[channel] <= high
}

/// Clipping invents no colour: a channel stays within any bounds that held for every corner before,
/// such as its least and its greatest value there.
pub proof fn law_clipping_keeps_colours_within_bounds(
    face: Seq<ClipVertex>,
    channel: int,
    low: int,
    high: int,
)
    requires
        0 <= channel < 3,
        0 <= low <= high <= 63,
        channel_within(face, channel, low, high),
    ensures
        channel_within(clipped(face), channel, low, high),
{
    let x1 = clipped_by(face, 0, 1);
    let x = clipped_by(x1, 0, -1);
    let y1 = clipped_by(x, 1, 1);
    let y = clipped_by(y1, 1, -1);
    let z1 = clipped_by(y, 2, 1);
    lemma_cut_keeps_colours(face, 0, 1, channel, low, high);
    lemma_cut_keeps_colours(x1, 0, -1, channel, low, high);
    lemma_cut_keeps_colours(x, 1, 1, channel, low, high);
    lemma_cut_keeps_colours(y1, 1, -1, channel, low, high);
    lemma_cut_keeps_colours(y, 2, 1, channel, low, high);
    lemma_cut_keeps_colours(z1, 2, -1, channel, low, high);
}

/// One cut keeps a channel within its bounds.
proof fn lemma_cut_keeps_colours(
    face: Seq<ClipVertex>,
    axis: int,
    side: int,
    channel: int,
    low: int,
    high: int,
)
    requires
        0 <= channel < 3,
        0 <= low <= high <= 63,
        channel_within(face, channel, low, high),
    ensures
        channel_within(clipped_by(face, axis, side), channel, low, high),
{
    if face.len() >= 3 {
        lemma_edges_keep_colours(face, axis, side, channel, low, high, face.len());
    }
}

proof fn lemma_edges_keep_colours(
    face: Seq<ClipVertex>,
    axis: int,
    side: int,
    channel: int,
    low: int,
    high: int,
    n: nat,
)
    requires
        face.len() >= 3,
        n <= face.len(),
        0 <= channel < 3,
        0 <= low <= high <= 63,
        channel_within(face, channel, low, high),
    ensures
        channel_within(clipped_edges(face, axis, side, n), channel, low, high),
    decreases n,
{
    if n > 0 {
        lemma_edges_keep_colours(face, axis, side, channel, low, high, (n - 1) as nat);
        lemma_next_index(n as int, face.len() as int);
        let a = face[n - 1];
        let b = face[n as int % face.len() as int];
        if inside(a, axis, side) != inside(b, axis, side) {
            lemma_crossing_keeps_colours(a, b, axis, side, channel, low, high);
        }
        let last = clipped_edge(face, axis, side, n - 1);
        assert(channel_within(last, channel, low, high));
        let before = clipped_edges(face, axis, side, (n - 1) as nat);
        let all = clipped_edges(face, axis, side, n);
        assert forall|i: int| 0 <= i < all.len() implies low <= (#[trigger] all[i]).color[channel]
            <= high by {
            if i < before.len() {
                assert(all[i] == before[i]);
            } else {
                assert(all[i] == last[i - before.len()]);
            }
        }
    }
}

proof fn lemma_crossing_keeps_colours(
    a: ClipVertex,
    b: ClipVertex,
    axis: int,
    side: int,
    channel: int,
    low: int,
    high: int,
)
    requires
        inside(a, axis, side) != inside(b, axis, side),
        0 <= channel < 3,
        0 <= low <= a.color[channel] <= high <= 63,
        low <= b.color[channel] <= high,
    ensures
        low <= crossing_vertex(a, b, axis, side).color[channel] <= high,
{
    let da = excess(a, axis, side);
    let db = excess(b, axis, side);
    let (p, q) = if da > 0 { (-db, da) } else { (db, -da) };
    let x = a.color[channel] as int;
    let y = b.color[channel] as int;
    lemma_crossing(x, y, da, db, p, q);
    let n = x * p + y * q;
    let d = p + q;
    assert(low * d <= n <= high * d) by (nonlinear_arith)
        requires
            n == x * p + y * q,
            d == p + q,
            p >= 0,
            q >= 0,
            low <= x <= high,
            low <= y <= high,
    ;
    lemma_quotient_is_monotone(low * d, n, d);
    lemma_quotient_is_monotone(n, high * d, d);
    lemma_whole_quotient(low, d);
    lemma_whole_quotient(high, d);
    let v = crossing_vertex(a, b, axis, side);
    assert(low <= crossing(x, y, da, db) <= high);
    assert(v.color[channel] == clamped(crossing(x, y, da, db) as int, 0, 63) as u8);
}

/// How many of the first `n` edges change sides.
spec fn changes(face: Seq<ClipVertex>, axis: int, side: int, n: nat) -> nat
    decreases n,
{
    if n == 0 {
        0
    } else {
        changes(face, axis, side, (n - 1) as nat) + if inside(face[n - 1], axis, side) != inside(
            face[n as int % (face.len() as int)],
            axis,
            side,
        ) {
            1nat
        } else {
            0
        }
    }
}

/// How many of the first `n` vertices are inside.
spec fn kept(face: Seq<ClipVertex>, axis: int, side: int, n: nat) -> nat
    decreases n,
{
    if n == 0 {
        0
    } else {
        kept(face, axis, side, (n - 1) as nat) + if inside(face[n - 1], axis, side) {
            1nat
        } else {
            0
        }
    }
}

/// One cut leaves a polygon or nothing.
proof fn lemma_cut_leaves_a_polygon_or_nothing(face: Seq<ClipVertex>, axis: int, side: int)
    ensures
        clipped_by(face, axis, side).len() == 0 || clipped_by(face, axis, side).len() >= 3,
{
    if face.len() >= 3 {
        let n = face.len();
        lemma_edges_counted(face, axis, side, n);
        lemma_changes(face, axis, side, n);
        vstd::arithmetic::div_mod::lemma_mod_self_0(n as int);
    }
}

/// What the edges leave is counted by the vertices inside and the changes of side.
proof fn lemma_edges_counted(face: Seq<ClipVertex>, axis: int, side: int, n: nat)
    requires
        n <= face.len(),
    ensures
        clipped_edges(face, axis, side, n).len() == kept(face, axis, side, n) + changes(
            face,
            axis,
            side,
            n,
        ),
    decreases n,
{
    if n > 0 {
        lemma_edges_counted(face, axis, side, (n - 1) as nat);
    }
}

/// One change leaves the side of the first vertex, and an edge that comes back to it is a second.
/// Without a change every vertex is on the side of the first.
proof fn lemma_changes(face: Seq<ClipVertex>, axis: int, side: int, n: nat)
    requires
        face.len() >= 3,
        n <= face.len(),
    ensures
        ({
            let first = inside(face[0], axis, side);
            let here = inside(face[n as int % (face.len() as int)], axis, side);
            let changed = changes(face, axis, side, n);
            let count = kept(face, axis, side, n);
            &&& changed == 0 ==> here == first && count == if first {
                n
            } else {
                0
            }
            &&& changed == 1 ==> here != first
            &&& changed > 0 && first ==> count > 0
            &&& changed > 0 && !first && (changed > 1 || here == first) ==> count > 0
        }),
    decreases n,
{
    if n > 0 {
        lemma_changes(face, axis, side, (n - 1) as nat);
        vstd::arithmetic::div_mod::lemma_small_mod((n - 1) as nat, face.len());
    } else {
        vstd::arithmetic::div_mod::lemma_small_mod(0, face.len());
    }
}

/// Whether every vertex of a polygon is inside one plane.
spec fn all_inside(face: Seq<ClipVertex>, axis: int, side: int) -> bool {
    forall|i: int| 0 <= i < face.len() ==> #[trigger] inside(face[i], axis, side)
}

/// A polygon cut along a plane lies inside it.
proof fn lemma_cut_is_inside(face: Seq<ClipVertex>, axis: int, side: int)
    requires
        0 <= axis < 3,
        side == 1 || side == -1,
    ensures
        all_inside(clipped_by(face, axis, side), axis, side),
{
    if face.len() >= 3 {
        lemma_edges_are_inside(face, axis, side, axis, side, face.len());
    }
}

/// A polygon inside one plane stays inside it when it is cut along another.
proof fn lemma_cut_stays_inside(face: Seq<ClipVertex>, axis: int, side: int, other: int, turn: int)
    requires
        0 <= axis < 3,
        side == 1 || side == -1,
        0 <= other < 3,
        turn == 1 || turn == -1,
        all_inside(face, other, turn),
    ensures
        all_inside(clipped_by(face, axis, side), other, turn),
{
    if face.len() >= 3 {
        lemma_edges_are_inside(face, axis, side, other, turn, face.len());
    }
}

/// What the first edges leave is inside a plane, if the cut is along it or the polygon was.
proof fn lemma_edges_are_inside(
    face: Seq<ClipVertex>,
    axis: int,
    side: int,
    other: int,
    turn: int,
    n: nat,
)
    requires
        face.len() >= 3,
        n <= face.len(),
        0 <= axis < 3,
        side == 1 || side == -1,
        0 <= other < 3,
        turn == 1 || turn == -1,
        all_inside(face, other, turn) || (other == axis && turn == side),
    ensures
        all_inside(clipped_edges(face, axis, side, n), other, turn),
    decreases n,
{
    if n > 0 {
        lemma_edges_are_inside(face, axis, side, other, turn, (n - 1) as nat);
        lemma_next_index(n as int, face.len() as int);
        let a = face[n - 1];
        let b = face[n as int % face.len() as int];
        if inside(a, axis, side) != inside(b, axis, side) {
            lemma_crossing_is_inside(a, b, axis, side, other, turn);
        }
        let last = clipped_edge(face, axis, side, n - 1);
        assert forall|i: int| 0 <= i < last.len() implies #[trigger] inside(last[i], other, turn) by {
            if all_inside(face, other, turn) {
                assert(inside(face[n - 1], other, turn));
            }
        }
        let before = clipped_edges(face, axis, side, (n - 1) as nat);
        let all = clipped_edges(face, axis, side, n);
        assert forall|i: int| 0 <= i < all.len() implies #[trigger] inside(all[i], other, turn) by {
            if i < before.len() {
                assert(all[i] == before[i]);
            } else {
                assert(all[i] == last[i - before.len()]);
            }
        }
    }
}

/// Where an edge crosses a plane it is inside it, and inside every other plane that both its ends
/// are inside of.
proof fn lemma_crossing_is_inside(
    a: ClipVertex,
    b: ClipVertex,
    axis: int,
    side: int,
    other: int,
    turn: int,
)
    requires
        inside(a, axis, side) != inside(b, axis, side),
        0 <= axis < 3,
        side == 1 || side == -1,
        0 <= other < 3,
        turn == 1 || turn == -1,
        (inside(a, other, turn) && inside(b, other, turn)) || (other == axis && turn == side),
    ensures
        inside(crossing_vertex(a, b, axis, side), other, turn),
{
    let da = excess(a, axis, side);
    let db = excess(b, axis, side);
    let v = crossing_vertex(a, b, axis, side);
    let (p, q) = if da > 0 { (-db, da) } else { (db, -da) };
    let xa = a.position[other] as int;
    let xb = b.position[other] as int;
    let wa = a.position[3] as int;
    let wb = b.position[3] as int;
    lemma_crossing(xa, xb, da, db, p, q);
    lemma_crossing(wa, wb, da, db, p, q);
    assert(v.position[other] == crossing(xa, xb, da, db));
    assert(v.position[3] == crossing(wa, wb, da, db));
    let nx = xa * p + xb * q;
    let nw = wa * p + wb * q;
    let ea = turn * xa - wa;
    let eb = turn * xb - wb;
    assert(turn * nx - nw == ea * p + eb * q) by (nonlinear_arith)
        requires
            nx == xa * p + xb * q,
            nw == wa * p + wb * q,
            ea == turn * xa - wa,
            eb == turn * xb - wb,
    ;
    if other == axis && turn == side {
        assert(ea == da && eb == db);
        assert(ea * p + eb * q == 0) by (nonlinear_arith)
            requires
                (ea == da && eb == db),
                (p == -db && q == da) || (p == db && q == -da),
        ;
    } else {
        assert(ea * p + eb * q <= 0) by (nonlinear_arith)
            requires
                ea <= 0,
                eb <= 0,
                p >= 0,
                q >= 0,
        ;
    }
    assert(turn * nx <= nw);
    lemma_quotient_is_odd(nx, p + q);
    lemma_quotient_is_monotone(turn * nx, nw, p + q);
    assert(turn * quotient(nx, p + q) == quotient(turn * nx, p + q)) by {
        if turn == 1 {
            assert(turn * nx == nx && turn * quotient(nx, p + q) == quotient(nx, p + q));
        } else {
            assert(turn * nx == -nx && turn * quotient(nx, p + q) == -quotient(nx, p + q));
        }
    }
}

/// A crossing is the mean of its ends, weighted and rounded toward zero, and fits.
proof fn lemma_crossing(x: int, y: int, da: int, db: int, p: int, q: int)
    requires
        (da > 0 && db <= 0 && p == -db && q == da) || (da <= 0 && db > 0 && p == db && q == -da),
        i32::MIN <= x <= i32::MAX,
        i32::MIN <= y <= i32::MAX,
    ensures
        crossing(x, y, da, db) == quotient(x * p + y * q, p + q),
{
    let n = x * p + y * q;
    let d = p + q;
    let sum = x * -db + y * da;
    if da > 0 {
        assert(sum == n && da - db == d);
    } else {
        assert(x * -db == -(x * p)) by (nonlinear_arith)
            requires
                p == db,
        ;
        assert(y * da == -(y * q)) by (nonlinear_arith)
            requires
                q == -da,
        ;
        assert(sum == -n && da - db == -d);
    }
    assert(quotient(sum, da - db) == quotient(n, d));
    assert(n <= 0x7FFF_FFFF * d && n >= -0x8000_0000 * d) by (nonlinear_arith)
        requires
            n == x * p + y * q,
            d == p + q,
            p >= 0,
            q >= 0,
            -0x8000_0000 <= x <= 0x7FFF_FFFF,
            -0x8000_0000 <= y <= 0x7FFF_FFFF,
    ;
    lemma_quotient_is_monotone(n, 0x7FFF_FFFF * d, d);
    lemma_quotient_is_monotone(-0x8000_0000 * d, n, d);
    lemma_whole_quotient(0x7FFF_FFFF, d);
    lemma_whole_quotient(-0x8000_0000, d);
}

proof fn lemma_whole_quotient(k: int, d: int)
    requires
        d > 0,
    ensures
        quotient(k * d, d) == k,
{
    if k >= 0 {
        assert(k * d >= 0) by (nonlinear_arith)
            requires
                k >= 0,
                d > 0,
        ;
        vstd::arithmetic::div_mod::lemma_div_multiples_vanish(k, d);
        assert(d * k == k * d) by (nonlinear_arith);
    } else {
        assert(k * d < 0) by (nonlinear_arith)
            requires
                k < 0,
                d > 0,
        ;
        vstd::arithmetic::div_mod::lemma_div_multiples_vanish(-k, d);
        assert(d * -k == -(k * d)) by (nonlinear_arith);
    }
}

/// Rounding toward zero is the same on both sides of it.
proof fn lemma_quotient_is_odd(n: int, d: int)
    requires
        d > 0,
    ensures
        quotient(-n, d) == -quotient(n, d),
{
    if n == 0 {
        vstd::arithmetic::div_mod::lemma_div_basics(d);
    }
}

/// Rounding toward zero keeps order.
proof fn lemma_quotient_is_monotone(m: int, n: int, d: int)
    requires
        d > 0,
        m <= n,
    ensures
        quotient(m, d) <= quotient(n, d),
{
    if m >= 0 {
        vstd::arithmetic::div_mod::lemma_div_is_ordered(m, n, d);
    } else if n < 0 {
        vstd::arithmetic::div_mod::lemma_div_is_ordered(-n, -m, d);
    } else {
        vstd::arithmetic::div_mod::lemma_div_pos_is_pos(-m, d);
        vstd::arithmetic::div_mod::lemma_div_pos_is_pos(n, d);
    }
}

/// How far outside a plane a corner lies, coordinate by coordinate.
pub open spec fn outside_by(v: ClipVertex, axis: int, side: int) -> int {
    (if side == 1 { v.position[axis] as int } else { -(v.position[axis] as int) }) - v.position[3]
}

/// A value on the line between two, where the one is met at distance `da` from the plane and the other at
/// `db`: within one of the mean of the two, each weighted by the other's distance.
pub open spec fn is_on_line(value: int, x: int, y: int, da: int, db: int) -> bool {
    let far = if da >= 0 { da } else { -da };
    let near = if db >= 0 { db } else { -db };
    -(far + near) < value * (far + near) - (x * near + y * far) < far + near
}

/// A corner that clipping makes lies on the edge where the edge meets the plane: every coordinate, colour
/// channel and texture coordinate is that of the two ends in the ratio of their distances from it.
pub proof fn law_new_corners_lie_on_the_edge(a: ClipVertex, b: ClipVertex, axis: int, side: int, k: int)
    requires
        0 <= axis < 3,
        side == 1 || side == -1,
        outside_by(a, axis, side) > 0 && outside_by(b, axis, side) <= 0 || outside_by(a, axis, side) <= 0
            && outside_by(b, axis, side) > 0,
        0 <= k < 4,
        k < 3 ==> a.color[k] <= 63 && b.color[k] <= 63,
    ensures
        ({
            let v = crossing_vertex(a, b, axis, side);
            let da = outside_by(a, axis, side);
            let db = outside_by(b, axis, side);
            &&& is_on_line(v.position[k] as int, a.position[k] as int, b.position[k] as int, da, db)
            &&& k < 3 ==> is_on_line(v.color[k] as int, a.color[k] as int, b.color[k] as int, da, db)
            &&& k < 2 ==> is_on_line(
                v.texcoord[k] as int,
                a.texcoord[k] as int,
                b.texcoord[k] as int,
                da,
                db,
            )
        }),
{
    let da = excess(a, axis, side);
    let db = excess(b, axis, side);
    assert(da == outside_by(a, axis, side) && db == outside_by(b, axis, side));
    let v = crossing_vertex(a, b, axis, side);
    let (p, q) = if da > 0 { (-db, da) } else { (db, -da) };
    lemma_on_line(a.position[k] as int, b.position[k] as int, da, db, p, q);
    assert(v.position[k] == crossing(a.position[k] as int, b.position[k] as int, da, db));
    if k < 3 {
        let (x, y) = (a.color[k] as int, b.color[k] as int);
        lemma_on_line(x, y, da, db, p, q);
        lemma_crossing_is_small(x, y, da, db, p, q);
        assert(v.color[k] == clamped(crossing(x, y, da, db) as int, 0, 63) as u8);
    }
    if k < 2 {
        lemma_on_line(a.texcoord[k] as int, b.texcoord[k] as int, da, db, p, q);
        assert(v.texcoord[k] == crossing(a.texcoord[k] as int, b.texcoord[k] as int, da, db));
    }
}

proof fn lemma_on_line(x: int, y: int, da: int, db: int, p: int, q: int)
    requires
        (da > 0 && db <= 0 && p == -db && q == da) || (da <= 0 && db > 0 && p == db && q == -da),
        i32::MIN <= x <= i32::MAX,
        i32::MIN <= y <= i32::MAX,
    ensures
        is_on_line(crossing(x, y, da, db) as int, x, y, da, db),
{
    lemma_crossing(x, y, da, db, p, q);
    crate::arith::lemma_quotient(x * p + y * q, p + q);
}

proof fn lemma_crossing_is_small(x: int, y: int, da: int, db: int, p: int, q: int)
    requires
        (da > 0 && db <= 0 && p == -db && q == da) || (da <= 0 && db > 0 && p == db && q == -da),
        0 <= x <= 63,
        0 <= y <= 63,
    ensures
        0 <= crossing(x, y, da, db) <= 63,
{
    lemma_crossing(x, y, da, db, p, q);
    let d = p + q;
    let n = x * p + y * q;
    assert(0 * d <= n && n <= 63 * d) by (nonlinear_arith)
        requires
            n == x * p + y * q,
            d == p + q,
            p >= 0,
            q >= 0,
            0 <= x <= 63,
            0 <= y <= 63,
    ;
    lemma_quotient_is_monotone(n, 63 * d, d);
    lemma_quotient_is_monotone(0 * d, n, d);
    lemma_whole_quotient(63, d);
    lemma_whole_quotient(0, d);
}

} // verus!
