//! Laws of the simulation that relate several functions, proved once and
//! for all.  Per-function guarantees — the post-tick speed cap and the
//! arena bounds — are stated directly on `Boid::update` and `World::tick`.

use vstd::prelude::*;
use crate::boid::{
    combined_spec, dist_fp, poi_dist_fp, seek_spec, sep_step, sep_sum, separation_spec,
    update_spec, Boid, MAX_SPEED, SEEK_RADIUS, SEP_RADIUS,
};
use crate::math::{
    abs_val, clamp_len_spec, div_z, dot, lemma_clamp_len_bounds, lemma_component_le_sqrt,
    lemma_div_z_basics, lemma_norm_dot_aligned, lemma_norm_dot_pos, lemma_norm_neg,
    lemma_sqrt_floor_bounds, lemma_sqrt_le_component_sum, norm_spec, sqrt_floor, SCALE,
};
use crate::poi::POI;

verus! {

/// Boundary bounce: an agent on the left wall whose clamped velocity for
/// the tick still points left ends the tick on the wall (`x == 0`) with
/// its horizontal velocity reflected to the right.
pub proof fn lemma_bounce_left_wall(
    a: Boid,
    boids: Seq<Boid>,
    me: int,
    pois: Seq<POI>,
    w: int,
    h: int,
)
    requires
        a.x == 0,
        clamp_len_spec(
            combined_spec(a, boids, me, pois).0,
            combined_spec(a, boids, me, pois).1,
            MAX_SPEED as int,
        ).0 < 0,
    ensures
        update_spec(a, boids, me, pois, w, h).x == 0,
        update_spec(a, boids, me, pois, w, h).vx > 0,
        update_spec(a, boids, me, pois, w, h).vx == -clamp_len_spec(
            combined_spec(a, boids, me, pois).0,
            combined_spec(a, boids, me, pois).1,
            MAX_SPEED as int,
        ).0,
{
    lemma_clamp_len_bounds(
        combined_spec(a, boids, me, pois).0,
        combined_spec(a, boids, me, pois).1,
        MAX_SPEED as int,
    );
}

/// Separation between a lone pair is symmetric in magnitude and
/// direction: with exactly two agents at distinct positions closer than
/// `SEP_RADIUS`, each agent's separation force points away from the other
/// (positive dot product with the offset from the other to itself), and
/// the two forces are exact componentwise opposites.
pub proof fn lemma_separation_pair(a: Boid, b: Boid)
    requires
        a.bounded(),
        b.bounded(),
        dist_fp(a, b) < SEP_RADIUS,
        a.x != b.x || a.y != b.y,
    ensures
        dot(
            separation_spec(a, seq![a, b], 0).0,
            separation_spec(a, seq![a, b], 0).1,
            a.x - b.x,
            a.y - b.y,
        ) > 0,
        separation_spec(b, seq![a, b], 1).0 == -separation_spec(a, seq![a, b], 0).0,
        separation_spec(b, seq![a, b], 1).1 == -separation_spec(a, seq![a, b], 0).1,
{
    let s2 = seq![a, b];
    let dx = a.x - b.x;
    let dy = a.y - b.y;
    let q = dx * dx + dy * dy;
    assert(q >= 1) by (nonlinear_arith)
        requires
            q == dx * dx + dy * dy,
            dx != 0 || dy != 0,
    ;
    lemma_sqrt_floor_bounds(q);
    let d = dist_fp(a, b);
    assert(d == sqrt_floor(q));
    if d < 1 {
        assert(d == 0);
        assert((d + 1) * (d + 1) == 1) by (nonlinear_arith)
            requires
                d == 0,
        ;
        assert(false);
    }
    lemma_component_le_sqrt(dx, dy);
    lemma_sqrt_le_component_sum(dx, dy);
    let m = if d < SCALE {
        SCALE as int
    } else {
        d
    };
    assert(SCALE <= m <= 3000 && d <= m);
    assert(m * m > 0) by (nonlinear_arith)
        requires
            m >= 1000,
    ;
    let tx = div_z(dx * (SCALE * SCALE), m * m);
    let ty = div_z(dy * (SCALE * SCALE), m * m);
    lemma_div_z_basics(dx * (SCALE * SCALE), m * m);
    lemma_div_z_basics(dy * (SCALE * SCALE), m * m);
    // the dominant component survives the damping
    if abs_val(dx) >= abs_val(dy) {
        assert(dx != 0);
        assert(abs_val(dx * (SCALE * SCALE)) >= m * m) by (nonlinear_arith)
            requires
                SCALE == 1000,
                abs_val(dx) >= 1,
                (abs_val(dx) == dx || abs_val(dx) == -dx),
                (abs_val(dx * (SCALE * SCALE)) == dx * (SCALE * SCALE) || abs_val(
                    dx * (SCALE * SCALE),
                ) == -(dx * (SCALE * SCALE))),
                abs_val(dx * (SCALE * SCALE)) >= 0,
                d <= abs_val(dx) + abs_val(dy),
                abs_val(dy) <= abs_val(dx),
                (m == 1000 || m == d),
                1000 <= m <= 3000,
        ;
        assert(abs_val(tx) >= 1);
    } else {
        assert(dy != 0);
        assert(abs_val(dy * (SCALE * SCALE)) >= m * m) by (nonlinear_arith)
            requires
                SCALE == 1000,
                abs_val(dy) >= 1,
                (abs_val(dy) == dy || abs_val(dy) == -dy),
                (abs_val(dy * (SCALE * SCALE)) == dy * (SCALE * SCALE) || abs_val(
                    dy * (SCALE * SCALE),
                ) == -(dy * (SCALE * SCALE))),
                abs_val(dy * (SCALE * SCALE)) >= 0,
                d <= abs_val(dx) + abs_val(dy),
                abs_val(dx) <= abs_val(dy),
                (m == 1000 || m == d),
                1000 <= m <= 3000,
        ;
        assert(abs_val(ty) >= 1);
    }
    // sign agreement of the damped offset with the offset itself
    assert(dx > 0 ==> dx * (SCALE * SCALE) > 0) by (nonlinear_arith)
        requires
            SCALE == 1000,
    ;
    assert(dx < 0 ==> dx * (SCALE * SCALE) < 0) by (nonlinear_arith)
        requires
            SCALE == 1000,
    ;
    assert(dx == 0 ==> dx * (SCALE * SCALE) == 0) by (nonlinear_arith);
    assert(dy > 0 ==> dy * (SCALE * SCALE) > 0) by (nonlinear_arith)
        requires
            SCALE == 1000,
    ;
    assert(dy < 0 ==> dy * (SCALE * SCALE) < 0) by (nonlinear_arith)
        requires
            SCALE == 1000,
    ;
    assert(dy == 0 ==> dy * (SCALE * SCALE) == 0) by (nonlinear_arith);
    // distance and damping are symmetric between the two agents
    assert((b.x - a.x) * (b.x - a.x) + (b.y - a.y) * (b.y - a.y) == q) by (nonlinear_arith)
        requires
            q == dx * dx + dy * dy,
            dx == a.x - b.x,
            dy == a.y - b.y,
    ;
    assert(dist_fp(b, a) == d);
    assert((b.x - a.x) * (SCALE * SCALE) == -(dx * (SCALE * SCALE)) && (b.y - a.y) * (SCALE
        * SCALE) == -(dy * (SCALE * SCALE))) by (nonlinear_arith)
        requires
            dx == a.x - b.x,
            dy == a.y - b.y,
    ;
    assert(sep_step(b, a).0 == -tx && sep_step(b, a).1 == -ty);
    // the pair sums reduce to the single cross terms
    assert(sep_sum(a, s2, 0, 0) == (0int, 0int, 0int));
    assert(sep_sum(a, s2, 0, 1) == (0int, 0int, 0int));
    assert(s2[1] == b && s2[0] == a);
    assert(sep_sum(a, s2, 0, 2) == (sep_step(a, b).0, sep_step(a, b).1, 1int));
    assert(sep_sum(b, s2, 1, 0) == (0int, 0int, 0int));
    assert(sep_sum(b, s2, 1, 1) == (sep_step(b, a).0, sep_step(b, a).1, 1int));
    assert(sep_sum(b, s2, 1, 2) == (sep_step(b, a).0, sep_step(b, a).1, 1int));
    assert(div_z(tx, 1) == tx && div_z(ty, 1) == ty);
    lemma_norm_dot_aligned(tx, ty, dx, dy);
    lemma_norm_neg(tx, ty);
    assert(div_z(-tx, 1) == -tx && div_z(-ty, 1) == -ty);
}

/// Seek with a single point of interest in range and at a distinct
/// position pulls toward an attractor — the force has a positive dot
/// product with the offset to the point — and flipping the polarity to
/// repel reverses the sign.
pub proof fn lemma_seek_single_poi(a: Boid, p: POI)
    requires
        poi_dist_fp(a, p) < SEEK_RADIUS,
        p.x != a.x || p.y != a.y,
    ensures
        p.toggled ==> dot(seek_spec(a, seq![p]).0, seek_spec(a, seq![p]).1, p.x - a.x, p.y - a.y)
            > 0,
        !p.toggled ==> dot(seek_spec(a, seq![p]).0, seek_spec(a, seq![p]).1, p.x - a.x, p.y - a.y)
            < 0,
{
    let dx = p.x - a.x;
    let dy = p.y - a.y;
    lemma_norm_dot_pos(dx, dy);
    let u = norm_spec(dx, dy);
    let s1 = seq![p];
    assert(crate::boid::seek_sum(a, s1, 0) == (0int, 0int));
    assert(s1[0] == p);
    assert(seek_spec(a, seq![p]) == if p.toggled {
        (u.0, u.1)
    } else {
        (-u.0, -u.1)
    });
    assert((-u.0) * dx + (-u.1) * dy == -(u.0 * dx + u.1 * dy)) by (nonlinear_arith);
}

/// An agent alone in the arena, away from the walls, with zero velocity
/// and no points of interest is a fixed point of the tick: every force is
/// zero and it stays exactly where it is.
pub proof fn lemma_lone_still_boid(a: Boid, w: int, h: int)
    requires
        a.vx == 0,
        a.vy == 0,
        0 < a.x < w,
        0 < a.y < h,
    ensures
        update_spec(a, seq![a], 0, Seq::<POI>::empty(), w, h) == a,
{
    let s1 = seq![a];
    let nopois = Seq::<POI>::empty();
    assert(sep_sum(a, s1, 0, 0) == (0int, 0int, 0int));
    assert(sep_sum(a, s1, 0, 1) == (0int, 0int, 0int));
    assert(crate::boid::align_sum(a, s1, 0, 0) == (0int, 0int, 0int));
    assert(crate::boid::align_sum(a, s1, 0, 1) == (0int, 0int, 0int));
    assert(crate::boid::coh_sum(a, s1, 0, 0) == (0int, 0int, 0int));
    assert(crate::boid::coh_sum(a, s1, 0, 1) == (0int, 0int, 0int));
    assert(sqrt_floor(0) == 0);
    assert(separation_spec(a, s1, 0) == (0int, 0int));
    assert(crate::boid::alignment_spec(a, s1, 0) == (0int, 0int));
    assert(crate::boid::cohesion_spec(a, s1, 0) == (0int, 0int));
    assert(crate::boid::seek_sum(a, nopois, 0) == (0int, 0int));
    assert(seek_spec(a, nopois) == (0int, 0int));
    crate::math::lemma_div_z_le(0, SCALE as int, 0);
    assert(combined_spec(a, s1, 0, nopois).0 == 0 && combined_spec(a, s1, 0, nopois).1 == 0);
    assert(clamp_len_spec(0, 0, MAX_SPEED as int) == (0int, 0int));
    assert(update_spec(a, s1, 0, nopois, w, h) == a);
}

} // verus!
