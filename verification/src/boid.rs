//! Boid agents and the per-tick force model.
//!
//! Each tick every agent combines four forces computed against a snapshot
//! of the previous state: separation (repel from very close neighbors),
//! alignment (match nearby velocities), cohesion (steer toward the local
//! centroid) and seek (attraction/repulsion from points of interest).
//! The combined velocity is clamped to `MAX_SPEED`, the agent moves by it,
//! and it bounces elastically off the arena walls.

use vstd::prelude::*;
use crate::math::{
    abs_val, clamp_len, clamp_len_spec, div_trunc, div_z, isqrt, lemma_component_le_sqrt,
    lemma_div_z_le, lemma_sqrt_floor_bounds, norm_spec, normalize, sqrt_floor, DIM_LIMIT, SCALE,
};
use crate::poi::{MAX_POIS, POI};

verus! {

/// Neighbors closer than this repel (separation).
pub const SEP_RADIUS: i64 = 3000;

/// Neighbors closer than this have their velocity matched (alignment).
pub const ALIGN_RADIUS: i64 = 4000;

/// Neighbors closer than this attract toward their centroid (cohesion).
pub const COH_RADIUS: i64 = 5000;

/// Points of interest closer than this exert their pull (seek).
pub const SEEK_RADIUS: i64 = 20000;

/// Weight of the separation force, in thousandths.
pub const W_SEP: i64 = 1500;

/// Weight of the cohesion force, in thousandths.
pub const W_COH: i64 = 750;

/// Weight of the seek force, in thousandths.
pub const W_SEEK: i64 = 750;

/// Top speed after clamping: one unit per tick.
pub const MAX_SPEED: i64 = 1000;

/// Largest velocity component a boid may carry between ticks (a fresh
/// spawn bursts at up to ten units per tick before its first clamp).
pub const VEL_LIMIT: i64 = 10000;

/// Largest population the force accumulators accept without overflow.
pub const MAX_BOIDS: usize = 0x4000_0000;

/// A simulated agent: a position and a velocity, in fixed-point sub-units.
#[derive(Clone, Copy, PartialEq, Eq, Structural, Debug)]
pub struct Boid {
    pub x: i64,
    pub y: i64,
    pub vx: i64,
    pub vy: i64,
}

/// Squared distance between two points.
pub open spec fn dist_sq(ax: int, ay: int, bx: int, by: int) -> int {
    (ax - bx) * (ax - bx) + (ay - by) * (ay - by)
}

/// Squared speed of a boid.
pub open spec fn speed_sq(b: Boid) -> int {
    b.vx * b.vx + b.vy * b.vy
}

/// Fixed-point distance between two boids: the floor square root of the
/// squared distance between their positions.
pub open spec fn dist_fp(a: Boid, b: Boid) -> int {
    sqrt_floor(dist_sq(a.x as int, a.y as int, b.x as int, b.y as int))
}

impl Boid {
    /// Position and velocity lie in the representable ranges.
    pub open spec fn bounded(self) -> bool {
        &&& 0 <= self.x <= DIM_LIMIT
        &&& 0 <= self.y <= DIM_LIMIT
        &&& -VEL_LIMIT <= self.vx <= VEL_LIMIT
        &&& -VEL_LIMIT <= self.vy <= VEL_LIMIT
    }

    /// The boid sits inside a `w` by `h` arena with a velocity the
    /// simulation can carry.
    pub open spec fn valid(self, w: int, h: int) -> bool {
        &&& 0 <= self.x <= w
        &&& 0 <= self.y <= h
        &&& -VEL_LIMIT <= self.vx <= VEL_LIMIT
        &&& -VEL_LIMIT <= self.vy <= VEL_LIMIT
    }

    pub fn new(x: i64, y: i64, vx: i64, vy: i64) -> (b: Boid)
        ensures
            b.x == x,
            b.y == y,
            b.vx == vx,
            b.vy == vy,
    {
        Boid { x, y, vx, vy }
    }
}

/// All boids of a snapshot are in range of a `w` by `h` arena.
pub open spec fn all_valid(boids: Seq<Boid>, w: int, h: int) -> bool {
    forall|i: int| 0 <= i < boids.len() ==> (#[trigger] boids[i]).valid(w, h)
}

/// One separation contribution: the offset away from a close neighbor,
/// damped by the squared distance (floored at one unit).
pub open spec fn sep_step(a: Boid, b: Boid) -> (int, int) {
    let d = dist_fp(a, b);
    let m = if d < SCALE {
        SCALE as int
    } else {
        d
    };
    (
        div_z((a.x - b.x) * (SCALE * SCALE), m * m),
        div_z((a.y - b.y) * (SCALE * SCALE), m * m),
    )
}

/// Separation contributions of the first `k` snapshot entries, skipping
/// index `me` and neighbors at `SEP_RADIUS` or farther: the accumulated
/// vector and the neighbor count.
pub open spec fn sep_sum(a: Boid, boids: Seq<Boid>, me: int, k: int) -> (int, int, int)
    decreases k,
{
    if k <= 0 {
        (0int, 0int, 0int)
    } else {
        let p = sep_sum(a, boids, me, k - 1);
        let b = boids[k - 1];
        if k - 1 != me && dist_fp(a, b) < SEP_RADIUS {
            (p.0 + sep_step(a, b).0, p.1 + sep_step(a, b).1, p.2 + 1)
        } else {
            p
        }
    }
}

/// The separation force: the accumulated repulsion averaged over the
/// neighbor count and scaled to unit length.
pub open spec fn separation_spec(a: Boid, boids: Seq<Boid>, me: int) -> (int, int) {
    let t = sep_sum(a, boids, me, boids.len() as int);
    if t.2 > 0 {
        norm_spec(div_z(t.0, t.2), div_z(t.1, t.2))
    } else {
        norm_spec(t.0, t.1)
    }
}

/// Velocities of the first `k` snapshot entries within `ALIGN_RADIUS`,
/// skipping index `me`: the accumulated vector and the neighbor count.
pub open spec fn align_sum(a: Boid, boids: Seq<Boid>, me: int, k: int) -> (int, int, int)
    decreases k,
{
    if k <= 0 {
        (0int, 0int, 0int)
    } else {
        let p = align_sum(a, boids, me, k - 1);
        let b = boids[k - 1];
        if k - 1 != me && dist_fp(a, b) < ALIGN_RADIUS {
            (p.0 + b.vx, p.1 + b.vy, p.2 + 1)
        } else {
            p
        }
    }
}

/// The alignment force: the average nearby velocity, scaled to unit
/// length.
pub open spec fn alignment_spec(a: Boid, boids: Seq<Boid>, me: int) -> (int, int) {
    let t = align_sum(a, boids, me, boids.len() as int);
    if t.2 > 0 {
        norm_spec(div_z(t.0, t.2), div_z(t.1, t.2))
    } else {
        norm_spec(t.0, t.1)
    }
}

/// Offsets toward the first `k` snapshot entries within `COH_RADIUS`,
/// skipping index `me`: the accumulated vector and the neighbor count.
/// (The centroid is tracked relative to `a`, so the steering vector is the
/// averaged offset.)
pub open spec fn coh_sum(a: Boid, boids: Seq<Boid>, me: int, k: int) -> (int, int, int)
    decreases k,
{
    if k <= 0 {
        (0int, 0int, 0int)
    } else {
        let p = coh_sum(a, boids, me, k - 1);
        let b = boids[k - 1];
        if k - 1 != me && dist_fp(a, b) < COH_RADIUS {
            (p.0 + (b.x - a.x), p.1 + (b.y - a.y), p.2 + 1)
        } else {
            p
        }
    }
}

/// The cohesion force: the vector toward the centroid of nearby
/// neighbors, scaled to unit length; zero when there is no neighbor.
pub open spec fn cohesion_spec(a: Boid, boids: Seq<Boid>, me: int) -> (int, int) {
    let t = coh_sum(a, boids, me, boids.len() as int);
    if t.2 > 0 {
        norm_spec(div_z(t.0, t.2), div_z(t.1, t.2))
    } else {
        (0int, 0int)
    }
}

/// Fixed-point distance from a boid to a point of interest.
pub open spec fn poi_dist_fp(a: Boid, p: POI) -> int {
    sqrt_floor(dist_sq(a.x as int, a.y as int, p.x as int, p.y as int))
}

/// One seek contribution: the unit vector toward an attractor, or away
/// from a repeller.
pub open spec fn seek_step(a: Boid, p: POI) -> (int, int) {
    let u = norm_spec(p.x - a.x, p.y - a.y);
    if p.toggled {
        u
    } else {
        (-u.0, -u.1)
    }
}

/// Seek contributions of the first `k` points of interest, counting only
/// those within `SEEK_RADIUS`; accumulated, not averaged.
pub open spec fn seek_sum(a: Boid, pois: Seq<POI>, k: int) -> (int, int)
    decreases k,
{
    if k <= 0 {
        (0int, 0int)
    } else {
        let p = seek_sum(a, pois, k - 1);
        let q = pois[k - 1];
        if poi_dist_fp(a, q) < SEEK_RADIUS {
            (p.0 + seek_step(a, q).0, p.1 + seek_step(a, q).1)
        } else {
            p
        }
    }
}

/// The seek force: the sum of the unit pulls of all points of interest in
/// range.
pub open spec fn seek_spec(a: Boid, pois: Seq<POI>) -> (int, int) {
    seek_sum(a, pois, pois.len() as int)
}

/// The velocity after adding the four weighted forces, before clamping:
/// separation at 1.5, alignment at 1.0, cohesion and seek at 0.75.
pub open spec fn combined_spec(a: Boid, boids: Seq<Boid>, me: int, pois: Seq<POI>) -> (int, int) {
    let s = separation_spec(a, boids, me);
    let l = alignment_spec(a, boids, me);
    let c = cohesion_spec(a, boids, me);
    let k = seek_spec(a, pois);
    (
        a.vx + div_z(s.0 * W_SEP, SCALE as int) + l.0 + div_z(c.0 * W_COH, SCALE as int) + div_z(
            k.0 * W_SEEK,
            SCALE as int,
        ),
        a.vy + div_z(s.1 * W_SEP, SCALE as int) + l.1 + div_z(c.1 * W_COH, SCALE as int) + div_z(
            k.1 * W_SEEK,
            SCALE as int,
        ),
    )
}

/// Boundary handling on one axis: clamp the position into `[0, limit]`
/// and reflect the velocity component when a wall was reached.
pub open spec fn bounce_axis(p: int, v: int, limit: int) -> (int, int) {
    if p <= 0 {
        (0int, -v)
    } else if p >= limit {
        (limit, -v)
    } else {
        (p, v)
    }
}

/// A full per-tick update of one agent against the snapshot: combine the
/// forces, clamp the speed to `MAX_SPEED`, move by the velocity, bounce
/// off the walls.
pub open spec fn update_spec(a: Boid, boids: Seq<Boid>, me: int, pois: Seq<POI>, w: int, h: int) -> Boid {
    let cv = clamp_len_spec(
        combined_spec(a, boids, me, pois).0,
        combined_spec(a, boids, me, pois).1,
        MAX_SPEED as int,
    );
    let bx = bounce_axis(a.x + cv.0, cv.0, w);
    let by = bounce_axis(a.y + cv.1, cv.1, h);
    Boid { x: bx.0 as i64, y: by.0 as i64, vx: bx.1 as i64, vy: by.1 as i64 }
}

/// Fixed-point distance between two points, executable.
fn dist_points(ax: i64, ay: i64, bx: i64, by: i64) -> (d: i64)
    requires
        0 <= ax <= DIM_LIMIT,
        0 <= ay <= DIM_LIMIT,
        0 <= bx <= DIM_LIMIT,
        0 <= by <= DIM_LIMIT,
    ensures
        d == sqrt_floor(dist_sq(ax as int, ay as int, bx as int, by as int)),
        0 <= d,
        abs_val(ax - bx) <= d,
        abs_val(ay - by) <= d,
{
    let dx: i64 = ax - bx;
    let dy: i64 = ay - by;
    proof {
        assert(dx * dx + dy * dy < 0x4000_0000_0000_0000 && dx * dx >= 0 && dy * dy >= 0
            && dx * dx <= 0x1000_0000_0000_0000 && dy * dy <= 0x1000_0000_0000_0000)
            by (nonlinear_arith)
            requires
                -1_000_000_000 <= dx <= 1_000_000_000,
                -1_000_000_000 <= dy <= 1_000_000_000,
        ;
        lemma_sqrt_floor_bounds((dx * dx + dy * dy) as int);
        crate::math::lemma_sqrt_floor_le((dx * dx + dy * dy) as int, 0x8000_0000);
        assert((dx * dx + dy * dy) as int <= 0x8000_0000 * 0x8000_0000) by (nonlinear_arith)
            requires
                dx * dx + dy * dy < 0x4000_0000_0000_0000,
        ;
        lemma_component_le_sqrt(dx as int, dy as int);
    }
    let q: u64 = (dx * dx + dy * dy) as u64;
    isqrt(q) as i64
}

impl Boid {
    /// The separation force: repulsion from every distinct neighbor closer
    /// than `SEP_RADIUS`, damped by squared distance, averaged and scaled
    /// to unit length.
    pub fn separation(&self, boids: &Vec<Boid>, me: usize) -> (r: (i64, i64))
        requires
            self.bounded(),
            boids.len() <= MAX_BOIDS,
            forall|i: int| 0 <= i < boids.len() ==> (#[trigger] boids[i]).bounded(),
        ensures
            r.0 == separation_spec(*self, boids@, me as int).0,
            r.1 == separation_spec(*self, boids@, me as int).1,
            abs_val(r.0 as int) <= SCALE,
            abs_val(r.1 as int) <= SCALE,
            (r.0 == 0 && r.1 == 0) || ((SCALE - 3) * (SCALE - 3) <= r.0 * r.0 + r.1 * r.1 && r.0
                * r.0 + r.1 * r.1 < (SCALE + 1) * (SCALE + 1)),
    {
        let mut sx: i64 = 0;
        let mut sy: i64 = 0;
        let mut count: i64 = 0;
        let mut k: usize = 0;
        while k < boids.len()
            invariant
                0 <= k <= boids.len(),
                boids.len() <= MAX_BOIDS,
                self.bounded(),
                forall|i: int| 0 <= i < boids.len() ==> (#[trigger] boids[i]).bounded(),
                sx == sep_sum(*self, boids@, me as int, k as int).0,
                sy == sep_sum(*self, boids@, me as int, k as int).1,
                count == sep_sum(*self, boids@, me as int, k as int).2,
                0 <= count <= k,
                abs_val(sx as int) <= SCALE * count,
                abs_val(sy as int) <= SCALE * count,
            decreases boids.len() - k,
        {
            if k != me {
                let b: Boid = boids[k];
                let d: i64 = dist_points(self.x, self.y, b.x, b.y);
                if d < SEP_RADIUS {
                    let dx: i64 = self.x - b.x;
                    let dy: i64 = self.y - b.y;
                    let m: i64 = if d < SCALE {
                        SCALE
                    } else {
                        d
                    };
                    proof {
                        assert(m * m <= 3000 * 3000 && m * m >= 1000 * 1000) by (nonlinear_arith)
                            requires
                                1000 <= m <= 3000,
                        ;
                        assert(abs_val(dx * (SCALE * SCALE)) <= (m * m) * SCALE
                            && abs_val(dy * (SCALE * SCALE)) <= (m * m) * SCALE
                            && -0x4000_0000_0000 <= dx * (SCALE * SCALE) <= 0x4000_0000_0000
                            && -0x4000_0000_0000 <= dy * (SCALE * SCALE) <= 0x4000_0000_0000)
                            by (nonlinear_arith)
                            requires
                                SCALE == 1000,
                                abs_val(dx as int) <= d,
                                abs_val(dy as int) <= d,
                                (abs_val(dx as int) == dx || abs_val(dx as int) == -dx),
                                (abs_val(dy as int) == dy || abs_val(dy as int) == -dy),
                                abs_val(dx as int) >= 0,
                                abs_val(dy as int) >= 0,
                                (abs_val(dx * (SCALE * SCALE)) == dx * (SCALE * SCALE)
                                    || abs_val(dx * (SCALE * SCALE)) == -(dx * (SCALE * SCALE))),
                                (abs_val(dy * (SCALE * SCALE)) == dy * (SCALE * SCALE)
                                    || abs_val(dy * (SCALE * SCALE)) == -(dy * (SCALE * SCALE))),
                                abs_val(dx * (SCALE * SCALE)) >= 0,
                                abs_val(dy * (SCALE * SCALE)) >= 0,
                                0 <= d,
                                d <= m,
                                1000 <= m <= 3000,
                        ;
                        lemma_div_z_le(dx * (SCALE * SCALE), (m * m) as int, SCALE as int);
                        lemma_div_z_le(dy * (SCALE * SCALE), (m * m) as int, SCALE as int);
                    }
                    let mm: i64 = m * m;
                    let tx: i64 = div_trunc(dx * (SCALE * SCALE), mm);
                    let ty: i64 = div_trunc(dy * (SCALE * SCALE), mm);
                    sx = sx + tx;
                    sy = sy + ty;
                    count = count + 1;
                    proof {
                        assert(abs_val(sx as int) <= SCALE * count
                            && abs_val(sy as int) <= SCALE * count);
                    }
                }
            }
            k = k + 1;
        }
        let avx: i64;
        let avy: i64;
        if count > 0 {
            proof {
                lemma_div_z_le(sx as int, count as int, SCALE as int);
                lemma_div_z_le(sy as int, count as int, SCALE as int);
            }
            avx = div_trunc(sx, count);
            avy = div_trunc(sy, count);
        } else {
            avx = sx;
            avy = sy;
        }
        normalize(avx, avy)
    }

    /// The alignment force: match the average velocity of every distinct
    /// neighbor closer than `ALIGN_RADIUS`, scaled to unit length.
    pub fn alignment(&self, boids: &Vec<Boid>, me: usize) -> (r: (i64, i64))
        requires
            self.bounded(),
            boids.len() <= MAX_BOIDS,
            forall|i: int| 0 <= i < boids.len() ==> (#[trigger] boids[i]).bounded(),
        ensures
            r.0 == alignment_spec(*self, boids@, me as int).0,
            r.1 == alignment_spec(*self, boids@, me as int).1,
            abs_val(r.0 as int) <= SCALE,
            abs_val(r.1 as int) <= SCALE,
            (r.0 == 0 && r.1 == 0) || ((SCALE - 3) * (SCALE - 3) <= r.0 * r.0 + r.1 * r.1 && r.0
                * r.0 + r.1 * r.1 < (SCALE + 1) * (SCALE + 1)),
    {
        let mut sx: i64 = 0;
        let mut sy: i64 = 0;
        let mut count: i64 = 0;
        let mut k: usize = 0;
        while k < boids.len()
            invariant
                0 <= k <= boids.len(),
                boids.len() <= MAX_BOIDS,
                self.bounded(),
                forall|i: int| 0 <= i < boids.len() ==> (#[trigger] boids[i]).bounded(),
                sx == align_sum(*self, boids@, me as int, k as int).0,
                sy == align_sum(*self, boids@, me as int, k as int).1,
                count == align_sum(*self, boids@, me as int, k as int).2,
                0 <= count <= k,
                abs_val(sx as int) <= VEL_LIMIT * count,
                abs_val(sy as int) <= VEL_LIMIT * count,
            decreases boids.len() - k,
        {
            if k != me {
                let b: Boid = boids[k];
                let d: i64 = dist_points(self.x, self.y, b.x, b.y);
                if d < ALIGN_RADIUS {
                    sx = sx + b.vx;
                    sy = sy + b.vy;
                    count = count + 1;
                }
            }
            k = k + 1;
        }
        let avx: i64;
        let avy: i64;
        if count > 0 {
            proof {
                lemma_div_z_le(sx as int, count as int, VEL_LIMIT as int);
                lemma_div_z_le(sy as int, count as int, VEL_LIMIT as int);
            }
            avx = div_trunc(sx, count);
            avy = div_trunc(sy, count);
        } else {
            avx = sx;
            avy = sy;
        }
        normalize(avx, avy)
    }

    /// The cohesion force: steer toward the centroid of every distinct
    /// neighbor closer than `COH_RADIUS`, scaled to unit length.
    pub fn cohesion(&self, boids: &Vec<Boid>, me: usize) -> (r: (i64, i64))
        requires
            self.bounded(),
            boids.len() <= MAX_BOIDS,
            forall|i: int| 0 <= i < boids.len() ==> (#[trigger] boids[i]).bounded(),
        ensures
            r.0 == cohesion_spec(*self, boids@, me as int).0,
            r.1 == cohesion_spec(*self, boids@, me as int).1,
            abs_val(r.0 as int) <= SCALE,
            abs_val(r.1 as int) <= SCALE,
            (r.0 == 0 && r.1 == 0) || ((SCALE - 3) * (SCALE - 3) <= r.0 * r.0 + r.1 * r.1 && r.0
                * r.0 + r.1 * r.1 < (SCALE + 1) * (SCALE + 1)),
    {
        let mut sx: i64 = 0;
        let mut sy: i64 = 0;
        let mut count: i64 = 0;
        let mut k: usize = 0;
        while k < boids.len()
            invariant
                0 <= k <= boids.len(),
                boids.len() <= MAX_BOIDS,
                self.bounded(),
                forall|i: int| 0 <= i < boids.len() ==> (#[trigger] boids[i]).bounded(),
                sx == coh_sum(*self, boids@, me as int, k as int).0,
                sy == coh_sum(*self, boids@, me as int, k as int).1,
                count == coh_sum(*self, boids@, me as int, k as int).2,
                0 <= count <= k,
                abs_val(sx as int) <= COH_RADIUS * count,
                abs_val(sy as int) <= COH_RADIUS * count,
            decreases boids.len() - k,
        {
            if k != me {
                let b: Boid = boids[k];
                let d: i64 = dist_points(self.x, self.y, b.x, b.y);
                if d < COH_RADIUS {
                    sx = sx + (b.x - self.x);
                    sy = sy + (b.y - self.y);
                    count = count + 1;
                }
            }
            k = k + 1;
        }
        if count > 0 {
            proof {
                lemma_div_z_le(sx as int, count as int, COH_RADIUS as int);
                lemma_div_z_le(sy as int, count as int, COH_RADIUS as int);
            }
            let avx: i64 = div_trunc(sx, count);
            let avy: i64 = div_trunc(sy, count);
            normalize(avx, avy)
        } else {
            (0, 0)
        }
    }

    /// The seek force: the summed unit pulls of every point of interest
    /// closer than `SEEK_RADIUS` — toward attractors, away from repellers.
    pub fn seek(&self, pois: &Vec<POI>) -> (r: (i64, i64))
        requires
            self.bounded(),
            pois.len() <= MAX_POIS,
            forall|i: int| 0 <= i < pois.len() ==> (#[trigger] pois[i]).bounded(),
        ensures
            r.0 == seek_spec(*self, pois@).0,
            r.1 == seek_spec(*self, pois@).1,
            abs_val(r.0 as int) <= SCALE * pois.len(),
            abs_val(r.1 as int) <= SCALE * pois.len(),
    {
        let mut sx: i64 = 0;
        let mut sy: i64 = 0;
        let mut k: usize = 0;
        while k < pois.len()
            invariant
                0 <= k <= pois.len(),
                pois.len() <= MAX_POIS,
                self.bounded(),
                forall|i: int| 0 <= i < pois.len() ==> (#[trigger] pois[i]).bounded(),
                sx == seek_sum(*self, pois@, k as int).0,
                sy == seek_sum(*self, pois@, k as int).1,
                abs_val(sx as int) <= SCALE * k,
                abs_val(sy as int) <= SCALE * k,
            decreases pois.len() - k,
        {
            let p: POI = pois[k];
            let d: i64 = dist_points(self.x, self.y, p.x, p.y);
            if d < SEEK_RADIUS {
                let u: (i64, i64) = normalize(p.x - self.x, p.y - self.y);
                if p.toggled {
                    sx = sx + u.0;
                    sy = sy + u.1;
                } else {
                    sx = sx - u.0;
                    sy = sy - u.1;
                }
            }
            k = k + 1;
        }
        (sx, sy)
    }

    /// One tick of this agent against the pre-tick snapshot: combine the
    /// four forces, clamp the speed to `MAX_SPEED`, move by the clamped
    /// velocity, and bounce off the arena walls.  Afterward the agent is
    /// back inside the arena and its speed is at most one unit per tick
    /// (up to the fixed-point granularity).
    #[verifier::rlimit(50)]
    pub fn update(&mut self, w: i64, h: i64, boids: &Vec<Boid>, me: usize, pois: &Vec<POI>)
        requires
            0 < w <= DIM_LIMIT,
            0 < h <= DIM_LIMIT,
            old(self).valid(w as int, h as int),
            boids.len() <= MAX_BOIDS,
            all_valid(boids@, w as int, h as int),
            pois.len() <= MAX_POIS,
            forall|i: int| 0 <= i < pois.len() ==> (#[trigger] pois[i]).bounded(),
        ensures
            *final(self) == update_spec(
                *old(self),
                boids@,
                me as int,
                pois@,
                w as int,
                h as int,
            ),
            final(self).valid(w as int, h as int),
            speed_sq(*final(self)) < (MAX_SPEED + 1) * (MAX_SPEED + 1),
    {
        proof {
            assert forall|i: int| 0 <= i < boids.len() implies (#[trigger] boids[i]).bounded() by {
                assert(boids@[i].valid(w as int, h as int));
            }
        }
        let s: (i64, i64) = self.separation(boids, me);
        let l: (i64, i64) = self.alignment(boids, me);
        let c: (i64, i64) = self.cohesion(boids, me);
        let sk: (i64, i64) = self.seek(pois);
        proof {
            lemma_div_z_le(s.0 * W_SEP, SCALE as int, W_SEP as int);
            lemma_div_z_le(s.1 * W_SEP, SCALE as int, W_SEP as int);
            lemma_div_z_le(c.0 * W_COH, SCALE as int, W_COH as int);
            lemma_div_z_le(c.1 * W_COH, SCALE as int, W_COH as int);
            lemma_div_z_le(sk.0 * W_SEEK, SCALE as int, MAX_POIS * W_SEEK as int);
            lemma_div_z_le(sk.1 * W_SEEK, SCALE as int, MAX_POIS * W_SEEK as int);
        }
        let vx: i64 = self.vx + div_trunc(s.0 * W_SEP, SCALE) + l.0 + div_trunc(c.0 * W_COH, SCALE)
            + div_trunc(sk.0 * W_SEEK, SCALE);
        let vy: i64 = self.vy + div_trunc(s.1 * W_SEP, SCALE) + l.1 + div_trunc(c.1 * W_COH, SCALE)
            + div_trunc(sk.1 * W_SEEK, SCALE);
        let cv: (i64, i64) = clamp_len(vx, vy, MAX_SPEED);
        let px: i64 = self.x + cv.0;
        let py: i64 = self.y + cv.1;
        if px <= 0 {
            self.x = 0;
            self.vx = -cv.0;
        } else if px >= w {
            self.x = w;
            self.vx = -cv.0;
        } else {
            self.x = px;
            self.vx = cv.0;
        }
        if py <= 0 {
            self.y = 0;
            self.vy = -cv.1;
        } else if py >= h {
            self.y = h;
            self.vy = -cv.1;
        } else {
            self.y = py;
            self.vy = cv.1;
        }
        proof {
            assert(self.vx * self.vx + self.vy * self.vy < (MAX_SPEED + 1) * (MAX_SPEED + 1))
                by (nonlinear_arith)
                requires
                    self.vx == cv.0 || self.vx == -cv.0,
                    self.vy == cv.1 || self.vy == -cv.1,
                    cv.0 * cv.0 + cv.1 * cv.1 < (MAX_SPEED + 1) * (MAX_SPEED + 1),
                    MAX_SPEED == 1000,
            ;
        }
    }
}

} // verus!
