use terminal_boids::boid::Boid;
use terminal_boids::poi::POI;
use terminal_boids::world::World;

fn units(u: i64) -> i64 {
    u * 1000
}

#[test]
fn lone_still_boid_is_a_fixed_point() {
    // 50 x 20 arena, one agent at (25, 10) with zero velocity, no POIs:
    // every force is zero and the agent does not move.
    let mut w = World::new(units(50), units(20));
    w.boids.push(Boid::new(units(25), units(10), 0, 0));
    w.tick();
    assert_eq!(w.boids.len(), 1);
    assert_eq!(w.boids[0].x, units(25));
    assert_eq!(w.boids[0].y, units(10));
    assert_eq!(w.boids[0].vx, 0);
    assert_eq!(w.boids[0].vy, 0);
}

#[test]
fn left_wall_bounce_flips_velocity() {
    // An agent on the left wall moving left is clamped to the wall and its
    // horizontal velocity is sign-flipped.
    let mut w = World::new(units(50), units(20));
    w.boids.push(Boid::new(0, units(10), -500, 0));
    w.tick();
    assert_eq!(w.boids[0].x, 0);
    assert_eq!(w.boids[0].vx, 500);
    assert_eq!(w.boids[0].y, units(10));
    assert_eq!(w.boids[0].vy, 0);
}

#[test]
fn close_pair_steers_apart() {
    // Two stationary agents one unit apart and no other influence: after a
    // tick the distance between them has grown.
    let mut w = World::new(units(50), units(20));
    w.boids.push(Boid::new(units(10), units(10), 0, 0));
    w.boids.push(Boid::new(units(11), units(10), 0, 0));
    let before = w.boids[1].x - w.boids[0].x;
    w.tick();
    // separation at weight 1.5 beats cohesion at 0.75: each moves 0.75
    // units away from the other.
    assert_eq!(w.boids[0].x, 9250);
    assert_eq!(w.boids[1].x, 11750);
    assert_eq!(w.boids[0].y, units(10));
    assert_eq!(w.boids[1].y, units(10));
    let after = w.boids[1].x - w.boids[0].x;
    assert!(after >= before);
}

#[test]
fn identical_twins_still_separate() {
    // Two agents sharing the exact same state must still repel each other:
    // exclusion from the neighbor scan is by index, not by value.
    let mut w = World::new(units(50), units(20));
    w.boids.push(Boid::new(units(10), units(10), 0, 0));
    w.boids.push(Boid::new(units(10), units(10), 0, 0));
    w.boids.push(Boid::new(units(11), units(10), 0, 0));
    w.tick();
    // the coincident pair is at distance zero (no separation push between
    // them) but both are pushed left by the third agent.
    assert!(w.boids[0].x < units(10));
    assert_eq!(w.boids[0].x, w.boids[1].x);
    assert!(w.boids[2].x > units(11));
}

#[test]
fn seek_points_at_attractor_and_flips_for_repeller() {
    // A single attractor ten units away (inside the radius of twenty)
    // yields a unit force straight toward it; a repeller reverses it.
    let b = Boid::new(units(10), units(10), 0, 0);
    let mut pois: Vec<POI> = Vec::new();
    pois.push(POI::new(units(20), units(10)));
    let (fx, fy) = b.seek(&pois);
    assert_eq!((fx, fy), (1000, 0));
    let dx = pois[0].x - b.x;
    let dy = pois[0].y - b.y;
    assert!(fx * dx + fy * dy > 0);
    pois[0].toggle();
    let (rx, ry) = b.seek(&pois);
    assert_eq!((rx, ry), (-1000, 0));
    assert!(rx * dx + ry * dy < 0);
}

#[test]
fn seek_ignores_out_of_range_poi() {
    let b = Boid::new(units(10), units(10), 0, 0);
    let mut pois: Vec<POI> = Vec::new();
    pois.push(POI::new(units(40), units(10)));
    assert_eq!(b.seek(&pois), (0, 0));
}

#[test]
fn burst_spawn_speed_is_clamped_on_first_tick() {
    // A fresh spawn may carry up to ten units per tick on each axis; after
    // one tick its speed is back under the cap (within fixed-point slack).
    let mut w = World::new(units(50), units(20));
    w.boids.push(Boid::new(units(25), units(10), 10000, 10000));
    w.tick();
    let b = w.boids[0];
    assert_eq!((b.vx, b.vy), (707, 707));
    assert!(b.vx * b.vx + b.vy * b.vy <= 1001 * 1001);
    assert_eq!(b.x, units(25) + 707);
    assert_eq!(b.y, units(10) + 707);
}

#[test]
fn every_agent_stays_inside_the_arena() {
    // Agents thrown at the walls from all sides are clamped back in.
    let mut w = World::new(units(5), units(4));
    w.boids.push(Boid::new(0, 0, -9000, -9000));
    w.boids.push(Boid::new(units(5), units(4), 9000, 9000));
    for _ in 0..50 {
        w.tick();
        for b in w.boids.iter() {
            assert!(0 <= b.x && b.x <= units(5));
            assert!(0 <= b.y && b.y <= units(4));
            assert!(b.vx * b.vx + b.vy * b.vy <= 1001 * 1001);
        }
    }
}

#[test]
fn alignment_matches_neighbor_heading() {
    // A still agent next to one moving right (within the alignment radius,
    // beyond the separation radius once separated) gains rightward motion.
    let b = Boid::new(units(10), units(10), 0, 0);
    let mut flock: Vec<Boid> = Vec::new();
    flock.push(b);
    flock.push(Boid::new(units(13), units(10), 800, 0));
    let f = b.alignment(&flock, 0);
    assert_eq!(f, (1000, 0));
}

#[test]
fn cohesion_pulls_toward_centroid() {
    let b = Boid::new(units(10), units(10), 0, 0);
    let mut flock: Vec<Boid> = Vec::new();
    flock.push(b);
    flock.push(Boid::new(units(14), units(10), 0, 0));
    let f = b.cohesion(&flock, 0);
    assert_eq!(f, (1000, 0));
}

#[test]
fn sub_unit_offsets_still_yield_unit_forces() {
    // a neighbor a thousandth of a unit away: the separation push is
    // still a (nearly) unit vector, not a shorter or longer one
    let b = Boid::new(units(10), units(10), 0, 0);
    let mut flock: Vec<Boid> = Vec::new();
    flock.push(b);
    flock.push(Boid::new(units(10) + 1, units(10) + 1, 0, 0));
    let (sx, sy) = b.separation(&flock, 0);
    assert_eq!((sx, sy), (-707, -707));
    let sep_len_sq = sx * sx + sy * sy;
    assert!(997 * 997 <= sep_len_sq && sep_len_sq < 1001 * 1001);
    // the same hair's-breadth offset pulls with unit cohesion
    let (cx, cy) = b.cohesion(&flock, 0);
    assert_eq!((cx, cy), (707, 707));
    // a neighbor drifting at a thousandth of a unit per tick still sets
    // a unit alignment heading
    let mut flock2: Vec<Boid> = Vec::new();
    flock2.push(b);
    flock2.push(Boid::new(units(12), units(10), 1, 1));
    let (ax, ay) = b.alignment(&flock2, 0);
    assert_eq!((ax, ay), (707, 707));
}

#[test]
fn value_identical_twin_counts_for_alignment() {
    // a distinct agent sharing the exact same state is still a neighbor:
    // alignment returns its (unit-scaled) heading, not zero
    let a = Boid::new(units(10), units(10), 800, 0);
    let mut flock: Vec<Boid> = Vec::new();
    flock.push(a);
    flock.push(Boid::new(units(10), units(10), 800, 0));
    assert_eq!(a.alignment(&flock, 0), (1000, 0));
    // the heading is unit-scaled even when the twin drifts at a
    // thousandth of a unit per tick
    let s = Boid::new(units(10), units(10), 1, 1);
    let mut slow: Vec<Boid> = Vec::new();
    slow.push(s);
    slow.push(Boid::new(units(10), units(10), 1, 1));
    assert_eq!(s.alignment(&slow, 0), (707, 707));
}

#[test]
fn separation_is_inverse_square_weighted() {
    let b = Boid::new(units(10), units(10), 0, 0);
    let mut flock: Vec<Boid> = Vec::new();
    flock.push(b);
    flock.push(Boid::new(units(12), units(10), 0, 0));
    let f = b.separation(&flock, 0);
    assert_eq!(f, (-1000, 0));
}
