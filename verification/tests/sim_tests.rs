use terminal_boids::world::{Command, Direction, World};

fn units(u: i64) -> i64 {
    u * 1000
}

#[test]
fn poi_population_never_exceeds_the_cap() {
    let mut w = World::new(units(50), units(20));
    for _ in 0..15 {
        w.spawn_poi();
    }
    assert_eq!(w.poi_count(), 10);
}

#[test]
fn spawned_poi_sits_at_the_center_and_is_selected() {
    let mut w = World::new(units(50), units(20));
    w.spawn_poi();
    w.spawn_poi();
    assert_eq!(w.poi_count(), 2);
    assert_eq!(w.selected, 1);
    assert_eq!(w.pois[1].x, units(25));
    assert_eq!(w.pois[1].y, units(10));
    assert!(w.pois[1].toggled);
}

#[test]
fn remove_last_on_empty_population_is_a_noop() {
    let mut w = World::new(units(50), units(20));
    w.remove_last_boid();
    assert_eq!(w.boid_count(), 0);
}

#[test]
fn remove_last_pops_most_recent_spawn() {
    let mut w = World::new(units(50), units(20));
    w.spawn_boid();
    w.spawn_boid();
    let first = w.boids[0];
    w.remove_last_boid();
    assert_eq!(w.boid_count(), 1);
    assert_eq!(w.boids[0], first);
}

#[test]
fn selecting_a_missing_index_keeps_the_prior_selection() {
    let mut w = World::new(units(50), units(20));
    w.spawn_poi();
    w.spawn_poi();
    w.spawn_poi();
    w.select_poi(1);
    assert_eq!(w.selected, 1);
    w.select_poi(5);
    assert_eq!(w.selected, 1);
}

#[test]
fn removing_the_last_poi_clamps_the_selection() {
    let mut w = World::new(units(50), units(20));
    w.spawn_poi();
    w.spawn_poi();
    w.spawn_poi();
    assert_eq!(w.selected, 2);
    w.remove_poi();
    assert_eq!(w.poi_count(), 2);
    assert_eq!(w.selected, 1);
    w.select_poi(0);
    w.remove_poi();
    assert_eq!(w.poi_count(), 1);
    assert_eq!(w.selected, 0);
    w.remove_poi();
    assert_eq!(w.poi_count(), 0);
    assert_eq!(w.selected, 0);
    w.remove_poi();
    assert_eq!(w.poi_count(), 0);
}

#[test]
fn toggle_flips_polarity_in_place() {
    let mut w = World::new(units(50), units(20));
    w.spawn_poi();
    assert!(w.pois[0].toggled);
    w.toggle_poi();
    assert!(!w.pois[0].toggled);
    w.toggle_poi();
    assert!(w.pois[0].toggled);
}

#[test]
fn moving_a_poi_respects_the_arena_bounds() {
    let mut w = World::new(units(50), units(20));
    w.spawn_poi();
    assert_eq!(w.pois[0].x, units(25));
    w.move_poi(Direction::Left);
    assert_eq!(w.pois[0].x, units(24));
    for _ in 0..30 {
        w.move_poi(Direction::Left);
    }
    assert_eq!(w.pois[0].x, 0);
    for _ in 0..60 {
        w.move_poi(Direction::Right);
    }
    // a step to `width` itself would leave `[0, width)`: the POI parks one
    // unit short of the wall.
    assert_eq!(w.pois[0].x, units(49));
    for _ in 0..15 {
        w.move_poi(Direction::Up);
    }
    assert_eq!(w.pois[0].y, 0);
    for _ in 0..25 {
        w.move_poi(Direction::Down);
    }
    assert_eq!(w.pois[0].y, units(19));
}

#[test]
fn spawn_boid_lands_inside_the_arena_with_burst_velocity() {
    let mut w = World::new(units(50), units(20));
    for _ in 0..20 {
        w.spawn_boid();
    }
    assert_eq!(w.boid_count(), 20);
    for b in w.boids.iter() {
        assert!(0 <= b.x && b.x < units(50));
        assert!(0 <= b.y && b.y < units(20));
        assert!(-units(10) <= b.vx && b.vx < units(10));
        assert!(-units(10) <= b.vy && b.vy < units(10));
    }
}

#[test]
fn command_dispatch_reaches_every_operation() {
    let mut w = World::new(units(50), units(20));
    w.apply(Command::AddPoi);
    assert_eq!(w.poi_count(), 1);
    w.apply(Command::TogglePoi);
    assert!(!w.pois[0].toggled);
    w.apply(Command::MovePoi(Direction::Right));
    assert_eq!(w.pois[0].x, units(26));
    w.apply(Command::AddPoi);
    w.apply(Command::SelectPoi(0));
    assert_eq!(w.selected, 0);
    w.apply(Command::SpawnBoid);
    assert_eq!(w.boid_count(), 1);
    w.apply(Command::RemoveLastBoid);
    assert_eq!(w.boid_count(), 0);
    w.apply(Command::RemovePoi);
    assert_eq!(w.poi_count(), 1);
}

#[test]
fn commands_on_an_empty_world_are_noops() {
    let mut w = World::new(units(50), units(20));
    w.apply(Command::TogglePoi);
    w.apply(Command::MovePoi(Direction::Up));
    w.apply(Command::RemovePoi);
    w.apply(Command::RemoveLastBoid);
    w.apply(Command::SelectPoi(3));
    assert_eq!(w.poi_count(), 0);
    assert_eq!(w.boid_count(), 0);
    assert_eq!(w.selected, 0);
}
