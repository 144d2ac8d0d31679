use terminal_boids::boid::Boid;
use terminal_boids::grid::{get_direction_symbol, Grid};
use terminal_boids::poi::POI;

#[test]
fn direction_symbols_cover_the_compass() {
    assert_eq!(get_direction_symbol(5, 0), '⇒');
    assert_eq!(get_direction_symbol(-5, 0), '⇐');
    assert_eq!(get_direction_symbol(0, 5), '⇓');
    assert_eq!(get_direction_symbol(0, -5), '⇑');
    assert_eq!(get_direction_symbol(5, -5), '⇗');
    assert_eq!(get_direction_symbol(-5, -5), '⇖');
    assert_eq!(get_direction_symbol(5, 5), '⇘');
    assert_eq!(get_direction_symbol(-5, 5), '⇙');
    assert_eq!(get_direction_symbol(0, 0), '•');
    // the dominant axis wins over the diagonal
    assert_eq!(get_direction_symbol(7, -5), '⇒');
    assert_eq!(get_direction_symbol(-5, 7), '⇓');
}

#[test]
fn grid_new_is_blank_with_the_given_shape() {
    let g = Grid::new(4, 7);
    assert_eq!(g.rows, 4);
    assert_eq!(g.cols, 7);
    assert_eq!(g.data.len(), 4);
    for row in g.data.iter() {
        assert_eq!(row.len(), 7);
        for c in row.iter() {
            assert_eq!(*c, ' ');
        }
    }
}

#[test]
fn compose_frame_places_glyphs_at_rounded_cells() {
    let g = Grid::new(5, 8);
    let mut boids: Vec<Boid> = Vec::new();
    // 2.4 rounds down, 2.5 rounds up
    boids.push(Boid::new(2400, 1000, 500, 0));
    boids.push(Boid::new(4500, 3000, 0, 0));
    let pois: Vec<POI> = Vec::new();
    let frame = g.compose_frame(&boids, &pois, 0);
    assert_eq!(frame.len(), 40);
    assert_eq!(frame[1 * 8 + 2], '⇒');
    assert_eq!(frame[3 * 8 + 5], '•');
    assert_eq!(frame[0], ' ');
}

#[test]
fn pois_overlay_boids_and_mark_the_selection() {
    let g = Grid::new(5, 8);
    let mut boids: Vec<Boid> = Vec::new();
    boids.push(Boid::new(2000, 1000, 500, 0));
    let mut pois: Vec<POI> = Vec::new();
    pois.push(POI::new(2000, 1000));
    pois.push(POI::new(6000, 2000));
    let frame = g.compose_frame(&boids, &pois, 1);
    // the POI wins the shared cell; the selected one shows as 'o'
    assert_eq!(frame[1 * 8 + 2], '*');
    assert_eq!(frame[2 * 8 + 6], 'o');
}

#[test]
fn out_of_grid_positions_are_skipped() {
    let g = Grid::new(3, 3);
    let mut boids: Vec<Boid> = Vec::new();
    boids.push(Boid::new(9000, 1000, 0, 0));
    let pois: Vec<POI> = Vec::new();
    let frame = g.compose_frame(&boids, &pois, 0);
    for c in frame.iter() {
        assert_eq!(*c, ' ');
    }
}
