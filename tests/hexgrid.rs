use hexgrid::{
    generate_grid, hex_tile, hex_to_pixel, reference_grid, AxialCoordinate, FillColor, GridError,
    GridWindow, PixelPosition, TileRadius, HEX_RADIUS, HEX_SIDES, REFERENCE_HALF_WIDTH,
};

const TOLERANCE: f64 = 1e-6;

fn radius(pixels: i32) -> TileRadius {
    TileRadius::new(pixels).unwrap()
}

fn to_canvas(p: PixelPosition) -> (f64, f64) {
    (p.x_units as f64 * 3f64.sqrt() / 2.0, p.y_units as f64 / 2.0)
}

fn close(a: f64, b: f64) -> bool {
    (a - b).abs() <= TOLERANCE * (1.0 + b.abs())
}

#[test]
fn origin_maps_to_canvas_origin() {
    let p = hex_to_pixel(0, 0, radius(50));
    assert_eq!(p, PixelPosition { x_units: 0, y_units: 0 });
    let (x, y) = to_canvas(p);
    assert!(close(x, 0.0) && close(y, 0.0));
}

#[test]
fn unit_q_step_moves_right_by_radius_sqrt3() {
    let p = hex_to_pixel(1, 0, radius(50));
    assert_eq!(p, PixelPosition { x_units: 100, y_units: 0 });
    let (x, y) = to_canvas(p);
    assert!(close(x, 86.60254037844386));
    assert!(close(y, 0.0));
}

#[test]
fn unit_r_step_moves_half_right_and_down() {
    let p = hex_to_pixel(0, 1, radius(50));
    assert_eq!(p, PixelPosition { x_units: 50, y_units: 150 });
    let (x, y) = to_canvas(p);
    assert!(close(x, 43.30127018922193));
    assert!(close(y, 75.0));
}

#[test]
fn transform_matches_closed_form() {
    let rho = 37;
    for q in -9..=9 {
        for r in -9..=9 {
            let (x, y) = to_canvas(hex_to_pixel(q, r, radius(rho)));
            let rho = rho as f64;
            let (qf, rf) = (q as f64, r as f64);
            assert!(close(x, rho * 3f64.sqrt() * (qf + rf / 2.0)));
            assert!(close(y, rho * 1.5 * rf));
        }
    }
}

#[test]
fn transform_at_coordinate_extremes() {
    let p = hex_to_pixel(i32::MAX, i32::MIN, radius(i32::MAX));
    let rho = i32::MAX as i128;
    assert_eq!(p.x_units, rho * (2 * i32::MAX as i128 + i32::MIN as i128));
    assert_eq!(p.y_units, 3 * rho * i32::MIN as i128);
}

#[test]
fn doubling_radius_doubles_positions() {
    for q in -5..=5 {
        for r in -5..=5 {
            let small = hex_to_pixel(q, r, radius(25));
            let large = hex_to_pixel(q, r, radius(50));
            assert_eq!(large.x_units, 2 * small.x_units);
            assert_eq!(large.y_units, 2 * small.y_units);
        }
    }
}

#[test]
fn neighbours_lie_radius_sqrt3_apart() {
    let offsets = [(1, 0), (1, -1), (0, -1), (-1, 0), (-1, 1), (0, 1)];
    let rho = 50;
    for q in -3..=3 {
        for r in -3..=3 {
            let a = hex_to_pixel(q, r, radius(rho));
            for (dq, dr) in offsets {
                let b = hex_to_pixel(q + dq, r + dr, radius(rho));
                let dx = a.x_units - b.x_units;
                let dy = a.y_units - b.y_units;
                assert_eq!(3 * dx * dx + dy * dy, 12 * (rho as i128) * (rho as i128));
                let (ax, ay) = to_canvas(a);
                let (bx, by) = to_canvas(b);
                let d = ((ax - bx).powi(2) + (ay - by).powi(2)).sqrt();
                assert!(close(d, rho as f64 * 3f64.sqrt()));
            }
        }
    }
}

#[test]
fn reference_grid_has_121_distinct_tiles() {
    let tiles = reference_grid(HEX_RADIUS).unwrap();
    assert_eq!(tiles.len(), 121);
    for i in 0..tiles.len() {
        for j in (i + 1)..tiles.len() {
            assert_ne!(tiles[i].position, tiles[j].position);
            assert_ne!(tiles[i].coord, tiles[j].coord);
            assert_ne!(tiles[i], tiles[j]);
        }
    }
    for q in -5..=5 {
        for r in -5..=5 {
            assert!(tiles.iter().any(|t| t.coord == AxialCoordinate { q, r }));
        }
    }
}

#[test]
fn reference_grid_is_q_major() {
    let tiles = reference_grid(HEX_RADIUS).unwrap();
    assert_eq!(tiles[0].coord, AxialCoordinate { q: -5, r: -5 });
    assert_eq!(tiles[1].coord, AxialCoordinate { q: -5, r: -4 });
    assert_eq!(tiles[10].coord, AxialCoordinate { q: -5, r: 5 });
    assert_eq!(tiles[11].coord, AxialCoordinate { q: -4, r: -5 });
    assert_eq!(tiles[120].coord, AxialCoordinate { q: 5, r: 5 });
    assert_eq!(tiles[60].coord, AxialCoordinate { q: 0, r: 0 });
    assert_eq!(tiles[60].position, PixelPosition { x_units: 0, y_units: 0 });
}

#[test]
fn negative_radius_is_rejected() {
    assert_eq!(reference_grid(-1), Err(GridError::InvalidRadius));
    assert_eq!(TileRadius::new(-1), Err(GridError::InvalidRadius));
}

#[test]
fn zero_radius_is_rejected() {
    assert_eq!(reference_grid(0), Err(GridError::InvalidRadius));
    assert_eq!(TileRadius::new(0), Err(GridError::InvalidRadius));
}

#[test]
fn positive_radius_is_kept() {
    assert_eq!(TileRadius::new(1).unwrap().pixels(), 1);
    assert_eq!(TileRadius::new(i32::MAX).unwrap().pixels(), i32::MAX);
}

#[test]
fn tile_is_green_hexagon_of_shared_radius() {
    let t = hex_tile(AxialCoordinate { q: 2, r: -3 }, radius(50));
    assert_eq!(t.sides, 6);
    assert_eq!(HEX_SIDES, 6);
    assert_eq!(t.radius.pixels(), 50);
    assert_eq!(t.fill, FillColor { red: 20, green: 70, blue: 30 });
    assert_eq!(t.fill, FillColor::tile_green());
    assert_eq!(t.coord, AxialCoordinate { q: 2, r: -3 });
    assert_eq!(t.position, PixelPosition { x_units: 50, y_units: -450 });
}

#[test]
fn reference_tiles_carry_given_radius() {
    let tiles = reference_grid(20).unwrap();
    assert!(tiles.iter().all(|t| t.radius.pixels() == 20));
    let last = tiles[120];
    assert_eq!(last.position, PixelPosition { x_units: 20 * 15, y_units: 3 * 20 * 5 });
}

#[test]
fn centered_window_bounds_and_count() {
    let w = GridWindow::centered(REFERENCE_HALF_WIDTH);
    assert_eq!(w, GridWindow { q_min: -5, q_max: 5, r_min: -5, r_max: 5 });
    assert_eq!(w.tile_count(), Some(121));
    assert_eq!(GridWindow::centered(0).tile_count(), Some(1));
}

#[test]
fn crossed_window_is_empty() {
    let w = GridWindow { q_min: 3, q_max: 2, r_min: -1, r_max: 1 };
    assert_eq!(w.tile_count(), Some(0));
    assert!(generate_grid(w, radius(10)).is_empty());
}

#[test]
fn oversized_window_has_no_count() {
    let w = GridWindow { q_min: i32::MIN, q_max: i32::MAX, r_min: i32::MIN, r_max: i32::MAX };
    assert_eq!(w.tile_count(), None);
}

#[test]
fn rectangular_window_generates_every_cell() {
    let w = GridWindow { q_min: 1, q_max: 3, r_min: -2, r_max: -1 };
    let tiles = generate_grid(w, radius(4));
    assert_eq!(w.tile_count(), Some(6));
    let coords: Vec<(i32, i32)> = tiles.iter().map(|t| (t.coord.q, t.coord.r)).collect();
    assert_eq!(coords, vec![(1, -2), (1, -1), (2, -2), (2, -1), (3, -2), (3, -1)]);
    for t in &tiles {
        assert_eq!(t.position, hex_to_pixel(t.coord.q, t.coord.r, radius(4)));
    }
}
